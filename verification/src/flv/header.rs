//! The FLV file header and the typed headers that open a tag's payload.
use vstd::prelude::*;
use crate::error::FlvError;
use crate::flv::decoder::Decoder;
use crate::io::bytes::{
    lemma_radix_values, parsed_err, parsed_ok, take_be, take_u8, twos_complement, Parsed,
};
use crate::io::bit::{bit_of, bits_of, BitIO};

verus! {

/// Codec id of AAC audio.
pub const SOUND_FORMAT_AAC: u8 = 10;

/// Codec id of MP3 audio.
pub const SOUND_FORMAT_MP3: u8 = 2;

/// Codec id of AVC video.
pub const CODEC_ID_AVC: u8 = 7;

/// The audio header at the front of `bytes`: one byte of format (bits 4 to
/// 7), rate (bits 2 and 3), size (bit 1) and type (bit 0), and for AAC one
/// more byte, the packet type.
pub open spec fn spec_audio_header(bytes: Seq<u8>) -> Parsed<AudioTagHeader> {
    let f = take_u8(bytes);
    match f.result {
        Err(error) => parsed_err(error, f.rest),
        Ok(flags) => {
            let sound_format = bits_of(flags, 4, 7) as u8;
            let sound_rate = bits_of(flags, 2, 3) as u8;
            let sound_size = bit_of(flags, 1);
            let sound_type = bits_of(flags, 0, 0) as u8;
            if sound_format == SOUND_FORMAT_AAC {
                let p = take_u8(f.rest);
                match p.result {
                    Err(error) => parsed_err(error, p.rest),
                    Ok(aac_packet_type) => parsed_ok(
                        AudioTagHeader {
                            sound_format,
                            sound_rate,
                            sound_size,
                            sound_type,
                            aac_packet_type,
                        },
                        p.rest,
                    ),
                }
            } else {
                parsed_ok(
                    AudioTagHeader {
                        sound_format,
                        sound_rate,
                        sound_size,
                        sound_type,
                        aac_packet_type: 0,
                    },
                    f.rest,
                )
            }
        },
    }
}

/// The video header at the front of `bytes`: one byte of frame type (bits 4
/// to 7) and codec (bits 0 to 3), and for AVC a packet type and a signed
/// 24-bit composition time.
pub open spec fn spec_video_header(bytes: Seq<u8>) -> Parsed<VideoTagHeader> {
    let f = take_u8(bytes);
    match f.result {
        Err(error) => parsed_err(error, f.rest),
        Ok(flags) => {
            let frame_type = bits_of(flags, 4, 7) as u8;
            let codec_id = bits_of(flags, 0, 3) as u8;
            if codec_id == CODEC_ID_AVC {
                let p = take_u8(f.rest);
                match p.result {
                    Err(error) => parsed_err(error, p.rest),
                    Ok(avc_packet_type) => {
                        let c = take_be(p.rest, 3);
                        match c.result {
                            Err(error) => parsed_err(error, c.rest),
                            Ok(offset) => parsed_ok(
                                VideoTagHeader {
                                    frame_type,
                                    codec_id,
                                    avc_packet_type,
                                    composition_time: twos_complement(offset, 0x100_0000) as i32,
                                },
                                c.rest,
                            ),
                        }
                    },
                }
            } else {
                parsed_ok(
                    VideoTagHeader {
                        frame_type,
                        codec_id,
                        avc_packet_type: 0,
                        composition_time: 0,
                    },
                    f.rest,
                )
            }
        },
    }
}

/// The nine-byte header that opens an FLV stream.
#[derive(Clone, Copy, Debug, PartialEq, Eq)]
pub struct FlvHeader {
    pub signature: [u8; 3],
    pub version: u8,
    pub type_flags_audio: bool,
    pub type_flags_video: bool,
    pub data_offset: u32,
}

impl FlvHeader {
    pub fn new(
        signature: [u8; 3],
        version: u8,
        type_flags_audio: bool,
        type_flags_video: bool,
        data_offset: u32,
    ) -> (header: Self)
        ensures
            header.signature == signature,
            header.version == version,
            header.type_flags_audio == type_flags_audio,
            header.type_flags_video == type_flags_video,
            header.data_offset == data_offset,
    {
        Self { signature, version, type_flags_audio, type_flags_video, data_offset }
    }
}

/// The typed header of a tag, by tag kind.
#[derive(Clone, Copy, Debug, PartialEq, Eq, Structural)]
pub enum TagHeader {
    Audio(AudioTagHeader),
    Video(VideoTagHeader),
    /// Placeholder carried by tags whose filter flag is set.
    Encryption(EncryptionTagHeader),
    Script,
}

/// The header of an audio payload.
#[derive(Clone, Copy, Debug, PartialEq, Eq, Structural)]
pub struct AudioTagHeader {
    /// Codec id, four bits.
    pub sound_format: u8,
    /// Sample-rate class, two bits.
    pub sound_rate: u8,
    /// Sample-size flag.
    pub sound_size: bool,
    /// Channel flag, one bit.
    pub sound_type: u8,
    /// Packet type; read from the stream only when `sound_format` is 10,
    /// zero otherwise.
    pub aac_packet_type: u8,
}

impl AudioTagHeader {
    pub fn new(
        sound_format: u8,
        sound_rate: u8,
        sound_size: bool,
        sound_type: u8,
        aac_packet_type: u8,
    ) -> (header: Self)
        ensures
            header == (AudioTagHeader {
                sound_format,
                sound_rate,
                sound_size,
                sound_type,
                aac_packet_type,
            }),
    {
        Self { sound_format, sound_rate, sound_size, sound_type, aac_packet_type }
    }
}

/// The header of a video payload.
#[derive(Clone, Copy, Debug, PartialEq, Eq, Structural)]
pub struct VideoTagHeader {
    /// Frame type, four bits; 1 marks a keyframe.
    pub frame_type: u8,
    /// Codec id, four bits.
    pub codec_id: u8,
    /// Packet type; read from the stream only when `codec_id` is 7, zero
    /// otherwise.
    pub avc_packet_type: u8,
    /// Signed 24-bit presentation offset; read only when `codec_id` is 7,
    /// zero otherwise.
    pub composition_time: i32,
}

impl AudioTagHeader {
    /// Reads an audio header and adds the number of bytes it took to
    /// `header_size`.
    pub fn parse(data: &mut Decoder, header_size: &mut usize) -> (res: Result<
        AudioTagHeader,
        FlvError,
    >)
        requires
            *old(header_size) + 2 <= usize::MAX,
        ensures
            res == spec_audio_header(old(data)@).result,
            final(data)@ == spec_audio_header(old(data)@).rest,
            final(data).continues(old(data)),
            *final(header_size) == *old(header_size) + old(data)@.len() - final(data)@.len(),
    {
        let flags: u8 = data.read_u8()?;
        *header_size = *header_size + 1;
        let bits = BitIO::new(flags);
        let sound_format: u8 = bits.read_range(4, 7);
        let sound_rate: u8 = bits.read_range(2, 3);
        let sound_size: bool = bits.read_bit(1);
        let sound_type: u8 = bits.read_range(0, 0);
        let mut aac_packet_type: u8 = 0;
        if sound_format == SOUND_FORMAT_AAC {
            aac_packet_type = data.read_u8()?;
            *header_size = *header_size + 1;
        }
        Ok(AudioTagHeader::new(sound_format, sound_rate, sound_size, sound_type, aac_packet_type))
    }
}

impl VideoTagHeader {
    /// Reads a video header and adds the number of bytes it took to
    /// `header_size`.
    pub fn parse(data: &mut Decoder, header_size: &mut usize) -> (res: Result<
        VideoTagHeader,
        FlvError,
    >)
        requires
            *old(header_size) + 5 <= usize::MAX,
        ensures
            res == spec_video_header(old(data)@).result,
            final(data)@ == spec_video_header(old(data)@).rest,
            final(data).continues(old(data)),
            *final(header_size) == *old(header_size) + old(data)@.len() - final(data)@.len(),
    {
        proof {
            lemma_radix_values();
        }
        let flags: u8 = data.read_u8()?;
        *header_size = *header_size + 1;
        let bits = BitIO::new(flags);
        let frame_type: u8 = bits.read_range(4, 7);
        let codec_id: u8 = bits.read_range(0, 3);
        let mut avc_packet_type: u8 = 0;
        let mut composition_time: i32 = 0;
        if codec_id == CODEC_ID_AVC {
            avc_packet_type = data.read_u8()?;
            *header_size = *header_size + 1;
            let offset: u64 = data.read_be(3)?;
            *header_size = *header_size + 3;
            composition_time =
            if offset >= 0x80_0000 {
                (offset as i64 - 0x100_0000) as i32
            } else {
                offset as i32
            };
        }
        Ok(VideoTagHeader::new(frame_type, codec_id, avc_packet_type, composition_time))
    }

    pub fn new(frame_type: u8, codec_id: u8, avc_packet_type: u8, composition_time: i32) -> (header:
        Self)
        ensures
            header == (VideoTagHeader { frame_type, codec_id, avc_packet_type, composition_time }),
    {
        Self { frame_type, codec_id, avc_packet_type, composition_time }
    }
}

/// Stands for the encryption header of a filtered tag, which is not decoded.
#[derive(Clone, Copy, Debug, PartialEq, Eq, Structural)]
pub struct EncryptionTagHeader {}

/// Stands for the filter parameters of a filtered tag, which are not decoded.
#[derive(Clone, Copy, Debug, PartialEq, Eq, Structural)]
pub struct FilterParameters {}

impl EncryptionTagHeader {
    /// Stands in for the encryption header: reads nothing.
    pub fn parse(data: &mut Decoder, header_size: &mut usize) -> (res: Result<
        EncryptionTagHeader,
        FlvError,
    >)
        ensures
            res == Ok::<EncryptionTagHeader, FlvError>(EncryptionTagHeader {  }),
            final(data)@ == old(data)@,
            final(data).continues(old(data)),
            *final(header_size) == *old(header_size),
    {
        Ok(EncryptionTagHeader {  })
    }
}

impl FilterParameters {
    /// Stands in for the filter parameters: reads nothing.
    pub fn parse(data: &mut Decoder, header_size: &mut usize) -> (res: Result<
        FilterParameters,
        FlvError,
    >)
        ensures
            res == Ok::<FilterParameters, FlvError>(FilterParameters {  }),
            final(data)@ == old(data)@,
            final(data).continues(old(data)),
            *final(header_size) == *old(header_size),
    {
        Ok(FilterParameters {  })
    }
}

} // verus!
