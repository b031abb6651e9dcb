//! Codec bitstream parsers: what the remuxer needs to know of an audio or
//! video payload.
use vstd::prelude::*;
use crate::error::FlvError;
use crate::flv::header::{
    AudioTagHeader, TagHeader, VideoTagHeader, CODEC_ID_AVC, SOUND_FORMAT_AAC, SOUND_FORMAT_MP3,
};
use crate::flv::tag::{NormalTagBody, PayloadModel, Tag, TagBody, TagBodyModel, TagModel};
use crate::fmpeg::remux_context::TIME_SCALE;
use crate::io::bytes::result_view;

verus! {

/// The MPEG audio version of an MP3 frame.
#[derive(Clone, Copy, Debug, PartialEq, Eq, Structural)]
pub enum Mp3Version {
    Mp25,
    Mp20,
    Mp10,
    Reserved,
}

/// The version that the two version bits name.
pub open spec fn mp3_version_of(code: u8) -> Mp3Version {
    if code == 0 {
        Mp3Version::Mp25
    } else if code == 2 {
        Mp3Version::Mp20
    } else if code == 3 {
        Mp3Version::Mp10
    } else {
        Mp3Version::Reserved
    }
}

impl Mp3Version {
    pub fn from(value: u8) -> (version: Self)
        requires
            value <= 3,
        ensures
            version == mp3_version_of(value),
    {
        match value {
            0 => Mp3Version::Mp25,
            2 => Mp3Version::Mp20,
            3 => Mp3Version::Mp10,
            _ => Mp3Version::Reserved,
        }
    }
}

/// The layer of an MP3 frame.
#[derive(Clone, Copy, Debug, PartialEq, Eq, Structural)]
pub enum Mp3Layer {
    Reserved,
    L1,
    L2,
    L3,
}

/// The layer that the two layer bits name.
pub open spec fn mp3_layer_of(code: u8) -> Mp3Layer {
    if code == 1 {
        Mp3Layer::L3
    } else if code == 2 {
        Mp3Layer::L2
    } else if code == 3 {
        Mp3Layer::L1
    } else {
        Mp3Layer::Reserved
    }
}

impl Mp3Layer {
    pub fn from(value: u8) -> (layer: Self)
        requires
            value <= 3,
        ensures
            layer == mp3_layer_of(value),
    {
        match value {
            1 => Mp3Layer::L3,
            2 => Mp3Layer::L2,
            3 => Mp3Layer::L1,
            _ => Mp3Layer::Reserved,
        }
    }
}

/// The channel mode of an MP3 frame.
#[derive(Clone, Copy, Debug, PartialEq, Eq, Structural)]
pub enum Channel {
    Mono,
    Dual,
    Stereo,
    JointStereo,
}

/// The channel mode that the two mode bits name.
pub open spec fn channel_of(code: u8) -> Channel {
    if code == 0 {
        Channel::Stereo
    } else if code == 1 {
        Channel::JointStereo
    } else if code == 2 {
        Channel::Dual
    } else {
        Channel::Mono
    }
}

impl Channel {
    pub fn from(value: u8) -> (channel: Self)
        requires
            value <= 3,
        ensures
            channel == channel_of(value),
    {
        match value {
            0 => Channel::Stereo,
            1 => Channel::JointStereo,
            2 => Channel::Dual,
            _ => Channel::Mono,
        }
    }
}

/// What the header of an MP3 frame says.
#[derive(Clone, Copy, Debug, PartialEq, Eq, Structural)]
pub struct Mp3ParseResult {
    pub version: Mp3Version,
    pub layer: Mp3Layer,
    /// Samples per second; zero for the reserved rate code.
    pub sample_rate: u32,
    /// Kilobits per second; zero for the free and the reserved rate codes.
    pub bitrate: u32,
    pub channel: Channel,
    /// The mode extension; read for joint stereo only, zero otherwise.
    pub channel_extended: u8,
}

pub const AUDIO_SAMPLE_RATE_TABLE_M10: [u32; 4] = [44100, 48000, 32000, 0];

pub const AUDIO_SAMPLE_RATE_TABLE_M20: [u32; 4] = [22050, 24000, 16000, 0];

pub const AUDIO_SAMPLE_RATE_TABLE_M25: [u32; 4] = [11025, 12000, 8000, 0];

pub const AUDIO_BITRATE_TABLE_L1: [u32; 16] = [
    0,
    32,
    64,
    96,
    128,
    160,
    192,
    224,
    256,
    288,
    320,
    352,
    384,
    416,
    448,
    0,
];

pub const AUDIO_BITRATE_TABLE_L2: [u32; 16] = [
    0,
    32,
    48,
    56,
    64,
    80,
    96,
    112,
    128,
    160,
    192,
    224,
    256,
    320,
    384,
    0,
];

pub const AUDIO_BITRATE_TABLE_L3: [u32; 16] = [
    0,
    32,
    40,
    48,
    56,
    64,
    80,
    96,
    112,
    128,
    160,
    192,
    224,
    256,
    320,
    0,
];

/// The eleven set bits that open an MP3 frame.
pub const MP3_SYNC_WORD: u16 = 0x07FF;

/// The sample rate of `version` at rate code `index`.
pub open spec fn mp3_sample_rate(version: Mp3Version, index: int) -> u32 {
    match version {
        Mp3Version::Mp10 => AUDIO_SAMPLE_RATE_TABLE_M10@[index],
        Mp3Version::Mp20 => AUDIO_SAMPLE_RATE_TABLE_M20@[index],
        Mp3Version::Mp25 => AUDIO_SAMPLE_RATE_TABLE_M25@[index],
        Mp3Version::Reserved => 0,
    }
}

/// The bitrate of `layer` at rate code `index`.
pub open spec fn mp3_bitrate(layer: Mp3Layer, index: int) -> u32 {
    match layer {
        Mp3Layer::L1 => AUDIO_BITRATE_TABLE_L1@[index],
        Mp3Layer::L2 => AUDIO_BITRATE_TABLE_L2@[index],
        Mp3Layer::L3 => AUDIO_BITRATE_TABLE_L3@[index],
        Mp3Layer::Reserved => 0,
    }
}

/// The 16-bit number that two bytes spell, the first being the high one.
pub open spec fn window(high: u8, low: u8) -> nat {
    (high * 256 + low) as nat
}

/// What the first four bytes of an MP3 frame say. From the top of the first
/// 16-bit window: eleven sync bits, two version bits, two layer bits and the
/// protection bit. From the top of the second: four bitrate bits, two
/// sample-rate bits, padding and private bit, two channel-mode bits and two
/// mode-extension bits.
pub open spec fn spec_mp3(body: Seq<u8>) -> Result<Mp3ParseResult, FlvError> {
    if body.len() < 4 {
        Err(FlvError::InsufficientData)
    } else {
        let first = window(body[0], body[1]);
        let second = window(body[2], body[3]);
        let version = mp3_version_of(((first / 8) % 4) as u8);
        let layer = mp3_layer_of(((first / 2) % 4) as u8);
        let channel = channel_of(((second / 64) % 4) as u8);
        if first / 32 != MP3_SYNC_WORD {
            Err(FlvError::SyncWordMismatch)
        } else if version == Mp3Version::Reserved || layer == Mp3Layer::Reserved {
            Err(FlvError::ReservedValue)
        } else {
            Ok(
                Mp3ParseResult {
                    version,
                    layer,
                    sample_rate: mp3_sample_rate(version, ((second / 1024) % 4) as int),
                    bitrate: mp3_bitrate(layer, (second / 4096) as int),
                    channel,
                    channel_extended: if channel == Channel::JointStereo {
                        ((second / 16) % 4) as u8
                    } else {
                        0
                    },
                },
            )
        }
    }
}

/// The configuration that opens an AAC stream.
#[derive(Clone, Copy, Debug, PartialEq, Eq, Structural)]
pub struct AacSequenceHeader {
    pub audio_object_type: u8,
    pub sampling_frequency_index: u8,
    pub channel_configuration: u8,
}

/// What the first two bytes of an AAC sequence header say: five bits of
/// object type, four of frequency index and four of channel configuration,
/// from the top of the 16-bit window.
pub open spec fn spec_aac_seq_hdr(body: Seq<u8>) -> Result<AacSequenceHeader, FlvError> {
    if body.len() < 2 {
        Err(FlvError::InsufficientData)
    } else {
        let word = window(body[0], body[1]);
        Ok(
            AacSequenceHeader {
                audio_object_type: (word / 2048) as u8,
                sampling_frequency_index: ((word / 128) % 16) as u8,
                channel_configuration: ((word / 8) % 16) as u8,
            },
        )
    }
}

/// What an audio payload holds.
#[derive(Clone, Debug, PartialEq, Eq)]
pub enum AudioParseResult {
    /// One access unit, as it stood in the payload.
    AacRaw(Vec<u8>),
    AacSeqHdr(AacSequenceHeader),
    Mp3(Mp3ParseResult),
}

/// Model of `AudioParseResult`.
pub enum AudioModel {
    AacRaw(Seq<u8>),
    AacSeqHdr(AacSequenceHeader),
    Mp3(Mp3ParseResult),
}

impl View for AudioParseResult {
    type V = AudioModel;

    open spec fn view(&self) -> AudioModel {
        match self {
            AudioParseResult::AacRaw(bytes) => AudioModel::AacRaw(bytes@),
            AudioParseResult::AacSeqHdr(header) => AudioModel::AacSeqHdr(*header),
            AudioParseResult::Mp3(frame) => AudioModel::Mp3(*frame),
        }
    }
}

/// The parameters that configure an audio track.
#[derive(Clone, Copy, Debug, PartialEq, Eq, Structural)]
pub enum AudioConfigurationLike {
    Mp3(Mp3ParseResult),
    Aac(AacSequenceHeader),
}

/// What an AAC payload holds, by packet type: 0 is a sequence header, 1 a
/// raw access unit; no other type is handled.
pub open spec fn spec_aac(header: AudioTagHeader, body: Seq<u8>) -> Result<AudioModel, FlvError> {
    if header.aac_packet_type == 0 {
        match spec_aac_seq_hdr(body) {
            Ok(config) => Ok(AudioModel::AacSeqHdr(config)),
            Err(error) => Err(error),
        }
    } else if header.aac_packet_type == 1 {
        Ok(AudioModel::AacRaw(body))
    } else {
        Err(FlvError::UnsupportedCodec)
    }
}

/// What the audio tag `tag` holds: `TagKindMismatch` unless header and body
/// are the audio ones, `UnsupportedCodec` unless the format is MP3 or AAC.
pub open spec fn spec_parse_audio(tag: TagModel) -> Result<AudioModel, FlvError> {
    match (tag.tag_header, tag.tag_body) {
        (TagHeader::Audio(header), TagBodyModel::Normal(PayloadModel::Audio(body))) => {
            if header.sound_format == SOUND_FORMAT_MP3 {
                match spec_mp3(body) {
                    Ok(frame) => Ok(AudioModel::Mp3(frame)),
                    Err(error) => Err(error),
                }
            } else if header.sound_format == SOUND_FORMAT_AAC {
                spec_aac(header, body)
            } else {
                Err(FlvError::UnsupportedCodec)
            }
        },
        _ => Err(FlvError::TagKindMismatch),
    }
}

/// Whether a video frame can be decoded without the frames before it.
#[derive(Clone, Copy, Debug, PartialEq, Eq, Structural)]
pub enum KeyframeType {
    Keyframe,
    Interframe,
}

/// The classification of the frame type of a video header: type 1 is a
/// keyframe.
pub open spec fn keyframe_type_of(frame_type: u8) -> KeyframeType {
    if frame_type == 1 {
        KeyframeType::Keyframe
    } else {
        KeyframeType::Interframe
    }
}

/// One or more NAL units with their classification.
#[derive(Clone, Debug, PartialEq, Eq)]
pub struct AvcNalu {
    pub keyframe_type: KeyframeType,
    pub payload: Vec<u8>,
}

/// What an AVC payload holds.
#[derive(Clone, Debug, PartialEq, Eq)]
pub enum Avc1ParseResult {
    /// The decoder configuration record, as it stood in the payload.
    AvcSequenceHeader(Vec<u8>),
    AvcNalu(AvcNalu),
    AvcEndOfSequence,
}

/// What a video payload holds.
#[derive(Clone, Debug, PartialEq, Eq)]
pub enum VideoParseResult {
    Avc1(Avc1ParseResult),
}

/// Model of `VideoParseResult`.
pub enum VideoModel {
    AvcSequenceHeader(Seq<u8>),
    AvcNalu(KeyframeType, Seq<u8>),
    AvcEndOfSequence,
}

impl View for VideoParseResult {
    type V = VideoModel;

    open spec fn view(&self) -> VideoModel {
        match self {
            VideoParseResult::Avc1(Avc1ParseResult::AvcSequenceHeader(bytes)) => {
                VideoModel::AvcSequenceHeader(bytes@)
            },
            VideoParseResult::Avc1(Avc1ParseResult::AvcNalu(nalu)) => VideoModel::AvcNalu(
                nalu.keyframe_type,
                nalu.payload@,
            ),
            VideoParseResult::Avc1(Avc1ParseResult::AvcEndOfSequence) => {
                VideoModel::AvcEndOfSequence
            },
        }
    }
}

/// What an AVC payload holds, by packet type: 0 is a sequence header, 1 is
/// NAL units, 2 ends the sequence; no other type is handled.
pub open spec fn spec_avc(header: VideoTagHeader, body: Seq<u8>) -> Result<VideoModel, FlvError> {
    if header.avc_packet_type == 0 {
        Ok(VideoModel::AvcSequenceHeader(body))
    } else if header.avc_packet_type == 1 {
        Ok(VideoModel::AvcNalu(keyframe_type_of(header.frame_type), body))
    } else if header.avc_packet_type == 2 {
        Ok(VideoModel::AvcEndOfSequence)
    } else {
        Err(FlvError::UnsupportedCodec)
    }
}

/// What the video tag `tag` holds: `TagKindMismatch` unless header and body
/// are the video ones, `UnsupportedCodec` unless the codec is AVC.
pub open spec fn spec_parse_video(tag: TagModel) -> Result<VideoModel, FlvError> {
    match (tag.tag_header, tag.tag_body) {
        (TagHeader::Video(header), TagBodyModel::Normal(PayloadModel::Video(body))) => {
            if header.codec_id == CODEC_ID_AVC {
                spec_avc(header, body)
            } else {
                Err(FlvError::UnsupportedCodec)
            }
        },
        _ => Err(FlvError::TagKindMismatch),
    }
}

/// A copy of `bytes`.
fn copy_bytes(bytes: &Vec<u8>) -> (copy: Vec<u8>)
    ensures
        copy@ == bytes@,
{
    let mut copy: Vec<u8> = Vec::new();
    let mut i: usize = 0;
    while i < bytes.len()
        invariant
            i <= bytes.len(),
            copy@ == bytes@.take(i as int),
        decreases bytes.len() - i,
    {
        copy.push(bytes[i]);
        assert(bytes@.take(i as int + 1) == bytes@.take(i as int).push(bytes@[i as int]));
        i += 1;
    }
    assert(bytes@.take(i as int) == bytes@);
    copy
}

/// The codec parsers.
pub struct Parser;

impl Parser {
    /// Parses the payload of an audio tag.
    pub fn parse_audio(tag: &Tag) -> (res: Result<AudioParseResult, FlvError>)
        ensures
            result_view(res) == spec_parse_audio(tag@),
    {
        let header = match &tag.tag_header {
            TagHeader::Audio(header) => header,
            _ => {
                return Err(FlvError::TagKindMismatch);
            },
        };
        let body = match &tag.tag_body {
            TagBody::Normal(NormalTagBody::Audio(body)) => body,
            _ => {
                return Err(FlvError::TagKindMismatch);
            },
        };
        if header.sound_format != SOUND_FORMAT_MP3 && header.sound_format != SOUND_FORMAT_AAC {
            return Err(FlvError::UnsupportedCodec);
        }
        if header.sound_format == SOUND_FORMAT_MP3 {
            Self::parse_mp3(header, body)
        } else {
            Self::parse_aac(header, body)
        }
    }

    /// Parses the header of the MP3 frame that opens `body`.
    pub fn parse_mp3(header: &AudioTagHeader, body: &Vec<u8>) -> (res: Result<
        AudioParseResult,
        FlvError,
    >)
        ensures
            res matches Ok(parsed) ==> spec_mp3(body@) == Ok::<Mp3ParseResult, FlvError>(
                parsed@->Mp3_0,
            ) && parsed@ is Mp3,
            res matches Err(error) ==> spec_mp3(body@) == Err::<Mp3ParseResult, FlvError>(error),
    {
        if body.len() < 4 {
            return Err(FlvError::InsufficientData);
        }
        let first: u16 = body[0] as u16 * 256 + body[1] as u16;
        let sync_word: u16 = first / 32;
        if sync_word != MP3_SYNC_WORD {
            return Err(FlvError::SyncWordMismatch);
        }
        let version = Mp3Version::from(((first / 8) % 4) as u8);
        let layer = Mp3Layer::from(((first / 2) % 4) as u8);
        let second: u16 = body[2] as u16 * 256 + body[3] as u16;
        let bitrate_index: usize = (second / 4096) as usize;
        let sampling_rate_index: usize = ((second / 1024) % 4) as usize;
        let channel_mode: u8 = ((second / 64) % 4) as u8;
        let sample_rate: u32 = match version {
            Mp3Version::Mp25 => AUDIO_SAMPLE_RATE_TABLE_M25[sampling_rate_index],
            Mp3Version::Mp20 => AUDIO_SAMPLE_RATE_TABLE_M20[sampling_rate_index],
            Mp3Version::Mp10 => AUDIO_SAMPLE_RATE_TABLE_M10[sampling_rate_index],
            Mp3Version::Reserved => {
                return Err(FlvError::ReservedValue);
            },
        };
        let bitrate: u32 = match layer {
            Mp3Layer::L1 => AUDIO_BITRATE_TABLE_L1[bitrate_index],
            Mp3Layer::L2 => AUDIO_BITRATE_TABLE_L2[bitrate_index],
            Mp3Layer::L3 => AUDIO_BITRATE_TABLE_L3[bitrate_index],
            Mp3Layer::Reserved => {
                return Err(FlvError::ReservedValue);
            },
        };
        let channel = Channel::from(channel_mode);
        let channel_extended: u8 = match channel {
            Channel::JointStereo => ((second / 16) % 4) as u8,
            _ => 0,
        };
        Ok(
            AudioParseResult::Mp3(
                Mp3ParseResult { version, layer, sample_rate, bitrate, channel, channel_extended },
            ),
        )
    }

    /// Parses an AAC payload according to the packet type of `header`.
    pub fn parse_aac(header: &AudioTagHeader, body: &Vec<u8>) -> (res: Result<
        AudioParseResult,
        FlvError,
    >)
        ensures
            result_view(res) == spec_aac(*header, body@),
    {
        match header.aac_packet_type {
            0 => Self::parse_aac_seq_hdr(body),
            1 => Self::parse_aac_raw(body),
            _ => Err(FlvError::UnsupportedCodec),
        }
    }

    /// Parses the AAC configuration that opens `body`.
    pub fn parse_aac_seq_hdr(body: &Vec<u8>) -> (res: Result<AudioParseResult, FlvError>)
        ensures
            res matches Ok(parsed) ==> spec_aac_seq_hdr(body@) == Ok::<AacSequenceHeader, FlvError>(
                parsed@->AacSeqHdr_0,
            ) && parsed@ is AacSeqHdr,
            res matches Err(error) ==> spec_aac_seq_hdr(body@) == Err::<
                AacSequenceHeader,
                FlvError,
            >(error),
    {
        if body.len() < 2 {
            return Err(FlvError::InsufficientData);
        }
        let word: u16 = body[0] as u16 * 256 + body[1] as u16;
        let audio_object_type: u8 = (word / 2048) as u8;
        let sampling_frequency_index: u8 = ((word / 128) % 16) as u8;
        let channel_configuration: u8 = ((word / 8) % 16) as u8;
        Ok(
            AudioParseResult::AacSeqHdr(
                AacSequenceHeader {
                    audio_object_type,
                    sampling_frequency_index,
                    channel_configuration,
                },
            ),
        )
    }

    /// Hands an AAC access unit through unchanged.
    pub fn parse_aac_raw(body: &Vec<u8>) -> (res: Result<AudioParseResult, FlvError>)
        ensures
            res matches Ok(parsed) && parsed@ == AudioModel::AacRaw(body@),
    {
        Ok(AudioParseResult::AacRaw(copy_bytes(body)))
    }

    /// Parses the payload of a video tag.
    pub fn parse_video(tag: &Tag) -> (res: Result<VideoParseResult, FlvError>)
        ensures
            result_view(res) == spec_parse_video(tag@),
    {
        let header = match &tag.tag_header {
            TagHeader::Video(header) => header,
            _ => {
                return Err(FlvError::TagKindMismatch);
            },
        };
        let body = match &tag.tag_body {
            TagBody::Normal(NormalTagBody::Video(body)) => body,
            _ => {
                return Err(FlvError::TagKindMismatch);
            },
        };
        if header.codec_id != CODEC_ID_AVC {
            return Err(FlvError::UnsupportedCodec);
        }
        match header.avc_packet_type {
            0 => Ok(VideoParseResult::Avc1(Avc1ParseResult::AvcSequenceHeader(copy_bytes(body)))),
            1 => {
                let keyframe_type = if header.frame_type == 1 {
                    KeyframeType::Keyframe
                } else {
                    KeyframeType::Interframe
                };
                Ok(
                    VideoParseResult::Avc1(
                        Avc1ParseResult::AvcNalu(
                            AvcNalu { keyframe_type, payload: copy_bytes(body) },
                        ),
                    ),
                )
            },
            2 => Ok(VideoParseResult::Avc1(Avc1ParseResult::AvcEndOfSequence)),
            _ => Err(FlvError::UnsupportedCodec),
        }
    }
}

/// Samples in one AAC access unit.
pub const AAC_SAMPLES_PER_FRAME: u64 = 1024;

/// A stream time in milliseconds on the output clock.
pub open spec fn timescale_of(timestamp: u32) -> u64 {
    (timestamp as nat * TIME_SCALE as nat / 1000) as u64
}

/// The time that `samples` samples take at `sample_rate` per second, in
/// whole units of the output clock; zero where the rate is unknown.
pub open spec fn frame_duration(samples: nat, sample_rate: u32) -> u32 {
    if sample_rate == 0 {
        0
    } else {
        (samples * TIME_SCALE as nat / sample_rate as nat) as u32
    }
}

/// Samples in one MP3 frame: 1152 for MPEG-1, 576 for the later
/// half-rate versions.
pub open spec fn mp3_samples_per_frame(version: Mp3Version) -> nat {
    if version == Mp3Version::Mp10 {
        1152
    } else {
        576
    }
}

/// The time between two video frames at `fps_num` frames per thousand
/// seconds, in whole units of the output clock; zero where the rate is
/// unknown.
pub open spec fn avc_duration(fps_num: u32) -> u32 {
    if fps_num == 0 {
        0
    } else {
        (TIME_SCALE as nat * 1000 / fps_num as nat) as u32
    }
}

/// Converts a stream time in milliseconds to the output clock.
pub fn parse_timescale(timestamp: u32) -> (time: u64)
    ensures
        time == timescale_of(timestamp),
{
    timestamp as u64 * TIME_SCALE as u64 / 1000
}

/// The duration of one AAC access unit at `sample_rate`.
pub fn parse_aac_timescale(sample_rate: u32) -> (duration: u32)
    ensures
        duration == frame_duration(AAC_SAMPLES_PER_FRAME as nat, sample_rate),
{
    if sample_rate == 0 {
        0
    } else {
        (AAC_SAMPLES_PER_FRAME * TIME_SCALE as u64 / sample_rate as u64) as u32
    }
}

/// The duration of one MP3 frame of `version` at `sample_rate`.
pub fn parse_mp3_timescale(sample_rate: u32, version: Mp3Version) -> (duration: u32)
    ensures
        duration == frame_duration(mp3_samples_per_frame(version), sample_rate),
{
    let samples: u64 = match version {
        Mp3Version::Mp10 => 1152,
        _ => 576,
    };
    if sample_rate == 0 {
        0
    } else {
        (samples * TIME_SCALE as u64 / sample_rate as u64) as u32
    }
}

/// The duration of one video frame at `fps_num` frames per thousand seconds.
pub fn parse_avc_timescale(fps_num: u32) -> (duration: u32)
    ensures
        duration == avc_duration(fps_num),
{
    if fps_num == 0 {
        0
    } else {
        (TIME_SCALE as u64 * 1000 / fps_num as u64) as u32
    }
}

} // verus!
