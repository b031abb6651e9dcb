//! The FLV decoder: a queue of pushed bytes with its scalar readers, the
//! decoding of file header, tags and runs of tags, and the handling of the
//! messages that feed and steer it.
use std::collections::VecDeque;
use vstd::prelude::*;
use crate::error::FlvError;
use crate::exchange::{
    Destination, Exchange, ExchangeRegistrable, Packed, PackedContent, PackedContentToDecoder,
};
use crate::flv::demuxer::{announced, announces, lemma_announced_twice, Demuxer};
use crate::flv::framing::{
    body_after, header_is_valid, is_header_of, lemma_script_body_shrinks, lemma_tag_shrinks,
    lemma_tag_size_bound, published_tags, spec_audio_tag, spec_body, spec_decoding,
    spec_filtered_tag, spec_payload, spec_script_tag, spec_tag, spec_tag_prefix, spec_video_tag,
    tag_of, tags_view, Published, TagPrefix, TAG_PREFIX_SIZE,
};
use crate::flv::header::{
    AudioTagHeader, EncryptionTagHeader, FilterParameters, FlvHeader, TagHeader, VideoTagHeader,
};
use crate::flv::script::ScriptTagBody;
use crate::flv::tag::{EncryptedTagBody, NormalTagBody, Tag, TagBody, TagModel, TagType};
use crate::io::bit::BitIO;
use crate::io::bytes::{
    be_value, le_value, lemma_be_value_bound, lemma_le_value_bound, lemma_radix_monotone,
    lemma_radix_values, radix, result_view, take_be, take_bytes, take_u8, twos_complement,
};

verus! {

/// The FLV decoder: a queue of bytes that were pushed and not yet decoded,
/// and the size that the next previous-tag-size field has to repeat.
pub struct Decoder {
    data: VecDeque<u8>,
    previous_tag_size: u32,
    connected: bool,
    decoding: bool,
    closed: bool,
    header_decoded: bool,
}

/// What a decoder knows besides its bytes.
pub struct DecoderSession {
    /// The size that the next previous-tag-size field has to repeat: that of
    /// the tag decoded last plus its eleven fixed bytes, zero before the
    /// first tag.
    pub expected: u32,
    /// Whether an exchange routes to the decoder.
    pub connected: bool,
    /// Whether the decoder was told to decode what it is sent.
    pub decoding: bool,
    /// Whether the decoder was told to close.
    pub closed: bool,
    /// Whether the file header was decoded.
    pub header_decoded: bool,
}

impl View for Decoder {
    type V = Seq<u8>;

    /// The buffered bytes, the next one to be read first.
    closed spec fn view(&self) -> Seq<u8> {
        self.data@
    }
}

impl ExchangeRegistrable for Decoder {
    open spec fn destination(&self) -> Destination {
        Destination::Decoder
    }

    open spec fn connected(&self) -> bool {
        self.is_connected()
    }

    fn set_exchange(&mut self)
        ensures
            final(self)@ == old(self)@,
            final(self).session() == (DecoderSession { connected: true, ..old(self).session() }),
    {
        self.connected = true;
    }

    fn get_self_as_destination(&self) -> (destination: Destination) {
        Destination::Decoder
    }
}

impl Decoder {
    /// What the decoder knows besides its bytes.
    pub closed spec fn session(&self) -> DecoderSession {
        DecoderSession {
            expected: self.previous_tag_size,
            connected: self.connected,
            decoding: self.decoding,
            closed: self.closed,
            header_decoded: self.header_decoded,
        }
    }

    /// The size of the tag decoded last plus its eleven fixed bytes; zero
    /// before the first tag.
    pub open spec fn expected_previous_size(&self) -> u32 {
        self.session().expected
    }

    /// Whether an exchange routes to the decoder.
    pub open spec fn is_connected(&self) -> bool {
        self.session().connected
    }

    /// Whether `self` continues the session of `before`: nothing but the
    /// buffered bytes may differ.
    pub open spec fn continues(&self, before: &Decoder) -> bool {
        self.session() == before.session()
    }

    /// A decoder over `data` that expects its first tag and is not
    /// registered.
    pub fn new(data: VecDeque<u8>) -> (decoder: Self)
        ensures
            decoder@ == data@,
            decoder.session() == (DecoderSession {
                expected: 0,
                connected: false,
                decoding: false,
                closed: false,
                header_decoded: false,
            }),
    {
        Decoder {
            data,
            previous_tag_size: 0,
            connected: false,
            decoding: false,
            closed: false,
            header_decoded: false,
        }
    }

    /// The number of buffered bytes.
    pub fn remaining(&self) -> (count: usize)
        ensures
            count == self@.len(),
    {
        broadcast use vstd::std_specs::vecdeque::group_vec_dequeue_axioms;

        self.data.len()
    }

    /// Moves every byte of `data` to the back of the queue.
    pub fn push_data(&mut self, data: &mut VecDeque<u8>)
        ensures
            final(self)@ == old(self)@ + old(data)@,
            final(data)@ == Seq::<u8>::empty(),
            final(self).continues(old(self)),
    {
        self.data.append(data);
    }

    /// Copies `bytes` to the back of the queue.
    pub fn push_bytes(&mut self, bytes: &[u8])
        ensures
            final(self)@ == old(self)@ + bytes@,
            final(self).continues(old(self)),
    {
        let mut i: usize = 0;
        while i < bytes.len()
            invariant
                i <= bytes.len(),
                self.data@ == old(self)@ + bytes@.take(i as int),
                self.continues(old(self)),
            decreases bytes.len() - i,
        {
            self.data.push_back(bytes[i]);
            assert(bytes@.take(i as int + 1) == bytes@.take(i as int).push(bytes@[i as int]));
            i += 1;
        }
        assert(bytes@.take(i as int) == bytes@);
    }

    /// Takes one byte off the front.
    pub fn drain_u8(&mut self) -> (byte: u8)
        requires
            old(self)@.len() >= 1,
        ensures
            byte == old(self)@[0],
            final(self)@ == old(self)@.skip(1),
            final(self).continues(old(self)),
    {
        self.data.pop_front().unwrap()
    }

    /// Takes `SIZE` bytes off the front.
    pub fn drain_bytes<const SIZE: usize>(&mut self) -> (bytes: [u8; SIZE])
        requires
            SIZE <= old(self)@.len(),
        ensures
            bytes@ == old(self)@.take(SIZE as int),
            final(self)@ == old(self)@.skip(SIZE as int),
            final(self).continues(old(self)),
    {
        let mut result: [u8; SIZE] = [0u8; SIZE];
        let mut i: usize = 0;
        while i < SIZE
            invariant
                i <= SIZE <= old(self)@.len(),
                self.data@ == old(self)@.skip(i as int),
                self.continues(old(self)),
                forall|k: int| 0 <= k < i ==> result@[k] == old(self)@[k],
            decreases SIZE - i,
        {
            let byte: u8 = self.drain_u8();
            result[i] = byte;
            i += 1;
        }
        assert(result@ =~= old(self)@.take(SIZE as int));
        result
    }

    /// Takes `size` bytes off the front.
    pub fn drain_bytes_vec(&mut self, size: usize) -> (bytes: Vec<u8>)
        requires
            size <= old(self)@.len(),
        ensures
            bytes@ == old(self)@.take(size as int),
            final(self)@ == old(self)@.skip(size as int),
            final(self).continues(old(self)),
    {
        let mut result: Vec<u8> = Vec::new();
        let mut i: usize = 0;
        while i < size
            invariant
                i <= size <= old(self)@.len(),
                self.data@ == old(self)@.skip(i as int),
                self.continues(old(self)),
                result@ == old(self)@.take(i as int),
            decreases size - i,
        {
            let byte: u8 = self.drain_u8();
            result.push(byte);
            assert(old(self)@.take(i as int + 1) == old(self)@.take(i as int).push(byte));
            i += 1;
        }
        result
    }

    /// Reads a little-endian 16-bit number.
    pub fn drain_u16_le(&mut self) -> (value: u16)
        requires
            old(self)@.len() >= 2,
        ensures
            value == le_value(old(self)@.take(2)),
            final(self)@ == old(self)@.skip(2),
            final(self).continues(old(self)),
    {
        proof {
            lemma_radix_values();
        }
        self.drain_le(2) as u16
    }

    /// Reads a big-endian 16-bit number.
    pub fn drain_u16(&mut self) -> (value: u16)
        requires
            old(self)@.len() >= 2,
        ensures
            value == be_value(old(self)@.take(2)),
            final(self)@ == old(self)@.skip(2),
            final(self).continues(old(self)),
    {
        proof {
            lemma_radix_values();
        }
        self.drain_be(2) as u16
    }

    /// Reads a little-endian 24-bit number.
    pub fn drain_u24_le(&mut self) -> (value: u32)
        requires
            old(self)@.len() >= 3,
        ensures
            value == le_value(old(self)@.take(3)),
            value < 0x100_0000,
            final(self)@ == old(self)@.skip(3),
            final(self).continues(old(self)),
    {
        proof {
            lemma_radix_values();
        }
        self.drain_le(3) as u32
    }

    /// Reads a big-endian 24-bit number.
    pub fn drain_u24(&mut self) -> (value: u32)
        requires
            old(self)@.len() >= 3,
        ensures
            value == be_value(old(self)@.take(3)),
            value < 0x100_0000,
            final(self)@ == old(self)@.skip(3),
            final(self).continues(old(self)),
    {
        proof {
            lemma_radix_values();
        }
        self.drain_be(3) as u32
    }

    /// Reads a little-endian 32-bit number.
    pub fn drain_u32_le(&mut self) -> (value: u32)
        requires
            old(self)@.len() >= 4,
        ensures
            value == le_value(old(self)@.take(4)),
            final(self)@ == old(self)@.skip(4),
            final(self).continues(old(self)),
    {
        proof {
            lemma_radix_values();
        }
        self.drain_le(4) as u32
    }

    /// Reads a big-endian 32-bit number.
    pub fn drain_u32(&mut self) -> (value: u32)
        requires
            old(self)@.len() >= 4,
        ensures
            value == be_value(old(self)@.take(4)),
            final(self)@ == old(self)@.skip(4),
            final(self).continues(old(self)),
    {
        proof {
            lemma_radix_values();
        }
        self.drain_be(4) as u32
    }

    /// Reads a big-endian 64-bit number.
    pub fn drain_u64(&mut self) -> (value: u64)
        requires
            old(self)@.len() >= 8,
        ensures
            value == be_value(old(self)@.take(8)),
            final(self)@ == old(self)@.skip(8),
            final(self).continues(old(self)),
    {
        self.drain_be(8)
    }

    /// Reads a signed byte.
    pub fn drain_i8(&mut self) -> (value: i8)
        requires
            old(self)@.len() >= 1,
        ensures
            value == twos_complement(old(self)@[0] as nat, 0x100),
            final(self)@ == old(self)@.skip(1),
            final(self).continues(old(self)),
    {
        let raw: u8 = self.drain_u8();
        if raw >= 0x80 {
            (raw as i16 - 0x100) as i8
        } else {
            raw as i8
        }
    }

    /// Reads a big-endian signed 16-bit number.
    pub fn drain_i16(&mut self) -> (value: i16)
        requires
            old(self)@.len() >= 2,
        ensures
            value == twos_complement(be_value(old(self)@.take(2)), 0x1_0000),
            final(self)@ == old(self)@.skip(2),
            final(self).continues(old(self)),
    {
        let raw: u16 = self.drain_u16();
        if raw >= 0x8000 {
            (raw as i32 - 0x1_0000) as i16
        } else {
            raw as i16
        }
    }

    /// Reads a 24-bit field and widens it without sign extension, so the
    /// result is never negative.
    pub fn drain_i24(&mut self) -> (value: i32)
        requires
            old(self)@.len() >= 3,
        ensures
            value == be_value(old(self)@.take(3)),
            0 <= value < 0x100_0000,
            final(self)@ == old(self)@.skip(3),
            final(self).continues(old(self)),
    {
        self.drain_u24() as i32
    }

    /// Reads a big-endian signed 32-bit number.
    pub fn drain_i32(&mut self) -> (value: i32)
        requires
            old(self)@.len() >= 4,
        ensures
            value == twos_complement(be_value(old(self)@.take(4)), 0x1_0000_0000),
            final(self)@ == old(self)@.skip(4),
            final(self).continues(old(self)),
    {
        let raw: u32 = self.drain_u32();
        if raw >= 0x8000_0000 {
            (raw as i64 - 0x1_0000_0000) as i32
        } else {
            raw as i32
        }
    }

    /// Reads a big-endian signed 64-bit number.
    pub fn drain_i64(&mut self) -> (value: i64)
        requires
            old(self)@.len() >= 8,
        ensures
            value == twos_complement(be_value(old(self)@.take(8)), 0x1_0000_0000_0000_0000),
            final(self)@ == old(self)@.skip(8),
            final(self).continues(old(self)),
    {
        let raw: u64 = self.drain_u64();
        if raw >= 0x8000_0000_0000_0000 {
            (raw as i128 - 0x1_0000_0000_0000_0000) as i64
        } else {
            raw as i64
        }
    }

    /// Reads a big-endian IEEE-754 double and returns its bit pattern.
    pub fn drain_f64(&mut self) -> (bits: u64)
        requires
            old(self)@.len() >= 8,
        ensures
            bits == be_value(old(self)@.take(8)),
            final(self)@ == old(self)@.skip(8),
            final(self).continues(old(self)),
    {
        self.drain_be(8)
    }

    /// Reads a little-endian IEEE-754 double and returns its bit pattern.
    pub fn drain_f64_le(&mut self) -> (bits: u64)
        requires
            old(self)@.len() >= 8,
        ensures
            bits == le_value(old(self)@.take(8)),
            final(self)@ == old(self)@.skip(8),
            final(self).continues(old(self)),
    {
        self.drain_le(8)
    }

    /// Reads a little-endian IEEE-754 single and returns its bit pattern.
    pub fn drain_f32_le(&mut self) -> (bits: u32)
        requires
            old(self)@.len() >= 4,
        ensures
            bits == le_value(old(self)@.take(4)),
            final(self)@ == old(self)@.skip(4),
            final(self).continues(old(self)),
    {
        self.drain_u32_le()
    }

    /// Reads a big-endian IEEE-754 single and returns its bit pattern.
    pub fn drain_f32(&mut self) -> (bits: u32)
        requires
            old(self)@.len() >= 4,
        ensures
            bits == be_value(old(self)@.take(4)),
            final(self)@ == old(self)@.skip(4),
            final(self).continues(old(self)),
    {
        self.drain_u32()
    }

    /// The composite timestamp: the low 24 bits of `ts` below the eight bits
    /// of `ts_ext`.
    pub fn concat_ts(ts: u32, ts_ext: u8) -> (stamp: u32)
        ensures
            stamp == (ts & 0x00FF_FFFFu32) | ((ts_ext as u32) << 24u32),
            stamp == ts % 0x100_0000 + ts_ext * 0x100_0000,
    {
        assert((ts & 0x00FF_FFFFu32) | ((ts_ext as u32) << 24u32) == ts % 0x100_0000 + ts_ext
            * 0x100_0000) by (bit_vector);
        (ts & 0x00FF_FFFFu32) | ((ts_ext as u32) << 24u32)
    }

    /// Decodes the nine-byte file header. With fewer than nine bytes
    /// buffered nothing is consumed; otherwise nine bytes are, whether or not
    /// they bear the signature.
    pub fn decode_header(&mut self) -> (res: Result<FlvHeader, FlvError>)
        ensures
            res is Ok <==> header_is_valid(old(self)@),
            res matches Ok(header) ==> is_header_of(header, old(self)@),
            res matches Err(error) ==> error == FlvError::MalformedHeader,
            final(self)@ == if old(self)@.len() >= 9 {
                old(self)@.skip(9)
            } else {
                old(self)@
            },
            final(self).continues(old(self)),
    {
        if self.remaining() < 9 {
            return Err(FlvError::MalformedHeader);
        }
        let signature: [u8; 3] = self.drain_bytes::<3>();
        let version: u8 = self.drain_u8();
        let bits = BitIO::new(self.drain_u8());
        let has_audio: bool = bits.read_bit(2);
        let has_video: bool = bits.read_bit(0);
        let data_offset: u32 = self.drain_u32();
        proof {
            let bytes = old(self)@;
            assert(bytes.skip(3).skip(1).skip(1).take(4) =~= bytes.subrange(5, 9));
            assert(bytes.skip(3).skip(1).skip(1).skip(4) =~= bytes.skip(9));
            assert(signature@[0] == bytes.take(3)[0]);
            assert(signature@[1] == bytes.take(3)[1]);
            assert(signature@[2] == bytes.take(3)[2]);
        }
        if signature[0] != 0x46 || signature[1] != 0x4C || signature[2] != 0x56 {
            return Err(FlvError::MalformedHeader);
        }
        Ok(FlvHeader::new(signature, version, has_audio, has_video, data_offset))
    }

    /// Reads the eleven fixed bytes of a tag.
    fn decode_tag_prefix(&mut self) -> (res: Result<TagPrefix, FlvError>)
        ensures
            res == spec_tag_prefix(old(self)@).result,
            final(self)@ == spec_tag_prefix(old(self)@).rest,
            final(self).continues(old(self)),
    {
        proof {
            lemma_radix_values();
        }
        let bits = BitIO::new(self.read_u8()?);
        let filter: bool = bits.read_bit(5);
        let tag_type = TagType::from(bits.read_range(0, 4))?;
        let data_size: u64 = self.read_be(3)?;
        let timestamp: u64 = self.read_be(3)?;
        let timestamp_extended: u8 = self.read_u8()?;
        let stream_id: u64 = self.read_be(3)?;
        Ok(
            TagPrefix {
                filter,
                tag_type,
                data_size: data_size as u32,
                timestamp_short: timestamp as u32,
                timestamp_extended,
                stream_id: stream_id as u32,
            },
        )
    }

    /// Reads the payload behind a typed header of `header_size` bytes.
    fn decode_payload(&mut self, data_size: u32, header_size: usize) -> (res: Result<
        Vec<u8>,
        FlvError,
    >)
        ensures
            result_view(res) == spec_payload(old(self)@, data_size, header_size as nat).result,
            final(self)@ == spec_payload(old(self)@, data_size, header_size as nat).rest,
            final(self).continues(old(self)),
    {
        if (data_size as usize) < header_size {
            return Err(FlvError::DataSizeMismatch);
        }
        self.read_bytes(data_size as usize - header_size)
    }

    /// Reads what follows the fixed part of an audio tag.
    fn decode_audio(&mut self, prefix: &TagPrefix) -> (res: Result<(TagHeader, TagBody), FlvError>)
        ensures
            res matches Ok(parts) ==> spec_audio_tag(*prefix, old(self)@).result == Ok::<
                TagModel,
                FlvError,
            >(tag_of(*prefix, parts.0, parts.1@)),
            res matches Err(error) ==> spec_audio_tag(*prefix, old(self)@).result == Err::<
                TagModel,
                FlvError,
            >(error),
            final(self)@ == spec_audio_tag(*prefix, old(self)@).rest,
            final(self).continues(old(self)),
    {
        let mut header_size: usize = 0;
        let header = AudioTagHeader::parse(self, &mut header_size)?;
        let payload = self.decode_payload(prefix.data_size, header_size)?;
        Ok((TagHeader::Audio(header), TagBody::Normal(NormalTagBody::Audio(payload))))
    }

    /// Reads what follows the fixed part of a video tag.
    fn decode_video(&mut self, prefix: &TagPrefix) -> (res: Result<(TagHeader, TagBody), FlvError>)
        ensures
            res matches Ok(parts) ==> spec_video_tag(*prefix, old(self)@).result == Ok::<
                TagModel,
                FlvError,
            >(tag_of(*prefix, parts.0, parts.1@)),
            res matches Err(error) ==> spec_video_tag(*prefix, old(self)@).result == Err::<
                TagModel,
                FlvError,
            >(error),
            final(self)@ == spec_video_tag(*prefix, old(self)@).rest,
            final(self).continues(old(self)),
    {
        let mut header_size: usize = 0;
        let header = VideoTagHeader::parse(self, &mut header_size)?;
        let payload = self.decode_payload(prefix.data_size, header_size)?;
        Ok((TagHeader::Video(header), TagBody::Normal(NormalTagBody::Video(payload))))
    }

    /// Reads what follows the fixed part of a script tag.
    fn decode_script(&mut self, prefix: &TagPrefix) -> (res: Result<(TagHeader, TagBody), FlvError>)
        ensures
            res matches Ok(parts) ==> spec_script_tag(*prefix, old(self)@).result == Ok::<
                TagModel,
                FlvError,
            >(tag_of(*prefix, parts.0, parts.1@)),
            res matches Err(error) ==> spec_script_tag(*prefix, old(self)@).result == Err::<
                TagModel,
                FlvError,
            >(error),
            final(self)@ == spec_script_tag(*prefix, old(self)@).rest,
            final(self).continues(old(self)),
    {
        let before: usize = self.remaining();
        proof {
            lemma_script_body_shrinks(self@);
        }
        let body = ScriptTagBody::parse(self)?;
        let consumed: usize = before - self.remaining();
        if consumed != prefix.data_size as usize {
            return Err(FlvError::DataSizeMismatch);
        }
        Ok((TagHeader::Script, TagBody::Normal(NormalTagBody::Script(body))))
    }

    /// Skips what follows the fixed part of a filtered tag.
    fn decode_filtered(&mut self, prefix: &TagPrefix) -> (res: Result<
        (TagHeader, TagBody),
        FlvError,
    >)
        ensures
            res matches Ok(parts) ==> spec_filtered_tag(*prefix, old(self)@).result == Ok::<
                TagModel,
                FlvError,
            >(tag_of(*prefix, parts.0, parts.1@)),
            res matches Err(error) ==> spec_filtered_tag(*prefix, old(self)@).result == Err::<
                TagModel,
                FlvError,
            >(error),
            final(self)@ == spec_filtered_tag(*prefix, old(self)@).rest,
            final(self).continues(old(self)),
    {
        let _skipped = self.read_bytes(prefix.data_size as usize)?;
        Ok(
            (
                TagHeader::Encryption(EncryptionTagHeader {  }),
                TagBody::Encrypted(EncryptedTagBody::Placeholder),
            ),
        )
    }

    /// Decodes one tag: the eleven fixed bytes, then the typed header and
    /// the payload, which together take `data_size` bytes.
    pub fn decode_tag(&mut self) -> (res: Result<Tag, FlvError>)
        ensures
            result_view(res) == spec_tag(old(self)@).result,
            final(self)@ == spec_tag(old(self)@).rest,
            final(self).continues(old(self)),
    {
        reveal(spec_tag);
        let prefix = self.decode_tag_prefix()?;
        let ts_concatenated: u32 = Self::concat_ts(
            prefix.timestamp_short,
            prefix.timestamp_extended,
        );
        let mut encryption_header: Option<EncryptionTagHeader> = None;
        let mut filter_params: Option<FilterParameters> = None;
        let (tag_header, tag_body) = if !prefix.filter {
            match prefix.tag_type {
                TagType::Audio => self.decode_audio(&prefix)?,
                TagType::Video => self.decode_video(&prefix)?,
                TagType::Script => self.decode_script(&prefix)?,
                TagType::Encryption => {
                    return Err(FlvError::InvalidTagType);
                },
            }
        } else {
            let mut header_size: usize = 0;
            encryption_header = Some(EncryptionTagHeader::parse(self, &mut header_size)?);
            filter_params = Some(FilterParameters::parse(self, &mut header_size)?);
            self.decode_filtered(&prefix)?
        };
        Ok(
            Tag::new(
                prefix.filter,
                prefix.tag_type,
                prefix.data_size,
                prefix.timestamp_short,
                prefix.timestamp_extended,
                ts_concatenated,
                prefix.stream_id,
                tag_header,
                tag_body,
                encryption_header,
                filter_params,
            ),
        )
    }

    /// Decodes tags until no byte is left and appends them to `tags`. Before
    /// each tag stands a four-byte field that has to repeat the size of the
    /// tag before it; the first has to be zero on a fresh decoder. The tags
    /// decoded before a failure stay appended.
    pub fn decode_body(&mut self, tags: &mut Vec<Tag>) -> (res: Result<(), FlvError>)
        ensures
            tags_view(final(tags)@) == tags_view(old(tags)@) + spec_body(
                old(self)@,
                old(self).expected_previous_size(),
            ).tags,
            res == spec_body(old(self)@, old(self).expected_previous_size()).result,
            final(self)@ == spec_body(old(self)@, old(self).expected_previous_size()).rest,
            final(self).session() == (DecoderSession {
                expected: spec_body(old(self)@, old(self).expected_previous_size()).expected,
                ..old(self).session()
            }),
    {
        let ghost whole = spec_body(old(self)@, old(self).expected_previous_size());
        let ghost before_all = tags_view(old(tags)@);
        let ghost done = Seq::<TagModel>::empty();
        assert(before_all + done =~= before_all);
        assert(done + spec_body(self@, self.previous_tag_size).tags =~= spec_body(
            self@,
            self.previous_tag_size,
        ).tags);
        proof {
            lemma_radix_values();
        }
        loop
            invariant
                self.session() == (DecoderSession {
                    expected: self.previous_tag_size,
                    ..old(self).session()
                }),
                whole == spec_body(old(self)@, old(self).expected_previous_size()),
                whole == body_after(done, spec_body(self@, self.previous_tag_size)),
                before_all == tags_view(old(tags)@),
                tags_view(tags@) == before_all + done,
            decreases self@.len(),
        {
            assert(done + Seq::<TagModel>::empty() =~= done);
            if self.remaining() == 0 {
                return Ok(());
            }
            let previous_tag_size: u64 = self.read_be(4)?;
            if self.remaining() == 0 {
                return Ok(());
            }
            if previous_tag_size != self.previous_tag_size as u64 {
                return Err(FlvError::FrameSizeMismatch);
            }
            let ghost at_tag = self@;
            proof {
                lemma_tag_shrinks(at_tag);
                lemma_tag_size_bound(at_tag);
            }
            let tag = self.decode_tag()?;
            self.previous_tag_size = tag.data_size + TAG_PREFIX_SIZE;
            let ghost model = tag@;
            let ghost collected = tags_view(tags@);
            tags.push(tag);
            proof {
                assert(tags_view(tags@) =~= collected.push(model));
                let tail = spec_body(self@, self.previous_tag_size);
                assert(done + (seq![model] + tail.tags) =~= done.push(model) + tail.tags);
                assert(collected.push(model) =~= before_all + done.push(model));
                done = done.push(model);
            }
        }
    }

    /// One byte, or `InsufficientData` with the queue untouched.
    pub(crate) fn read_u8(&mut self) -> (res: Result<u8, FlvError>)
        ensures
            res == take_u8(old(self)@).result,
            final(self)@ == take_u8(old(self)@).rest,
            final(self).continues(old(self)),
    {
        if self.remaining() < 1 {
            Err(FlvError::InsufficientData)
        } else {
            Ok(self.drain_u8())
        }
    }

    /// A big-endian number of `count` bytes, or `InsufficientData` with the
    /// queue untouched.
    pub(crate) fn read_be(&mut self, count: usize) -> (res: Result<u64, FlvError>)
        requires
            count <= 8,
        ensures
            res is Ok == take_be(old(self)@, count as nat).result is Ok,
            res matches Ok(value) ==> take_be(old(self)@, count as nat).result == Ok::<
                nat,
                FlvError,
            >(value as nat) && value < radix(count as nat),
            res matches Err(error) ==> take_be(old(self)@, count as nat).result == Err::<
                nat,
                FlvError,
            >(error),
            final(self)@ == take_be(old(self)@, count as nat).rest,
            final(self).continues(old(self)),
    {
        if self.remaining() < count {
            Err(FlvError::InsufficientData)
        } else {
            Ok(self.drain_be(count))
        }
    }

    /// `count` bytes, or `InsufficientData` with the queue untouched.
    pub(crate) fn read_bytes(&mut self, count: usize) -> (res: Result<Vec<u8>, FlvError>)
        ensures
            result_view(res) == take_bytes(old(self)@, count as nat).result,
            final(self)@ == take_bytes(old(self)@, count as nat).rest,
            final(self).continues(old(self)),
    {
        if self.remaining() < count {
            Err(FlvError::InsufficientData)
        } else {
            Ok(self.drain_bytes_vec(count))
        }
    }

    /// Reads `count` bytes as one big-endian number.
    fn drain_be(&mut self, count: usize) -> (value: u64)
        requires
            count <= 8,
            count <= old(self)@.len(),
        ensures
            value == be_value(old(self)@.take(count as int)),
            value < radix(count as nat),
            final(self)@ == old(self)@.skip(count as int),
            final(self).continues(old(self)),
    {
        let mut value: u64 = 0;
        let mut i: usize = 0;
        proof {
            lemma_radix_values();
        }
        while i < count
            invariant
                i <= count <= 8,
                count <= old(self)@.len(),
                self.data@ == old(self)@.skip(i as int),
                self.continues(old(self)),
                value == be_value(old(self)@.take(i as int)),
                value < radix(i as nat),
            decreases count - i,
        {
            let byte: u8 = self.drain_u8();
            proof {
                lemma_radix_values();
                let next = old(self)@.take(i as int + 1);
                assert(next.drop_last() == old(self)@.take(i as int));
                assert(next.last() == byte);
                assert(radix(i as nat) <= radix(7)) by {
                    lemma_radix_monotone(i as nat, 7);
                }
                lemma_be_value_bound(next);
            }
            value = value * 256 + byte as u64;
            i += 1;
        }
        value
    }

    /// Reads `count` bytes as one little-endian number.
    fn drain_le(&mut self, count: usize) -> (value: u64)
        requires
            count <= 8,
            count <= old(self)@.len(),
        ensures
            value == le_value(old(self)@.take(count as int)),
            value < radix(count as nat),
            final(self)@ == old(self)@.skip(count as int),
            final(self).continues(old(self)),
    {
        let mut value: u64 = 0;
        let mut weight: u64 = 1;
        let mut i: usize = 0;
        proof {
            lemma_radix_values();
        }
        while i < count
            invariant
                i <= count <= 8,
                count <= old(self)@.len(),
                self.data@ == old(self)@.skip(i as int),
                self.continues(old(self)),
                value == le_value(old(self)@.take(i as int)),
                value < radix(i as nat),
                i < 8 ==> weight == radix(i as nat),
            decreases count - i,
        {
            let byte: u8 = self.drain_u8();
            proof {
                lemma_radix_values();
                let next = old(self)@.take(i as int + 1);
                assert(next.drop_last() == old(self)@.take(i as int));
                assert(next.last() == byte);
                assert(radix(i as nat) <= radix(7)) by {
                    lemma_radix_monotone(i as nat, 7);
                }
                lemma_le_value_bound(next);
                assert(byte as nat * weight as nat <= 255 * weight as nat) by (nonlinear_arith)
                    requires
                        byte as nat <= 255,
                ;
            }
            value = value + byte as u64 * weight;
            i += 1;
            if i < 8 {
                weight = weight * 256;
            }
        }
        value
    }
}

/// The state of a decoder: its bytes and its session.
pub struct DecoderModel {
    pub bytes: Seq<u8>,
    pub session: DecoderSession,
}

/// A state, what was published on the way to it, and whether reaching it was
/// a success.
pub struct DecoderStep {
    pub state: DecoderModel,
    pub published: Seq<Published>,
    pub result: Result<(), FlvError>,
}

/// What a message does to `state` before any decoding: pushed data goes to
/// the back of the queue, directives set the switches. Content meant for
/// another component is passed over.
pub open spec fn decoder_received(state: DecoderModel, content: PackedContent) -> DecoderModel {
    match content {
        PackedContent::ToDecoder(PackedContentToDecoder::PushData(data)) => DecoderModel {
            bytes: state.bytes + data@,
            ..state
        },
        PackedContent::ToDecoder(PackedContentToDecoder::StartDecoding) => DecoderModel {
            session: DecoderSession { decoding: true, ..state.session },
            ..state
        },
        PackedContent::ToDecoder(PackedContentToDecoder::StopDecoding) => DecoderModel {
            session: DecoderSession { decoding: false, ..state.session },
            ..state
        },
        PackedContent::ToDecoder(PackedContentToDecoder::CloseWorkerThread) => DecoderModel {
            session: DecoderSession { closed: true, ..state.session },
            ..state
        },
        _ => state,
    }
}

/// Decoding what `state` has buffered.
pub open spec fn decoder_decoded(state: DecoderModel) -> DecoderStep {
    let decoding = spec_decoding(
        state.bytes,
        state.session.expected,
        state.session.header_decoded,
    );
    DecoderStep {
        state: DecoderModel {
            bytes: decoding.rest,
            session: DecoderSession {
                expected: decoding.expected,
                header_decoded: decoding.header_decoded,
                ..state.session
            },
        },
        published: decoding.published,
        result: decoding.result,
    }
}

/// What one message does to `state` in all: it is received; then, unless the
/// decoder was closed or is switched off, what is buffered is decoded.
pub open spec fn decoder_handled(state: DecoderModel, content: PackedContent) -> DecoderStep {
    let next = decoder_received(state, content);
    if next.session.closed || !next.session.decoding {
        DecoderStep { state: next, published: Seq::empty(), result: Ok(()) }
    } else {
        decoder_decoded(next)
    }
}

/// How a run over a channel ends: the state, what is left in the channel,
/// what was published, and whether a failure stopped it.
pub struct DecoderRun {
    pub state: DecoderModel,
    pub channel: Seq<PackedContent>,
    pub published: Seq<Published>,
    pub result: Result<(), FlvError>,
}

/// Takes the messages of `channel` through `state`, oldest first, until the
/// channel is empty, the decoder is closed, or a failure occurs.
pub open spec fn decoder_ran(state: DecoderModel, channel: Seq<PackedContent>) -> DecoderRun
    decreases channel.len(),
{
    if state.session.closed || channel.len() == 0 {
        DecoderRun { state, channel, published: Seq::empty(), result: Ok(()) }
    } else {
        let step = decoder_handled(state, channel[0]);
        match step.result {
            Err(error) => DecoderRun {
                state: step.state,
                channel: channel.skip(1),
                published: step.published,
                result: Err(error),
            },
            Ok(_) => {
                let tail = decoder_ran(step.state, channel.skip(1));
                DecoderRun { published: step.published + tail.published, ..tail }
            },
        }
    }
}

/// The envelopes that carry `tags` to the remuxer, in order.
fn stage_tags(tags: &mut Vec<Tag>) -> (staged: VecDeque<Packed>)
    ensures
        final(tags)@.len() == 0,
        announced(Seq::empty(), staged@, published_tags(tags_view(old(tags)@))),
{
    let mut staged: VecDeque<Packed> = VecDeque::new();
    let ghost items = published_tags(tags_view(old(tags)@));
    while tags.len() > 0
        invariant
            tags@.len() <= old(tags)@.len(),
            tags@ == old(tags)@.take(tags@.len() as int),
            items == published_tags(tags_view(old(tags)@)),
            staged@.len() + tags@.len() == items.len(),
            forall|i: int|
                0 <= i < staged@.len() ==> announces(#[trigger] staged@[i], items[tags@.len() + i]),
        decreases tags@.len(),
    {
        let ghost before = staged@;
        let ghost index = tags@.len() - 1;
        let tag = tags.pop().unwrap();
        proof {
            assert(tag == old(tags)@[index]);
            assert(tags@ =~= old(tags)@.take(index));
        }
        let packed = Demuxer::route_tag(tag);
        staged.push_front(packed);
        proof {
            assert forall|i: int| 0 <= i < staged@.len() implies announces(
                #[trigger] staged@[i],
                items[tags@.len() + i],
            ) by {
                if i > 0 {
                    assert(staged@[i] == before[i - 1]);
                }
            }
        }
    }
    assert(staged@.take(0) =~= Seq::<Packed>::empty());
    staged
}

impl Decoder {
    /// The state of the decoder.
    pub open spec fn model(&self) -> DecoderModel {
        DecoderModel { bytes: self@, session: self.session() }
    }

    /// Whether the decoder was told to close.
    pub fn is_closed(&self) -> (closed: bool)
        ensures
            closed == self.session().closed,
    {
        self.closed
    }

    /// Decodes what is buffered and hands what it finds to `exchange`,
    /// addressed to the remuxer: the file header, if this session has not
    /// decoded it yet, then the tags. What was decoded before a failure is
    /// handed on all the same.
    pub fn decode_buffered(&mut self, exchange: &mut Exchange) -> (res: Result<(), FlvError>)
        ensures
            final(self).model() == decoder_decoded(old(self).model()).state,
            res == decoder_decoded(old(self).model()).result,
            final(exchange)@.channels == old(exchange)@.channels,
            announced(
                old(exchange)@.inbound,
                final(exchange)@.inbound,
                decoder_decoded(old(self).model()).published,
            ),
    {
        let ghost inbound = old(exchange)@.inbound;
        let mut staged: VecDeque<Packed> = VecDeque::new();
        if !self.header_decoded {
            if self.remaining() == 0 {
                assert(inbound.take(inbound.len() as int) =~= inbound);
                return Ok(());
            }
            match self.decode_header() {
                Ok(header) => {
                    self.header_decoded = true;
                    let packed = Demuxer::route_header(header);
                    proof {
                        let bytes = old(self)@;
                        assert(bytes.take(9).take(3) =~= bytes.take(3));
                        assert(bytes.take(9).subrange(5, 9) =~= bytes.subrange(5, 9));
                    }
                    staged.push_back(packed);
                },
                Err(error) => {
                    assert(inbound.take(inbound.len() as int) =~= inbound);
                    return Err(error);
                },
            }
        }
        let ghost head = staged@;
        let mut tags: Vec<Tag> = Vec::new();
        let res = self.decode_body(&mut tags);
        let ghost decoded = tags_view(tags@);
        let mut staged_tags = stage_tags(&mut tags);
        let ghost tail = staged_tags@;
        staged.append(&mut staged_tags);
        exchange.send_all(&mut staged);
        proof {
            let items = decoder_decoded(old(self).model()).published;
            let after = exchange@.inbound;
            assert(Seq::<TagModel>::empty() + decoded =~= decoded);
            assert(after =~= inbound + (head + tail));
            assert(after.take(inbound.len() as int) =~= inbound);
            assert forall|i: int| 0 <= i < items.len() implies announces(
                #[trigger] after[inbound.len() + i],
                items[i],
            ) by {
                if i < head.len() {
                    assert(after[inbound.len() + i] == head[i]);
                } else {
                    assert(after[inbound.len() + i] == tail[0 + (i - head.len())]);
                }
            }
        }
        res
    }

    /// Takes one message in.
    fn receive(&mut self, content: PackedContent)
        ensures
            final(self).model() == decoder_received(old(self).model(), content),
    {
        match content {
            PackedContent::ToDecoder(PackedContentToDecoder::PushData(data)) => {
                let mut data = data;
                self.push_data(&mut data);
            },
            PackedContent::ToDecoder(PackedContentToDecoder::StartDecoding) => {
                self.decoding = true;
            },
            PackedContent::ToDecoder(PackedContentToDecoder::StopDecoding) => {
                self.decoding = false;
            },
            PackedContent::ToDecoder(PackedContentToDecoder::CloseWorkerThread) => {
                self.closed = true;
            },
            _ => {},
        }
    }

    /// Takes one message in and, unless the decoder was closed or is
    /// switched off, decodes what is buffered and hands it to `exchange`.
    pub fn handle(&mut self, content: PackedContent, exchange: &mut Exchange) -> (res: Result<
        (),
        FlvError,
    >)
        ensures
            final(self).model() == decoder_handled(old(self).model(), content).state,
            res == decoder_handled(old(self).model(), content).result,
            final(exchange)@.channels == old(exchange)@.channels,
            announced(
                old(exchange)@.inbound,
                final(exchange)@.inbound,
                decoder_handled(old(self).model(), content).published,
            ),
    {
        self.receive(content);
        if self.closed || !self.decoding {
            assert(exchange@.inbound.take(exchange@.inbound.len() as int) =~= exchange@.inbound);
            return Ok(());
        }
        self.decode_buffered(exchange)
    }

    /// Handles the messages that wait for the decoder in `exchange`, oldest
    /// first, until none is left, the decoder is told to close, or a failure
    /// occurs. Where the decoder has no channel there is nothing to do.
    pub fn run(&mut self, exchange: &mut Exchange) -> (res: Result<(), FlvError>)
        ensures
            !old(exchange)@.channels.contains_key(Destination::Decoder) ==> {
                &&& res is Ok
                &&& final(self).model() == old(self).model()
                &&& final(exchange)@ == old(exchange)@
            },
            old(exchange)@.channels.contains_key(Destination::Decoder) ==> {
                let end = decoder_ran(
                    old(self).model(),
                    old(exchange)@.channels[Destination::Decoder],
                );
                &&& final(self).model() == end.state
                &&& res == end.result
                &&& final(exchange)@.channels == old(exchange)@.channels.insert(
                    Destination::Decoder,
                    end.channel,
                )
                &&& announced(old(exchange)@.inbound, final(exchange)@.inbound, end.published)
            },
    {
        if !exchange.is_registered(Destination::Decoder) {
            return Ok(());
        }
        let ghost whole = decoder_ran(
            old(self).model(),
            old(exchange)@.channels[Destination::Decoder],
        );
        let ghost done = Seq::<Published>::empty();
        proof {
            assert(old(exchange)@.channels.insert(
                Destination::Decoder,
                old(exchange)@.channels[Destination::Decoder],
            ) =~= old(exchange)@.channels);
            assert(exchange@.inbound.take(exchange@.inbound.len() as int) =~= exchange@.inbound);
            assert(done + whole.published =~= whole.published);
        }
        loop
            invariant
                old(exchange)@.channels.contains_key(Destination::Decoder),
                exchange@.channels.contains_key(Destination::Decoder),
                exchange@.channels == old(exchange)@.channels.insert(
                    Destination::Decoder,
                    exchange@.channels[Destination::Decoder],
                ),
                whole == decoder_ran(
                    old(self).model(),
                    old(exchange)@.channels[Destination::Decoder],
                ),
                ({
                    let rest = decoder_ran(self.model(), exchange@.channels[Destination::Decoder]);
                    &&& whole.state == rest.state
                    &&& whole.channel == rest.channel
                    &&& whole.result == rest.result
                    &&& whole.published == done + rest.published
                }),
                announced(old(exchange)@.inbound, exchange@.inbound, done),
            decreases exchange@.channels[Destination::Decoder].len(),
        {
            assert(done + Seq::<Published>::empty() =~= done);
            if self.closed {
                return Ok(());
            }
            let ghost channels = exchange@.channels;
            let ghost inbound = exchange@.inbound;
            let ghost state = self.model();
            match exchange.receive(Destination::Decoder) {
                None => {
                    return Ok(());
                },
                Some(content) => {
                    let ghost step = decoder_handled(state, content);
                    let ghost taken = exchange@.channels;
                    assert(taken =~= old(exchange)@.channels.insert(
                        Destination::Decoder,
                        channels[Destination::Decoder].skip(1),
                    ));
                    let res = self.handle(content, exchange);
                    proof {
                        lemma_announced_twice(
                            old(exchange)@.inbound,
                            inbound,
                            exchange@.inbound,
                            done,
                            step.published,
                        );
                        if step.result is Ok {
                            let tail = decoder_ran(
                                step.state,
                                channels[Destination::Decoder].skip(1),
                            );
                            assert(done + (step.published + tail.published) =~= (done
                                + step.published) + tail.published);
                        }
                        done = done + step.published;
                    }
                    match res {
                        Ok(_) => {},
                        Err(error) => {
                            return Err(error);
                        },
                    }
                },
            }
        }
    }
}

} // verus!
