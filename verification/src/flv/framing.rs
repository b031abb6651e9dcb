//! The framing of an FLV stream: what the bytes of a file header, of a tag
//! and of a run of tags decode to, and what holds of every such decoding.
use vstd::prelude::*;
use crate::error::FlvError;
use crate::flv::header::{
    spec_audio_header, spec_video_header, EncryptionTagHeader, FilterParameters, FlvHeader,
    TagHeader,
};
use crate::flv::script::{lemma_ecma_array_shrinks, spec_script_body, spec_string};
use crate::flv::tag::{tag_type_of, PayloadModel, Tag, TagBodyModel, TagModel, TagType};
use crate::io::bit::{bit_of, bits_of};
use crate::io::bytes::{
    be_value, lemma_be_value_bound, lemma_radix_values, parsed_err, parsed_ok, take_be,
    take_bytes, take_u8, Parsed,
};

verus! {

/// The number of bytes of a tag that precede its typed header.
pub const TAG_PREFIX_SIZE: u32 = 11;

/// Whether `bytes` opens with a complete file header that bears the
/// signature `FLV`.
pub open spec fn header_is_valid(bytes: Seq<u8>) -> bool {
    &&& bytes.len() >= 9
    &&& bytes[0] == 0x46
    &&& bytes[1] == 0x4C
    &&& bytes[2] == 0x56
}

/// Whether `header` is what the first nine bytes of `bytes` say: the
/// signature, the version, the audio flag (bit 2) and the video flag (bit 0)
/// of the fifth byte, and the big-endian offset of the first tag.
pub open spec fn is_header_of(header: FlvHeader, bytes: Seq<u8>) -> bool {
    &&& header.signature@ == bytes.take(3)
    &&& header.version == bytes[3]
    &&& header.type_flags_audio == bit_of(bytes[4], 2)
    &&& header.type_flags_video == bit_of(bytes[4], 0)
    &&& header.data_offset == be_value(bytes.subrange(5, 9))
}

/// The composite timestamp: 24 bits below the 8 bits of the extension.
pub open spec fn composite_timestamp(short: u32, extended: u8) -> u32 {
    (short % 0x100_0000 + extended * 0x100_0000) as u32
}

/// The eleven fixed bytes that open a tag.
pub struct TagPrefix {
    pub filter: bool,
    pub tag_type: TagType,
    pub data_size: u32,
    pub timestamp_short: u32,
    pub timestamp_extended: u8,
    pub stream_id: u32,
}

/// The fixed part of a tag: a byte with the filter flag (bit 5) and the type
/// code (bits 0 to 4), then size, timestamp, timestamp extension and stream
/// id. The type code is judged as soon as it is read.
pub open spec fn spec_tag_prefix(bytes: Seq<u8>) -> Parsed<TagPrefix> {
    let b = take_u8(bytes);
    match b.result {
        Err(error) => parsed_err(error, b.rest),
        Ok(first) => match tag_type_of(bits_of(first, 0, 4) as u8) {
            Err(error) => parsed_err(error, b.rest),
            Ok(tag_type) => {
                let s = take_be(b.rest, 3);
                match s.result {
                    Err(error) => parsed_err(error, s.rest),
                    Ok(data_size) => {
                        let t = take_be(s.rest, 3);
                        match t.result {
                            Err(error) => parsed_err(error, t.rest),
                            Ok(timestamp) => {
                                let x = take_u8(t.rest);
                                match x.result {
                                    Err(error) => parsed_err(error, x.rest),
                                    Ok(timestamp_extended) => {
                                        let i = take_be(x.rest, 3);
                                        match i.result {
                                            Err(error) => parsed_err(error, i.rest),
                                            Ok(stream_id) => parsed_ok(
                                                TagPrefix {
                                                    filter: bit_of(first, 5),
                                                    tag_type,
                                                    data_size: data_size as u32,
                                                    timestamp_short: timestamp as u32,
                                                    timestamp_extended,
                                                    stream_id: stream_id as u32,
                                                },
                                                i.rest,
                                            ),
                                        }
                                    },
                                }
                            },
                        }
                    },
                }
            },
        },
    }
}

/// The tag that `prefix` opens, given its typed header and its body.
pub open spec fn tag_of(
    prefix: TagPrefix,
    tag_header: TagHeader,
    tag_body: TagBodyModel,
) -> TagModel {
    TagModel {
        filter: prefix.filter,
        tag_type: prefix.tag_type,
        data_size: prefix.data_size,
        timestamp_short: prefix.timestamp_short,
        timestamp_extended: prefix.timestamp_extended,
        timestamp: composite_timestamp(prefix.timestamp_short, prefix.timestamp_extended),
        stream_id: prefix.stream_id,
        tag_header,
        encryption_tag_header: if prefix.filter {
            Some(EncryptionTagHeader {  })
        } else {
            None
        },
        filter_parameters: if prefix.filter {
            Some(FilterParameters {  })
        } else {
            None
        },
        tag_body,
    }
}

/// The payload that follows a typed header of `header_size` bytes in a tag
/// of `data_size` bytes: `DataSizeMismatch` when the header alone is longer
/// than the tag.
pub open spec fn spec_payload(bytes: Seq<u8>, data_size: u32, header_size: nat) -> Parsed<Seq<u8>> {
    if data_size < header_size {
        parsed_err(FlvError::DataSizeMismatch, bytes)
    } else {
        take_bytes(bytes, (data_size - header_size) as nat)
    }
}

/// What follows the prefix of an audio tag.
pub open spec fn spec_audio_tag(prefix: TagPrefix, bytes: Seq<u8>) -> Parsed<TagModel> {
    let h = spec_audio_header(bytes);
    match h.result {
        Err(error) => parsed_err(error, h.rest),
        Ok(header) => {
            let p = spec_payload(h.rest, prefix.data_size, (bytes.len() - h.rest.len()) as nat);
            match p.result {
                Err(error) => parsed_err(error, p.rest),
                Ok(payload) => parsed_ok(
                    tag_of(
                        prefix,
                        TagHeader::Audio(header),
                        TagBodyModel::Normal(PayloadModel::Audio(payload)),
                    ),
                    p.rest,
                ),
            }
        },
    }
}

/// What follows the prefix of a video tag.
pub open spec fn spec_video_tag(prefix: TagPrefix, bytes: Seq<u8>) -> Parsed<TagModel> {
    let h = spec_video_header(bytes);
    match h.result {
        Err(error) => parsed_err(error, h.rest),
        Ok(header) => {
            let p = spec_payload(h.rest, prefix.data_size, (bytes.len() - h.rest.len()) as nat);
            match p.result {
                Err(error) => parsed_err(error, p.rest),
                Ok(payload) => parsed_ok(
                    tag_of(
                        prefix,
                        TagHeader::Video(header),
                        TagBodyModel::Normal(PayloadModel::Video(payload)),
                    ),
                    p.rest,
                ),
            }
        },
    }
}

/// What follows the prefix of a script tag: script data that ends by itself
/// and has to fill the declared size exactly.
pub open spec fn spec_script_tag(prefix: TagPrefix, bytes: Seq<u8>) -> Parsed<TagModel> {
    let b = spec_script_body(bytes);
    match b.result {
        Err(error) => parsed_err(error, b.rest),
        Ok(body) => if bytes.len() - b.rest.len() != prefix.data_size {
            parsed_err(FlvError::DataSizeMismatch, b.rest)
        } else {
            parsed_ok(
                tag_of(
                    prefix,
                    TagHeader::Script,
                    TagBodyModel::Normal(PayloadModel::Script(body)),
                ),
                b.rest,
            )
        },
    }
}

/// What follows the prefix of a filtered tag: the declared number of bytes,
/// which are skipped, the tag keeping placeholders in their stead.
pub open spec fn spec_filtered_tag(prefix: TagPrefix, bytes: Seq<u8>) -> Parsed<TagModel> {
    let p = take_bytes(bytes, prefix.data_size as nat);
    match p.result {
        Err(error) => parsed_err(error, p.rest),
        Ok(_skipped) => parsed_ok(
            tag_of(
                prefix,
                TagHeader::Encryption(EncryptionTagHeader {  }),
                TagBodyModel::Encrypted(PayloadModel::Placeholder),
            ),
            p.rest,
        ),
    }
}

/// What follows the prefix of a tag whose filter flag is clear. The prefix
/// of a decoded tag is never of the kind `Encryption`.
pub open spec fn spec_plain_tag(prefix: TagPrefix, bytes: Seq<u8>) -> Parsed<TagModel> {
    match prefix.tag_type {
        TagType::Audio => spec_audio_tag(prefix, bytes),
        TagType::Video => spec_video_tag(prefix, bytes),
        TagType::Script => spec_script_tag(prefix, bytes),
        TagType::Encryption => parsed_err(FlvError::InvalidTagType, bytes),
    }
}

/// One tag off the front of `bytes`.
#[verifier::opaque]
pub open spec fn spec_tag(bytes: Seq<u8>) -> Parsed<TagModel> {
    let p = spec_tag_prefix(bytes);
    match p.result {
        Err(error) => parsed_err(error, p.rest),
        Ok(prefix) => if prefix.filter {
            spec_filtered_tag(prefix, p.rest)
        } else {
            spec_plain_tag(prefix, p.rest)
        },
    }
}

/// How decoding a run of tags ends: the tags decoded, whether a failure
/// stopped the run behind them, the bytes left, and the size that the next
/// previous-tag-size field has to repeat.
pub struct BodyOutcome {
    pub tags: Seq<TagModel>,
    pub result: Result<(), FlvError>,
    pub rest: Seq<u8>,
    pub expected: u32,
}

/// The size that the field after `tag` has to repeat.
pub open spec fn framed_size(tag: TagModel) -> u32 {
    (tag.data_size + TAG_PREFIX_SIZE) as u32
}

/// The run that decodes no tag, ends with `result` and leaves `rest`.
pub open spec fn body_end(
    result: Result<(), FlvError>,
    rest: Seq<u8>,
    expected: u32,
) -> BodyOutcome {
    BodyOutcome { tags: Seq::empty(), result, rest, expected }
}

/// What a run of tags amounts to once `done` were decoded and `tail` is the
/// outcome on the bytes that followed them.
pub open spec fn body_after(done: Seq<TagModel>, tail: BodyOutcome) -> BodyOutcome {
    BodyOutcome { tags: done + tail.tags, ..tail }
}

/// The tags of `bytes`, each behind a four-byte field that repeats the size
/// of the tag before it (`expected` for the first). The run ends cleanly
/// where no byte is left, before such a field or behind it; it fails at a
/// field that is torn or wrong and at a tag that does not decode, and keeps
/// the tags decoded until then.
///
/// A tag always consumes its first byte, so the test on the lengths never
/// fails; it is what lets the definition recurse on the remaining bytes.
pub open spec fn spec_body(bytes: Seq<u8>, expected: u32) -> BodyOutcome
    decreases bytes.len(),
{
    if bytes.len() == 0 {
        body_end(Ok(()), bytes, expected)
    } else {
        let p = take_be(bytes, 4);
        match p.result {
            Err(error) => body_end(Err(error), p.rest, expected),
            Ok(size) => if p.rest.len() == 0 {
                body_end(Ok(()), p.rest, expected)
            } else if size != expected {
                body_end(Err(FlvError::FrameSizeMismatch), p.rest, expected)
            } else {
                let t = spec_tag(p.rest);
                match t.result {
                    Err(error) => body_end(Err(error), t.rest, expected),
                    Ok(tag) => if t.rest.len() >= bytes.len() {
                        body_end(Err(FlvError::InsufficientData), t.rest, expected)
                    } else {
                        body_after(seq![tag], spec_body(t.rest, framed_size(tag)))
                    },
                }
            },
        }
    }
}

/// A script body never leaves more than it was given.
pub proof fn lemma_script_body_shrinks(bytes: Seq<u8>)
    ensures
        spec_script_body(bytes).rest.len() <= bytes.len(),
{
    reveal(spec_script_body);
    let n = spec_string(bytes);
    if n.result is Ok {
        lemma_ecma_array_shrinks(n.rest);
    }
}

/// The fixed part of a tag is eleven bytes long.
pub proof fn lemma_tag_prefix_shrinks(bytes: Seq<u8>)
    ensures
        spec_tag_prefix(bytes).rest.len() <= bytes.len(),
        spec_tag_prefix(bytes).result is Ok ==> spec_tag_prefix(bytes).rest.len()
            + TAG_PREFIX_SIZE == bytes.len(),
{
}

/// What follows the fixed part of an audio tag is within what was given.
pub proof fn lemma_audio_tag_shrinks(prefix: TagPrefix, bytes: Seq<u8>)
    ensures
        spec_audio_tag(prefix, bytes).rest.len() <= bytes.len(),
{
}

/// What follows the fixed part of a video tag is within what was given.
pub proof fn lemma_video_tag_shrinks(prefix: TagPrefix, bytes: Seq<u8>)
    ensures
        spec_video_tag(prefix, bytes).rest.len() <= bytes.len(),
{
}

/// What follows the fixed part of a script tag is within what was given.
pub proof fn lemma_script_tag_shrinks(prefix: TagPrefix, bytes: Seq<u8>)
    ensures
        spec_script_tag(prefix, bytes).rest.len() <= bytes.len(),
{
    lemma_script_body_shrinks(bytes);
}

/// What follows the fixed part of a filtered tag is within what was given.
pub proof fn lemma_filtered_tag_shrinks(prefix: TagPrefix, bytes: Seq<u8>)
    ensures
        spec_filtered_tag(prefix, bytes).rest.len() <= bytes.len(),
{
}

/// A tag never leaves more than it was given, and a decoded one has consumed
/// its eleven fixed bytes.
pub proof fn lemma_tag_shrinks(bytes: Seq<u8>)
    ensures
        spec_tag(bytes).rest.len() <= bytes.len(),
        spec_tag(bytes).result is Ok ==> spec_tag(bytes).rest.len() + TAG_PREFIX_SIZE
            <= bytes.len(),
{
    reveal(spec_tag);
    let p = spec_tag_prefix(bytes);
    lemma_tag_prefix_shrinks(bytes);
    if p.result is Ok {
        let prefix = p.result->Ok_0;
        lemma_audio_tag_shrinks(prefix, p.rest);
        lemma_video_tag_shrinks(prefix, p.rest);
        lemma_script_tag_shrinks(prefix, p.rest);
        lemma_filtered_tag_shrinks(prefix, p.rest);
    }
}

/// What follows the fixed part of a decoded tag is as long as the tag
/// declares: typed header and payload together take `data_size` bytes.
pub proof fn lemma_tag_payload_fills_size(prefix: TagPrefix, bytes: Seq<u8>)
    ensures
        spec_audio_tag(prefix, bytes).result is Ok ==> bytes.len() - spec_audio_tag(
            prefix,
            bytes,
        ).rest.len() == prefix.data_size,
        spec_video_tag(prefix, bytes).result is Ok ==> bytes.len() - spec_video_tag(
            prefix,
            bytes,
        ).rest.len() == prefix.data_size,
        spec_script_tag(prefix, bytes).result is Ok ==> bytes.len() - spec_script_tag(
            prefix,
            bytes,
        ).rest.len() == prefix.data_size,
        spec_filtered_tag(prefix, bytes).result is Ok ==> bytes.len() - spec_filtered_tag(
            prefix,
            bytes,
        ).rest.len() == prefix.data_size,
{
    lemma_audio_tag_shrinks(prefix, bytes);
    lemma_video_tag_shrinks(prefix, bytes);
    lemma_script_tag_shrinks(prefix, bytes);
}

/// A decoded tag has taken exactly its eleven fixed bytes and the number of
/// bytes that it declares, and it bears the declared size.
pub proof fn lemma_tag_fills_size(bytes: Seq<u8>)
    ensures
        spec_tag(bytes).result matches Ok(tag) ==> bytes.len() - spec_tag(bytes).rest.len()
            == TAG_PREFIX_SIZE + tag.data_size,
{
    reveal(spec_tag);
    let p = spec_tag_prefix(bytes);
    lemma_tag_prefix_shrinks(bytes);
    if p.result is Ok {
        lemma_tag_payload_fills_size(p.result->Ok_0, p.rest);
    }
}

/// The declared size of a decoded tag fits in 24 bits.
pub proof fn lemma_tag_size_bound(bytes: Seq<u8>)
    ensures
        spec_tag(bytes).result matches Ok(tag) ==> tag.data_size < 0x100_0000,
{
    reveal(spec_tag);
    lemma_radix_values();
    let p = spec_tag_prefix(bytes);
    if p.result is Ok {
        let b = take_u8(bytes);
        lemma_be_value_bound(b.rest.take(3));
    }
}

/// The models of `tags`, in order.
pub open spec fn tags_view(tags: Seq<Tag>) -> Seq<TagModel> {
    Seq::new(tags.len(), |i: int| tags[i]@)
}

/// Whether `bytes` opens with the tags `tags`, each behind a size field that
/// repeats the size of the tag before it (`expected` for the first), and
/// `tail` is what follows the last of them.
pub open spec fn frames(bytes: Seq<u8>, expected: u32, tags: Seq<TagModel>, tail: Seq<u8>) -> bool
    decreases tags.len(),
{
    if tags.len() == 0 {
        tail == bytes
    } else {
        &&& bytes.len() > 4
        &&& be_value(bytes.take(4)) == expected
        &&& spec_tag(bytes.skip(4)).result == Ok::<TagModel, FlvError>(tags[0])
        &&& frames(spec_tag(bytes.skip(4)).rest, framed_size(tags[0]), tags.skip(1), tail)
    }
}

/// The size that the field behind the tags `tags` has to repeat.
pub open spec fn expected_after(expected: u32, tags: Seq<TagModel>) -> u32 {
    if tags.len() == 0 {
        expected
    } else {
        framed_size(tags.last())
    }
}

/// Decoding a run that opens with well-framed tags amounts to those tags
/// followed by what decoding finds behind them.
pub proof fn lemma_body_after_frames(
    bytes: Seq<u8>,
    expected: u32,
    tags: Seq<TagModel>,
    tail: Seq<u8>,
)
    requires
        frames(bytes, expected, tags, tail),
    ensures
        spec_body(bytes, expected) == body_after(
            tags,
            spec_body(tail, expected_after(expected, tags)),
        ),
    decreases tags.len(),
{
    let behind = spec_body(tail, expected_after(expected, tags));
    if tags.len() == 0 {
        assert(tags + behind.tags =~= behind.tags);
    } else {
        let at_tag = bytes.skip(4);
        let t = spec_tag(at_tag);
        lemma_tag_shrinks(at_tag);
        lemma_body_after_frames(t.rest, framed_size(tags[0]), tags.skip(1), tail);
        assert(expected_after(framed_size(tags[0]), tags.skip(1)) == expected_after(
            expected,
            tags,
        )) by {
            if tags.len() > 1 {
                assert(tags.skip(1).last() == tags.last());
            }
        }
        assert(seq![tags[0]] + (tags.skip(1) + behind.tags) =~= tags + behind.tags);
    }
}

/// A well-formed sequence of tags with correct running sizes decodes to
/// exactly those tags, in order, and leaves nothing: whether the stream ends
/// behind the last tag or behind one more size field.
pub proof fn lemma_framed_tags_decode(
    bytes: Seq<u8>,
    expected: u32,
    tags: Seq<TagModel>,
    tail: Seq<u8>,
)
    requires
        frames(bytes, expected, tags, tail),
        tail.len() == 0 || tail.len() == 4,
    ensures
        spec_body(bytes, expected).result is Ok,
        spec_body(bytes, expected).tags == tags,
        spec_body(bytes, expected).rest.len() == 0,
        spec_body(bytes, expected).expected == expected_after(expected, tags),
{
    lemma_body_after_frames(bytes, expected, tags, tail);
    assert(tags + Seq::<TagModel>::empty() =~= tags);
}

/// A size field that does not repeat the size of the tag before it, with
/// more bytes behind it, fails the run with `FrameSizeMismatch`, however
/// many well-framed tags came before; those tags are what the run yields.
pub proof fn lemma_wrong_size_fails(
    bytes: Seq<u8>,
    expected: u32,
    tags: Seq<TagModel>,
    tail: Seq<u8>,
)
    requires
        frames(bytes, expected, tags, tail),
        tail.len() > 4,
        be_value(tail.take(4)) != expected_after(expected, tags),
    ensures
        spec_body(bytes, expected).result == Err::<(), FlvError>(FlvError::FrameSizeMismatch),
        spec_body(bytes, expected).tags == tags,
{
    lemma_body_after_frames(bytes, expected, tags, tail);
    assert(tags + Seq::<TagModel>::empty() =~= tags);
}

/// What a decoder publishes: the nine bytes of a file header or a tag.
pub enum Published {
    Header(Seq<u8>),
    Tag(TagModel),
}

/// The tags `tags` as things to publish, in order.
pub open spec fn published_tags(tags: Seq<TagModel>) -> Seq<Published> {
    Seq::new(tags.len(), |i: int| Published::Tag(tags[i]))
}

/// What decoding the buffered bytes of a session comes to: the bytes left,
/// the size that the next previous-tag-size field has to repeat, whether the
/// file header is decoded by now, what is to be published, and whether a
/// failure stopped the decoding.
pub struct Decoding {
    pub rest: Seq<u8>,
    pub expected: u32,
    pub header_decoded: bool,
    pub published: Seq<Published>,
    pub result: Result<(), FlvError>,
}

/// Decoding what is buffered. A session that has not seen the file header
/// decodes it first, unless nothing is buffered; then come the tags.
pub open spec fn spec_decoding(bytes: Seq<u8>, expected: u32, header_decoded: bool) -> Decoding {
    if header_decoded {
        let body = spec_body(bytes, expected);
        Decoding {
            rest: body.rest,
            expected: body.expected,
            header_decoded,
            published: published_tags(body.tags),
            result: body.result,
        }
    } else if bytes.len() == 0 {
        Decoding { rest: bytes, expected, header_decoded, published: Seq::empty(), result: Ok(()) }
    } else if !header_is_valid(bytes) {
        Decoding {
            rest: if bytes.len() >= 9 {
                bytes.skip(9)
            } else {
                bytes
            },
            expected,
            header_decoded,
            published: Seq::empty(),
            result: Err(FlvError::MalformedHeader),
        }
    } else {
        let body = spec_body(bytes.skip(9), expected);
        Decoding {
            rest: body.rest,
            expected: body.expected,
            header_decoded: true,
            published: seq![Published::Header(bytes.take(9))] + published_tags(body.tags),
            result: body.result,
        }
    }
}

} // verus!
