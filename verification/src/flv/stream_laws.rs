//! What holds of every stream that is put together from whole tags: a tag
//! decodes the same whatever follows it, and tags that stand one behind the
//! other, each behind the size of the one before, decode one behind the
//! other.
use vstd::prelude::*;
use crate::error::FlvError;
use crate::flv::framing::{
    expected_after, framed_size, frames, lemma_framed_tags_decode, lemma_tag_shrinks,
    lemma_wrong_size_fails, spec_audio_tag, spec_body, spec_filtered_tag, spec_script_tag,
    spec_tag, spec_tag_prefix, spec_video_tag, TagPrefix,
};
use crate::flv::header::{spec_audio_header, spec_video_header};
use crate::flv::script_laws::{
    followed_by, lemma_script_body_frame, lemma_take_be_frame, lemma_take_bytes_frame,
    lemma_take_u8_frame,
};
use crate::flv::tag::{TagModel, TagType};
use crate::io::bytes::{be_value, parsed_ok, take_be, take_u8};

verus! {

/// The four bytes that spell `n` with the most significant byte first.
pub open spec fn size_field(n: u32) -> Seq<u8> {
    seq![
        (n / 0x100_0000) as u8,
        ((n / 0x1_0000) % 0x100) as u8,
        ((n / 0x100) % 0x100) as u8,
        (n % 0x100) as u8,
    ]
}

/// A size field spells its number.
pub proof fn lemma_size_field_value(n: u32)
    ensures
        size_field(n).len() == 4,
        be_value(size_field(n)) == n,
{
    let f = size_field(n);
    let f3 = f.drop_last();
    let f2 = f3.drop_last();
    let f1 = f2.drop_last();
    assert(f1.drop_last().len() == 0);
    assert(be_value(f1.drop_last()) == 0);
    assert(be_value(f1) == f[0]);
    assert(be_value(f2) == f[0] * 256 + f[1]);
    assert(be_value(f3) == (f[0] * 256 + f[1]) * 256 + f[2]);
    assert(be_value(f) == ((f[0] * 256 + f[1]) * 256 + f[2]) * 256 + f[3]);
}

/// The fixed part of a tag that was decoded is decoded the same whatever
/// follows.
pub proof fn lemma_tag_prefix_frame(bytes: Seq<u8>, more: Seq<u8>)
    requires
        spec_tag_prefix(bytes).result is Ok,
    ensures
        spec_tag_prefix(bytes + more) == followed_by(spec_tag_prefix(bytes), more),
{
    let b = take_u8(bytes);
    lemma_take_u8_frame(bytes, more);
    let s = take_be(b.rest, 3);
    lemma_take_be_frame(b.rest, 3, more);
    let t = take_be(s.rest, 3);
    lemma_take_be_frame(s.rest, 3, more);
    let x = take_u8(t.rest);
    lemma_take_u8_frame(t.rest, more);
    lemma_take_be_frame(x.rest, 3, more);
}

/// What follows the fixed part of an audio tag that was decoded is decoded
/// the same whatever follows.
pub proof fn lemma_audio_tag_frame(prefix: TagPrefix, bytes: Seq<u8>, more: Seq<u8>)
    requires
        spec_audio_tag(prefix, bytes).result is Ok,
    ensures
        spec_audio_tag(prefix, bytes + more) == followed_by(spec_audio_tag(prefix, bytes), more),
{
    let f = take_u8(bytes);
    lemma_take_u8_frame(bytes, more);
    let h = spec_audio_header(bytes);
    if h.rest != f.rest {
        lemma_take_u8_frame(f.rest, more);
    }
    lemma_take_bytes_frame(
        h.rest,
        (prefix.data_size - (bytes.len() - h.rest.len())) as nat,
        more,
    );
}

/// What follows the fixed part of a video tag that was decoded is decoded
/// the same whatever follows.
pub proof fn lemma_video_tag_frame(prefix: TagPrefix, bytes: Seq<u8>, more: Seq<u8>)
    requires
        spec_video_tag(prefix, bytes).result is Ok,
    ensures
        spec_video_tag(prefix, bytes + more) == followed_by(spec_video_tag(prefix, bytes), more),
{
    let f = take_u8(bytes);
    lemma_take_u8_frame(bytes, more);
    let h = spec_video_header(bytes);
    if h.rest != f.rest {
        let p = take_u8(f.rest);
        lemma_take_u8_frame(f.rest, more);
        lemma_take_be_frame(p.rest, 3, more);
    }
    lemma_take_bytes_frame(
        h.rest,
        (prefix.data_size - (bytes.len() - h.rest.len())) as nat,
        more,
    );
}

/// What follows the fixed part of a script tag that was decoded is decoded
/// the same whatever follows.
pub proof fn lemma_script_tag_frame(prefix: TagPrefix, bytes: Seq<u8>, more: Seq<u8>)
    requires
        spec_script_tag(prefix, bytes).result is Ok,
    ensures
        spec_script_tag(prefix, bytes + more) == followed_by(
            spec_script_tag(prefix, bytes),
            more,
        ),
{
    lemma_script_body_frame(bytes, more);
}

/// What follows the fixed part of a filtered tag that was decoded is decoded
/// the same whatever follows.
pub proof fn lemma_filtered_tag_frame(prefix: TagPrefix, bytes: Seq<u8>, more: Seq<u8>)
    requires
        spec_filtered_tag(prefix, bytes).result is Ok,
    ensures
        spec_filtered_tag(prefix, bytes + more) == followed_by(
            spec_filtered_tag(prefix, bytes),
            more,
        ),
{
    lemma_take_bytes_frame(bytes, prefix.data_size as nat, more);
}

/// A tag that was decoded is decoded the same whatever follows.
pub proof fn lemma_tag_frame(bytes: Seq<u8>, more: Seq<u8>)
    requires
        spec_tag(bytes).result is Ok,
    ensures
        spec_tag(bytes + more) == followed_by(spec_tag(bytes), more),
{
    reveal(spec_tag);
    let p = spec_tag_prefix(bytes);
    lemma_tag_prefix_frame(bytes, more);
    let prefix = p.result->Ok_0;
    if prefix.filter {
        lemma_filtered_tag_frame(prefix, p.rest, more);
    } else {
        match prefix.tag_type {
            TagType::Audio => lemma_audio_tag_frame(prefix, p.rest, more),
            TagType::Video => lemma_video_tag_frame(prefix, p.rest, more),
            TagType::Script => lemma_script_tag_frame(prefix, p.rest, more),
            TagType::Encryption => {},
        }
    }
}

/// Whether each of `records` is the whole encoding of the tag of `tags` at
/// its place.
pub open spec fn encode(records: Seq<Seq<u8>>, tags: Seq<TagModel>) -> bool {
    &&& records.len() == tags.len()
    &&& forall|i: int|
        0 <= i < records.len() ==> spec_tag(#[trigger] records[i]) == parsed_ok(
            tags[i],
            Seq::<u8>::empty(),
        )
}

/// The stream of the tags that `records` encode: each record behind the size
/// of the record before it (`expected` before the first), and `tail` behind
/// the last.
pub open spec fn stream_of(
    records: Seq<Seq<u8>>,
    tags: Seq<TagModel>,
    expected: u32,
    tail: Seq<u8>,
) -> Seq<u8>
    decreases records.len(),
{
    if records.len() == 0 || tags.len() == 0 {
        tail
    } else {
        size_field(expected) + records[0] + stream_of(
            records.skip(1),
            tags.skip(1),
            framed_size(tags[0]),
            tail,
        )
    }
}

/// A stream put together from whole tags and their running sizes is well
/// framed.
pub proof fn lemma_stream_is_framed(
    records: Seq<Seq<u8>>,
    tags: Seq<TagModel>,
    expected: u32,
    tail: Seq<u8>,
)
    requires
        encode(records, tags),
    ensures
        frames(stream_of(records, tags, expected, tail), expected, tags, tail),
    decreases records.len(),
{
    if records.len() > 0 {
        let behind = stream_of(records.skip(1), tags.skip(1), framed_size(tags[0]), tail);
        let stream = stream_of(records, tags, expected, tail);
        lemma_size_field_value(expected);
        assert(stream.take(4) =~= size_field(expected));
        assert(stream.skip(4) =~= records[0] + behind);
        assert(spec_tag(records[0]) == parsed_ok(tags[0], Seq::<u8>::empty()));
        lemma_tag_frame(records[0], behind);
        assert(Seq::<u8>::empty() + behind =~= behind);
        lemma_tag_shrinks(records[0]);
        assert(encode(records.skip(1), tags.skip(1))) by {
            assert forall|i: int| 0 <= i < records.skip(1).len() implies spec_tag(
                #[trigger] records.skip(1)[i],
            ) == parsed_ok(tags.skip(1)[i], Seq::<u8>::empty()) by {
                assert(records.skip(1)[i] == records[i + 1]);
            }
        }
        lemma_stream_is_framed(records.skip(1), tags.skip(1), framed_size(tags[0]), tail);
    }
}

/// Decoding a well-formed sequence of any number of tags with correct
/// running sizes succeeds and yields exactly those tags, in order, whether
/// or not a last size field closes the stream.
pub proof fn lemma_stream_decodes(
    records: Seq<Seq<u8>>,
    tags: Seq<TagModel>,
    expected: u32,
    closed: bool,
)
    requires
        encode(records, tags),
    ensures
        ({
            let tail = if closed {
                size_field(expected_after(expected, tags))
            } else {
                Seq::<u8>::empty()
            };
            let end = spec_body(stream_of(records, tags, expected, tail), expected);
            &&& end.result is Ok
            &&& end.tags == tags
            &&& end.tags.len() == records.len()
            &&& end.rest.len() == 0
        }),
{
    let tail = if closed {
        size_field(expected_after(expected, tags))
    } else {
        Seq::<u8>::empty()
    };
    lemma_size_field_value(expected_after(expected, tags));
    lemma_stream_is_framed(records, tags, expected, tail);
    lemma_framed_tags_decode(stream_of(records, tags, expected, tail), expected, tags, tail);
}

/// Decoding a stream in which a size field does not repeat the size of the
/// tag before it fails with `FrameSizeMismatch`: whatever stands behind the
/// wrong field, as long as something does, and however many well-formed tags
/// stand before it, which are what the decoding yields.
pub proof fn lemma_stream_with_wrong_size_fails(
    records: Seq<Seq<u8>>,
    tags: Seq<TagModel>,
    expected: u32,
    wrong: u32,
    behind: Seq<u8>,
)
    requires
        encode(records, tags),
        wrong != expected_after(expected, tags),
        behind.len() > 0,
    ensures
        ({
            let end = spec_body(
                stream_of(records, tags, expected, size_field(wrong) + behind),
                expected,
            );
            &&& end.result == Err::<(), FlvError>(FlvError::FrameSizeMismatch)
            &&& end.tags == tags
        }),
{
    let tail = size_field(wrong) + behind;
    lemma_size_field_value(wrong);
    assert(tail.take(4) =~= size_field(wrong));
    lemma_stream_is_framed(records, tags, expected, tail);
    lemma_wrong_size_fails(stream_of(records, tags, expected, tail), expected, tags, tail);
}

} // verus!
