//! What holds of every decoding of script data: a decoded value does not
//! depend on the bytes behind it, and properties that stand one behind the
//! other decode one behind the other.
use vstd::prelude::*;
use crate::flv::script::{
    after, lemma_value_shrinks, spec_date, spec_ecma_array, spec_pairs, spec_script_body,
    spec_strict_array, spec_string, spec_text, spec_value, spec_values, spend,
    PropModel, TextModel, ValueModel, MARKER_BOOLEAN, MARKER_DATE, MARKER_ECMA_ARRAY,
    MARKER_LONG_STRING, MARKER_NUMBER, MARKER_OBJECT, MARKER_OBJECT_END, MARKER_REFERENCE,
    MARKER_STRICT_ARRAY, MARKER_STRING,
};
use crate::io::bytes::{parsed_ok, take_be, take_bytes, take_u8, Parsed};

verus! {

/// The outcome `parsed` with `more` behind what it left.
pub open spec fn followed_by<T>(parsed: Parsed<T>, more: Seq<u8>) -> Parsed<T> {
    Parsed { result: parsed.result, rest: parsed.rest + more }
}

/// A byte that was read is read the same whatever follows.
pub proof fn lemma_take_u8_frame(bytes: Seq<u8>, more: Seq<u8>)
    requires
        take_u8(bytes).result is Ok,
    ensures
        take_u8(bytes + more) == followed_by(take_u8(bytes), more),
{
    assert((bytes + more).skip(1) =~= bytes.skip(1) + more);
}

/// A number that was read is read the same whatever follows.
pub proof fn lemma_take_be_frame(bytes: Seq<u8>, count: nat, more: Seq<u8>)
    requires
        take_be(bytes, count).result is Ok,
    ensures
        take_be(bytes + more, count) == followed_by(take_be(bytes, count), more),
{
    assert((bytes + more).take(count as int) =~= bytes.take(count as int));
    assert((bytes + more).skip(count as int) =~= bytes.skip(count as int) + more);
}

/// A run of bytes that was read is read the same whatever follows.
pub proof fn lemma_take_bytes_frame(bytes: Seq<u8>, count: nat, more: Seq<u8>)
    requires
        take_bytes(bytes, count).result is Ok,
    ensures
        take_bytes(bytes + more, count) == followed_by(take_bytes(bytes, count), more),
{
    assert((bytes + more).take(count as int) =~= bytes.take(count as int));
    assert((bytes + more).skip(count as int) =~= bytes.skip(count as int) + more);
}

/// A string that was decoded is decoded the same whatever follows.
pub proof fn lemma_text_frame(bytes: Seq<u8>, marker: u8, width: nat, more: Seq<u8>)
    requires
        spec_text(bytes, marker, width).result is Ok,
    ensures
        spec_text(bytes + more, marker, width) == followed_by(
            spec_text(bytes, marker, width),
            more,
        ),
{
    let m = take_u8(bytes);
    lemma_take_u8_frame(bytes, more);
    let l = take_be(m.rest, width);
    lemma_take_be_frame(m.rest, width, more);
    lemma_take_bytes_frame(l.rest, l.result->Ok_0, more);
}

/// A date that was decoded is decoded the same whatever follows.
pub proof fn lemma_date_frame(bytes: Seq<u8>, more: Seq<u8>)
    requires
        spec_date(bytes).result is Ok,
    ensures
        spec_date(bytes + more) == followed_by(spec_date(bytes), more),
{
    let m = take_u8(bytes);
    lemma_take_u8_frame(bytes, more);
    let d = take_be(m.rest, 8);
    lemma_take_be_frame(m.rest, 8, more);
    lemma_take_be_frame(d.rest, 2, more);
}

/// A value that was decoded is decoded the same whatever follows.
#[verifier::rlimit(40)]
pub proof fn lemma_value_frame(bytes: Seq<u8>, more: Seq<u8>)
    requires
        spec_value(bytes).result is Ok,
    ensures
        spec_value(bytes + more) == followed_by(spec_value(bytes), more),
    decreases bytes.len(), 0nat,
{
    let m = take_u8(bytes);
    lemma_take_u8_frame(bytes, more);
    let marker = m.result->Ok_0;
    if marker == MARKER_NUMBER {
        lemma_take_be_frame(m.rest, 8, more);
    } else if marker == MARKER_BOOLEAN {
        lemma_take_u8_frame(m.rest, more);
    } else if marker == MARKER_STRING {
        lemma_text_frame(m.rest, MARKER_STRING, 2, more);
    } else if marker == MARKER_OBJECT {
        lemma_pairs_frame(m.rest, None, more);
    } else if marker == MARKER_REFERENCE {
        lemma_take_be_frame(m.rest, 2, more);
    } else if marker == MARKER_ECMA_ARRAY {
        lemma_ecma_array_frame(m.rest, more);
    } else if marker == MARKER_OBJECT_END {
    } else if marker == MARKER_STRICT_ARRAY {
        lemma_strict_array_frame(m.rest, more);
    } else if marker == MARKER_DATE {
        lemma_date_frame(m.rest, more);
    } else if marker == MARKER_LONG_STRING {
        lemma_text_frame(m.rest, MARKER_LONG_STRING, 4, more);
    }
}

/// A run of properties that was decoded is decoded the same whatever
/// follows.
#[verifier::rlimit(40)]
pub proof fn lemma_pairs_frame(bytes: Seq<u8>, budget: Option<nat>, more: Seq<u8>)
    requires
        spec_pairs(bytes, budget).result is Ok,
    ensures
        spec_pairs(bytes + more, budget) == followed_by(spec_pairs(bytes, budget), more),
    decreases bytes.len(), 1nat,
{
    if budget != Some(0nat) {
        let k = spec_string(bytes);
        lemma_text_frame(bytes, MARKER_STRING, 2, more);
        let v = spec_value(k.rest);
        lemma_value_frame(k.rest, more);
        lemma_value_shrinks(k.rest);
        if !(v.result->Ok_0 is ObjectEndMarker) {
            lemma_pairs_frame(v.rest, spend(budget), more);
        }
    } else {
        assert(Seq::<u8>::empty() + more =~= more);
    }
}

/// A run of values that was decoded is decoded the same whatever follows.
#[verifier::rlimit(40)]
pub proof fn lemma_values_frame(bytes: Seq<u8>, count: nat, more: Seq<u8>)
    requires
        spec_values(bytes, count).result is Ok,
    ensures
        spec_values(bytes + more, count) == followed_by(spec_values(bytes, count), more),
    decreases bytes.len(), 1nat,
{
    if count != 0 {
        let v = spec_value(bytes);
        lemma_value_frame(bytes, more);
        lemma_value_shrinks(bytes);
        lemma_values_frame(v.rest, (count - 1) as nat, more);
    }
}

/// An associative array that was decoded is decoded the same whatever
/// follows.
pub proof fn lemma_ecma_array_frame(bytes: Seq<u8>, more: Seq<u8>)
    requires
        spec_ecma_array(bytes).result is Ok,
    ensures
        spec_ecma_array(bytes + more) == followed_by(spec_ecma_array(bytes), more),
    decreases bytes.len(), 2nat,
{
    let m = take_u8(bytes);
    lemma_take_u8_frame(bytes, more);
    let c = take_be(m.rest, 4);
    lemma_take_be_frame(m.rest, 4, more);
    lemma_pairs_frame(c.rest, Some(c.result->Ok_0), more);
}

/// A strict array that was decoded is decoded the same whatever follows.
pub proof fn lemma_strict_array_frame(bytes: Seq<u8>, more: Seq<u8>)
    requires
        spec_strict_array(bytes).result is Ok,
    ensures
        spec_strict_array(bytes + more) == followed_by(spec_strict_array(bytes), more),
    decreases bytes.len(), 2nat,
{
    let m = take_u8(bytes);
    lemma_take_u8_frame(bytes, more);
    let c = take_be(m.rest, 4);
    lemma_take_be_frame(m.rest, 4, more);
    lemma_values_frame(c.rest, c.result->Ok_0, more);
}

/// The body of a script tag that was decoded is decoded the same whatever
/// follows.
pub proof fn lemma_script_body_frame(bytes: Seq<u8>, more: Seq<u8>)
    requires
        spec_script_body(bytes).result is Ok,
    ensures
        spec_script_body(bytes + more) == followed_by(spec_script_body(bytes), more),
{
    reveal(spec_script_body);
    let n = spec_string(bytes);
    lemma_text_frame(bytes, MARKER_STRING, 2, more);
    lemma_ecma_array_frame(n.rest, more);
}

/// Key and value round-trip in the order in which they stand: where `key`
/// is the whole encoding of a name and `value` the whole encoding of a value
/// that is not the end marker, the bytes `key`, `value`, `more` decode to
/// that property followed by what `more` decodes to.
pub proof fn lemma_property_then_more(
    key: Seq<u8>,
    value: Seq<u8>,
    more: Seq<u8>,
    budget: Option<nat>,
    name: TextModel,
    decoded: ValueModel,
)
    requires
        budget != Some(0nat),
        spec_string(key) == parsed_ok(name, Seq::<u8>::empty()),
        spec_value(value) == parsed_ok(decoded, Seq::<u8>::empty()),
        !(decoded is ObjectEndMarker),
    ensures
        spec_pairs(key + value + more, budget) == after(
            seq![PropModel { name, value: decoded }],
            spec_pairs(more, spend(budget)),
        ),
{
    lemma_text_frame(key, MARKER_STRING, 2, value + more);
    lemma_value_frame(value, more);
    lemma_value_shrinks(value);
    assert(key + value + more =~= key + (value + more));
    assert(Seq::<u8>::empty() + (value + more) =~= value + more);
    assert(Seq::<u8>::empty() + more =~= more);
    assert((key + value + more).len() > more.len());
}

/// A run of properties ends at the end marker, declared length or not:
/// where `key` is the whole encoding of a name, the bytes `key`, the end
/// marker, `more` decode to the one property that bears the end marker, and
/// `more` is left.
pub proof fn lemma_end_marker_ends_the_run(
    key: Seq<u8>,
    more: Seq<u8>,
    budget: Option<nat>,
    name: TextModel,
)
    requires
        budget != Some(0nat),
        spec_string(key) == parsed_ok(name, Seq::<u8>::empty()),
    ensures
        spec_pairs(key + seq![MARKER_OBJECT_END] + more, budget) == parsed_ok(
            seq![PropModel { name, value: ValueModel::ObjectEndMarker }],
            more,
        ),
{
    let end = seq![MARKER_OBJECT_END];
    lemma_text_frame(key, MARKER_STRING, 2, end + more);
    assert(key + end + more =~= key + (end + more));
    assert(Seq::<u8>::empty() + (end + more) =~= end + more);
    assert((end + more).skip(1) =~= more);
    assert((end + more)[0] == MARKER_OBJECT_END);
    assert(take_u8(end + more) == parsed_ok(MARKER_OBJECT_END, more));
    assert(spec_value(end + more) == parsed_ok(ValueModel::ObjectEndMarker, more));
    assert(spec_string(key + end + more) == parsed_ok(name, end + more));
}

} // verus!
