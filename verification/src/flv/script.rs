//! The script-data value grammar carried by script tags.
//!
//! A value is a marker byte followed by a payload that the marker selects.
//! The composite payloads (strings, arrays, dates) open with a marker byte of
//! their own, which their parser checks; a property key is such a string.
use vstd::prelude::*;
use vstd::utf8::{decode_utf8, encode_utf8, valid_utf8};
use crate::error::FlvError;
use crate::flv::decoder::Decoder;
use crate::io::bytes::{
    lemma_radix_values, parsed_err, parsed_ok, radix, result_view, take_be, take_bytes, take_u8,
    twos_complement, Parsed,
};

verus! {

/// Marker of a number: an IEEE-754 double, big-endian.
pub const MARKER_NUMBER: u8 = 0;

/// Marker of a boolean: one byte.
pub const MARKER_BOOLEAN: u8 = 1;

/// Marker of a string with a 16-bit length.
pub const MARKER_STRING: u8 = 2;

/// Marker of an object: properties up to an end marker.
pub const MARKER_OBJECT: u8 = 3;

/// Marker of a reference: a 16-bit lookup key.
pub const MARKER_REFERENCE: u8 = 7;

/// Marker of an associative array: a count, then properties.
pub const MARKER_ECMA_ARRAY: u8 = 8;

/// Marker that ends an object or an associative array.
pub const MARKER_OBJECT_END: u8 = 9;

/// Marker of a strict array: a count, then that many values.
pub const MARKER_STRICT_ARRAY: u8 = 10;

/// Marker of a date: a double and a 16-bit signed offset.
pub const MARKER_DATE: u8 = 11;

/// Marker of a string with a 32-bit length.
pub const MARKER_LONG_STRING: u8 = 12;

/// One script-data value.
#[derive(Debug, PartialEq, Eq)]
pub enum ScriptData {
    /// The bit pattern of an IEEE-754 double.
    Number(u64),
    Boolean(u8),
    String(ScriptDataString),
    Object(ScriptDataObject),
    MovieClip,
    Null,
    Undefined,
    Reference(u16),
    EcmaArray(ScriptDataEcmaArray),
    ObjectEndMarker,
    StrictArray(ScriptStrictArray),
    Date(ScriptDataDate),
    LongString(ScriptDataLongString),
    /// Stands for a value whose marker this grammar does not decode.
    NotImplemented,
}

/// The name and the one value of a script tag.
#[derive(Debug, PartialEq, Eq)]
pub struct ScriptTagBody {
    pub name: ScriptDataString,
    pub value: ScriptDataEcmaArray,
}

#[derive(Debug, PartialEq, Eq)]
pub struct ScriptDataObject {
    pub properties: Vec<ScriptDataObjectProp>,
}

#[derive(Debug, PartialEq, Eq)]
pub struct ScriptDataObjectProp {
    pub name: ScriptDataString,
    pub value: ScriptData,
}

#[derive(Clone, Debug, PartialEq, Eq)]
pub struct ScriptDataString {
    pub length: u16,
    pub data: String,
}

#[derive(Clone, Debug, PartialEq, Eq)]
pub struct ScriptDataLongString {
    pub length: u32,
    pub data: String,
}

#[derive(Debug, PartialEq, Eq)]
pub struct ScriptDataEcmaArray {
    /// The declared number of properties.
    pub length: u32,
    pub properties: Vec<ScriptDataObjectProp>,
}

#[derive(Debug, PartialEq, Eq)]
pub struct ScriptStrictArray {
    /// The declared number of values.
    pub length: u32,
    pub values: Vec<ScriptData>,
}

#[derive(Clone, Copy, Debug, PartialEq, Eq)]
pub struct ScriptDataDate {
    /// The bit pattern of an IEEE-754 double.
    pub date: u64,
    pub local_time_offset: i16,
}

/// Model of a length-prefixed string: the declared length and the text.
pub struct TextModel {
    pub length: nat,
    pub data: Seq<char>,
}

/// Model of a property.
pub struct PropModel {
    pub name: TextModel,
    pub value: ValueModel,
}

/// Model of an associative array.
pub struct EcmaArrayModel {
    pub length: u32,
    pub properties: Seq<PropModel>,
}

/// Model of a strict array.
pub struct StrictArrayModel {
    pub length: u32,
    pub values: Seq<ValueModel>,
}

/// Model of a script tag's body.
pub struct ScriptBodyModel {
    pub name: TextModel,
    pub value: EcmaArrayModel,
}

/// Model of a script-data value.
pub enum ValueModel {
    Number(u64),
    Boolean(u8),
    String(TextModel),
    Object(Seq<PropModel>),
    MovieClip,
    Null,
    Undefined,
    Reference(u16),
    EcmaArray(EcmaArrayModel),
    ObjectEndMarker,
    StrictArray(StrictArrayModel),
    Date(ScriptDataDate),
    LongString(TextModel),
    NotImplemented,
}

impl View for ScriptDataString {
    type V = TextModel;

    open spec fn view(&self) -> TextModel {
        TextModel { length: self.length as nat, data: self.data@ }
    }
}

impl View for ScriptDataLongString {
    type V = TextModel;

    open spec fn view(&self) -> TextModel {
        TextModel { length: self.length as nat, data: self.data@ }
    }
}

/// The model of `value`: the same tree with sequences for vectors and
/// texts for strings.
pub open spec fn value_model(value: ScriptData) -> ValueModel
    decreases value,
{
    match value {
        ScriptData::Number(bits) => ValueModel::Number(bits),
        ScriptData::Boolean(byte) => ValueModel::Boolean(byte),
        ScriptData::String(text) => ValueModel::String(text@),
        ScriptData::Object(object) => ValueModel::Object(
            Seq::new(
                object.properties.len() as nat,
                |i: int|
                    if 0 <= i < object.properties.len() {
                        PropModel {
                            name: object.properties[i].name@,
                            value: value_model(object.properties[i].value),
                        }
                    } else {
                        arbitrary()
                    },
            ),
        ),
        ScriptData::MovieClip => ValueModel::MovieClip,
        ScriptData::Null => ValueModel::Null,
        ScriptData::Undefined => ValueModel::Undefined,
        ScriptData::Reference(key) => ValueModel::Reference(key),
        ScriptData::EcmaArray(array) => ValueModel::EcmaArray(
            EcmaArrayModel {
                length: array.length,
                properties: Seq::new(
                    array.properties.len() as nat,
                    |i: int|
                        if 0 <= i < array.properties.len() {
                            PropModel {
                                name: array.properties[i].name@,
                                value: value_model(array.properties[i].value),
                            }
                        } else {
                            arbitrary()
                        },
                ),
            },
        ),
        ScriptData::ObjectEndMarker => ValueModel::ObjectEndMarker,
        ScriptData::StrictArray(array) => ValueModel::StrictArray(
            StrictArrayModel {
                length: array.length,
                values: Seq::new(
                    array.values.len() as nat,
                    |i: int|
                        if 0 <= i < array.values.len() {
                            value_model(array.values[i])
                        } else {
                            arbitrary()
                        },
                ),
            },
        ),
        ScriptData::Date(date) => ValueModel::Date(date),
        ScriptData::LongString(text) => ValueModel::LongString(text@),
        ScriptData::NotImplemented => ValueModel::NotImplemented,
    }
}

impl View for ScriptData {
    type V = ValueModel;

    open spec fn view(&self) -> ValueModel {
        value_model(*self)
    }
}

impl View for ScriptDataObjectProp {
    type V = PropModel;

    open spec fn view(&self) -> PropModel {
        PropModel { name: self.name@, value: self.value@ }
    }
}

/// The models of `props`, in order.
pub open spec fn props_view(props: Seq<ScriptDataObjectProp>) -> Seq<PropModel> {
    Seq::new(props.len(), |i: int| props[i]@)
}

/// The models of `values`, in order.
pub open spec fn values_view(values: Seq<ScriptData>) -> Seq<ValueModel> {
    Seq::new(values.len(), |i: int| values[i]@)
}

impl View for ScriptDataObject {
    type V = Seq<PropModel>;

    open spec fn view(&self) -> Seq<PropModel> {
        props_view(self.properties@)
    }
}

impl View for ScriptDataEcmaArray {
    type V = EcmaArrayModel;

    open spec fn view(&self) -> EcmaArrayModel {
        EcmaArrayModel { length: self.length, properties: props_view(self.properties@) }
    }
}

impl View for ScriptStrictArray {
    type V = StrictArrayModel;

    open spec fn view(&self) -> StrictArrayModel {
        StrictArrayModel { length: self.length, values: values_view(self.values@) }
    }
}

impl View for ScriptTagBody {
    type V = ScriptBodyModel;

    open spec fn view(&self) -> ScriptBodyModel {
        ScriptBodyModel { name: self.name@, value: self.value@ }
    }
}

/// The model of a composite value is built from the models of its parts.
pub proof fn lemma_value_view(value: ScriptData)
    ensures
        value matches ScriptData::Object(object) ==> value@ == ValueModel::Object(object@),
        value matches ScriptData::EcmaArray(array) ==> value@ == ValueModel::EcmaArray(array@),
        value matches ScriptData::StrictArray(array) ==> value@ == ValueModel::StrictArray(
            array@,
        ),
{
    reveal_with_fuel(value_model, 2);
    match value {
        ScriptData::Object(object) => {
            assert(value@->Object_0 =~= object@);
        },
        ScriptData::EcmaArray(array) => {
            assert(value@->EcmaArray_0.properties =~= array@.properties);
        },
        ScriptData::StrictArray(array) => {
            assert(value@->StrictArray_0.values =~= array@.values);
        },
        _ => {},
    }
}

/// A string field: its marker, a big-endian length of `width` bytes, and
/// that many bytes of UTF-8.
pub open spec fn spec_text(bytes: Seq<u8>, marker: u8, width: nat) -> Parsed<TextModel> {
    let m = take_u8(bytes);
    match m.result {
        Err(error) => parsed_err(error, m.rest),
        Ok(found) => if found != marker {
            parsed_err(FlvError::InvalidTypeMarker, m.rest)
        } else {
            let l = take_be(m.rest, width);
            match l.result {
                Err(error) => parsed_err(error, l.rest),
                Ok(length) => {
                    let run = take_bytes(l.rest, length);
                    match run.result {
                        Err(error) => parsed_err(error, run.rest),
                        Ok(raw) => if valid_utf8(raw) {
                            parsed_ok(TextModel { length, data: decode_utf8(raw) }, run.rest)
                        } else {
                            parsed_err(FlvError::InvalidUtf8, run.rest)
                        },
                    }
                },
            }
        },
    }
}

/// A string with a 16-bit length.
pub open spec fn spec_string(bytes: Seq<u8>) -> Parsed<TextModel> {
    spec_text(bytes, MARKER_STRING, 2)
}

/// A string with a 32-bit length.
pub open spec fn spec_long_string(bytes: Seq<u8>) -> Parsed<TextModel> {
    spec_text(bytes, MARKER_LONG_STRING, 4)
}

/// A date field: its marker, a double and a signed 16-bit offset.
pub open spec fn spec_date(bytes: Seq<u8>) -> Parsed<ScriptDataDate> {
    let m = take_u8(bytes);
    match m.result {
        Err(error) => parsed_err(error, m.rest),
        Ok(found) => if found != MARKER_DATE {
            parsed_err(FlvError::InvalidTypeMarker, m.rest)
        } else {
            let d = take_be(m.rest, 8);
            match d.result {
                Err(error) => parsed_err(error, d.rest),
                Ok(date) => {
                    let o = take_be(d.rest, 2);
                    match o.result {
                        Err(error) => parsed_err(error, o.rest),
                        Ok(offset) => parsed_ok(
                            ScriptDataDate {
                                date: date as u64,
                                local_time_offset: twos_complement(offset, 0x1_0000) as i16,
                            },
                            o.rest,
                        ),
                    }
                },
            }
        },
    }
}

/// The budget of an array after one more property.
pub open spec fn spend(budget: Option<nat>) -> Option<nat> {
    match budget {
        Some(n) => Some((n - 1) as nat),
        None => None,
    }
}

/// One value: a marker byte and the payload it selects. A marker that the
/// grammar does not know yields `NotImplemented` and consumes nothing more.
pub open spec fn spec_value(bytes: Seq<u8>) -> Parsed<ValueModel>
    decreases bytes.len(), 0nat,
{
    let m = take_u8(bytes);
    match m.result {
        Err(error) => parsed_err(error, m.rest),
        Ok(marker) => if marker == MARKER_NUMBER {
            let n = take_be(m.rest, 8);
            match n.result {
                Err(error) => parsed_err(error, n.rest),
                Ok(bits) => parsed_ok(ValueModel::Number(bits as u64), n.rest),
            }
        } else if marker == MARKER_BOOLEAN {
            let b = take_u8(m.rest);
            match b.result {
                Err(error) => parsed_err(error, b.rest),
                Ok(byte) => parsed_ok(ValueModel::Boolean(byte), b.rest),
            }
        } else if marker == MARKER_STRING {
            let s = spec_string(m.rest);
            match s.result {
                Err(error) => parsed_err(error, s.rest),
                Ok(text) => parsed_ok(ValueModel::String(text), s.rest),
            }
        } else if marker == MARKER_OBJECT {
            let o = spec_pairs(m.rest, None);
            match o.result {
                Err(error) => parsed_err(error, o.rest),
                Ok(props) => parsed_ok(ValueModel::Object(props), o.rest),
            }
        } else if marker == MARKER_REFERENCE {
            let r = take_be(m.rest, 2);
            match r.result {
                Err(error) => parsed_err(error, r.rest),
                Ok(key) => parsed_ok(ValueModel::Reference(key as u16), r.rest),
            }
        } else if marker == MARKER_ECMA_ARRAY {
            let a = spec_ecma_array(m.rest);
            match a.result {
                Err(error) => parsed_err(error, a.rest),
                Ok(array) => parsed_ok(ValueModel::EcmaArray(array), a.rest),
            }
        } else if marker == MARKER_OBJECT_END {
            parsed_ok(ValueModel::ObjectEndMarker, m.rest)
        } else if marker == MARKER_STRICT_ARRAY {
            let a = spec_strict_array(m.rest);
            match a.result {
                Err(error) => parsed_err(error, a.rest),
                Ok(array) => parsed_ok(ValueModel::StrictArray(array), a.rest),
            }
        } else if marker == MARKER_DATE {
            let d = spec_date(m.rest);
            match d.result {
                Err(error) => parsed_err(error, d.rest),
                Ok(date) => parsed_ok(ValueModel::Date(date), d.rest),
            }
        } else if marker == MARKER_LONG_STRING {
            let s = spec_long_string(m.rest);
            match s.result {
                Err(error) => parsed_err(error, s.rest),
                Ok(text) => parsed_ok(ValueModel::LongString(text), s.rest),
            }
        } else {
            parsed_ok(ValueModel::NotImplemented, m.rest)
        },
    }
}

/// Properties in stream order: a string key and a value each. The run ends
/// after the property whose value is the end marker, which is kept, or when
/// `budget` properties were read, whichever comes first; `None` is no budget.
///
/// A value always consumes its marker byte, so the test on the lengths never
/// fails; it is what lets the definition recurse on the remaining bytes.
pub open spec fn spec_pairs(bytes: Seq<u8>, budget: Option<nat>) -> Parsed<Seq<PropModel>>
    decreases bytes.len(), 1nat,
{
    if budget == Some(0nat) {
        parsed_ok(Seq::empty(), bytes)
    } else {
        let k = spec_string(bytes);
        match k.result {
            Err(error) => parsed_err(error, k.rest),
            Ok(name) => {
                let v = spec_value(k.rest);
                match v.result {
                    Err(error) => parsed_err(error, v.rest),
                    Ok(value) => {
                        let prop = PropModel { name, value };
                        if value is ObjectEndMarker {
                            parsed_ok(seq![prop], v.rest)
                        } else if v.rest.len() >= bytes.len() {
                            parsed_err(FlvError::InsufficientData, v.rest)
                        } else {
                            let tail = spec_pairs(v.rest, spend(budget));
                            match tail.result {
                                Err(error) => parsed_err(error, tail.rest),
                                Ok(more) => parsed_ok(seq![prop] + more, tail.rest),
                            }
                        }
                    },
                }
            },
        }
    }
}

/// `count` values in stream order.
///
/// As in `spec_pairs`, the test on the lengths never fails.
pub open spec fn spec_values(bytes: Seq<u8>, count: nat) -> Parsed<Seq<ValueModel>>
    decreases bytes.len(), 1nat,
{
    if count == 0 {
        parsed_ok(Seq::empty(), bytes)
    } else {
        let v = spec_value(bytes);
        match v.result {
            Err(error) => parsed_err(error, v.rest),
            Ok(value) => if v.rest.len() >= bytes.len() {
                parsed_err(FlvError::InsufficientData, v.rest)
            } else {
                let tail = spec_values(v.rest, (count - 1) as nat);
                match tail.result {
                    Err(error) => parsed_err(error, tail.rest),
                    Ok(more) => parsed_ok(seq![value] + more, tail.rest),
                }
            },
        }
    }
}

/// An associative array: its marker, a 32-bit count, and properties up to
/// that count or to the end marker.
pub open spec fn spec_ecma_array(bytes: Seq<u8>) -> Parsed<EcmaArrayModel>
    decreases bytes.len(), 2nat,
{
    let m = take_u8(bytes);
    match m.result {
        Err(error) => parsed_err(error, m.rest),
        Ok(found) => if found != MARKER_ECMA_ARRAY {
            parsed_err(FlvError::InvalidTypeMarker, m.rest)
        } else {
            let c = take_be(m.rest, 4);
            match c.result {
                Err(error) => parsed_err(error, c.rest),
                Ok(count) => {
                    let p = spec_pairs(c.rest, Some(count));
                    match p.result {
                        Err(error) => parsed_err(error, p.rest),
                        Ok(props) => parsed_ok(
                            EcmaArrayModel { length: count as u32, properties: props },
                            p.rest,
                        ),
                    }
                },
            }
        },
    }
}

/// A strict array: its marker, a 32-bit count, and exactly that many values.
pub open spec fn spec_strict_array(bytes: Seq<u8>) -> Parsed<StrictArrayModel>
    decreases bytes.len(), 2nat,
{
    let m = take_u8(bytes);
    match m.result {
        Err(error) => parsed_err(error, m.rest),
        Ok(found) => if found != MARKER_STRICT_ARRAY {
            parsed_err(FlvError::InvalidTypeMarker, m.rest)
        } else {
            let c = take_be(m.rest, 4);
            match c.result {
                Err(error) => parsed_err(error, c.rest),
                Ok(count) => {
                    let v = spec_values(c.rest, count);
                    match v.result {
                        Err(error) => parsed_err(error, v.rest),
                        Ok(values) => parsed_ok(
                            StrictArrayModel { length: count as u32, values },
                            v.rest,
                        ),
                    }
                },
            }
        },
    }
}

/// The body of a script tag: a string, then an associative array.
#[verifier::opaque]
pub open spec fn spec_script_body(bytes: Seq<u8>) -> Parsed<ScriptBodyModel> {
    let n = spec_string(bytes);
    match n.result {
        Err(error) => parsed_err(error, n.rest),
        Ok(name) => {
            let a = spec_ecma_array(n.rest);
            match a.result {
                Err(error) => parsed_err(error, a.rest),
                Ok(value) => parsed_ok(ScriptBodyModel { name, value }, a.rest),
            }
        },
    }
}

/// A value never leaves more than it was given, and a decoded one has
/// consumed at least its marker.
pub proof fn lemma_value_shrinks(bytes: Seq<u8>)
    ensures
        spec_value(bytes).rest.len() <= bytes.len(),
        spec_value(bytes).result is Ok ==> spec_value(bytes).rest.len() < bytes.len(),
    decreases bytes.len(), 0nat,
{
    if bytes.len() >= 1 {
        let rest = bytes.skip(1);
        let marker = bytes[0];
        if marker == MARKER_OBJECT {
            lemma_pairs_shrinks(rest, None);
        } else if marker == MARKER_ECMA_ARRAY {
            lemma_ecma_array_shrinks(rest);
        } else if marker == MARKER_STRICT_ARRAY {
            lemma_strict_array_shrinks(rest);
        }
    }
}

/// A run of properties never leaves more than it was given.
pub proof fn lemma_pairs_shrinks(bytes: Seq<u8>, budget: Option<nat>)
    ensures
        spec_pairs(bytes, budget).rest.len() <= bytes.len(),
    decreases bytes.len(), 1nat,
{
    if budget != Some(0nat) {
        let k = spec_string(bytes);
        if k.result is Ok {
            lemma_value_shrinks(k.rest);
            let v = spec_value(k.rest);
            if v.result is Ok && !(v.result->Ok_0 is ObjectEndMarker) {
                lemma_pairs_shrinks(v.rest, spend(budget));
            }
        }
    }
}

/// A run of values never leaves more than it was given.
pub proof fn lemma_values_shrinks(bytes: Seq<u8>, count: nat)
    ensures
        spec_values(bytes, count).rest.len() <= bytes.len(),
    decreases bytes.len(), 1nat,
{
    if count != 0 {
        lemma_value_shrinks(bytes);
        let v = spec_value(bytes);
        if v.result is Ok {
            lemma_values_shrinks(v.rest, (count - 1) as nat);
        }
    }
}

/// An associative array never leaves more than it was given.
pub proof fn lemma_ecma_array_shrinks(bytes: Seq<u8>)
    ensures
        spec_ecma_array(bytes).rest.len() <= bytes.len(),
    decreases bytes.len(), 2nat,
{
    let m = take_u8(bytes);
    if m.result == Ok::<u8, FlvError>(MARKER_ECMA_ARRAY) {
        let c = take_be(m.rest, 4);
        if c.result is Ok {
            lemma_pairs_shrinks(c.rest, Some(c.result->Ok_0));
        }
    }
}

/// A strict array never leaves more than it was given.
pub proof fn lemma_strict_array_shrinks(bytes: Seq<u8>)
    ensures
        spec_strict_array(bytes).rest.len() <= bytes.len(),
    decreases bytes.len(), 2nat,
{
    let m = take_u8(bytes);
    if m.result == Ok::<u8, FlvError>(MARKER_STRICT_ARRAY) {
        let c = take_be(m.rest, 4);
        if c.result is Ok {
            lemma_values_shrinks(c.rest, c.result->Ok_0);
        }
    }
}

/// `String::from_utf8`: the text whose UTF-8 encoding is `bytes`, or `None`
/// when `bytes` is not well-formed UTF-8.
#[verifier::external_body]
fn string_from_utf8(bytes: Vec<u8>) -> (res: Option<String>)
    ensures
        res is Some <==> valid_utf8(bytes@),
        res matches Some(text) ==> encode_utf8(text@) == bytes@,
{
    match String::from_utf8(bytes) {
        Ok(text) => Some(text),
        Err(_) => None,
    }
}

/// Reads a string field with the given marker and length width; returns the
/// declared length and the text.
fn parse_text(data: &mut Decoder, marker: u8, width: usize) -> (res: Result<
    (u64, String),
    FlvError,
>)
    requires
        width == 2 || width == 4,
    ensures
        res is Ok == spec_text(old(data)@, marker, width as nat).result is Ok,
        res matches Ok(pair) ==> spec_text(old(data)@, marker, width as nat).result == Ok::<
            TextModel,
            FlvError,
        >(TextModel { length: pair.0 as nat, data: pair.1@ }) && pair.0 < radix(width as nat),
        res matches Err(error) ==> spec_text(old(data)@, marker, width as nat).result == Err::<
            TextModel,
            FlvError,
        >(error),
        final(data)@ == spec_text(old(data)@, marker, width as nat).rest,
        final(data).continues(old(data)),
{
    let found: u8 = data.read_u8()?;
    if found != marker {
        return Err(FlvError::InvalidTypeMarker);
    }
    let length: u64 = data.read_be(width)?;
    proof {
        lemma_radix_values();
    }
    let raw: Vec<u8> = data.read_bytes(length as usize)?;
    match string_from_utf8(raw) {
        Some(text) => {
            proof {
                vstd::utf8::encode_utf8_decode_utf8(text@);
            }
            Ok((length, text))
        },
        None => Err(FlvError::InvalidUtf8),
    }
}

impl ScriptDataString {
    /// Reads the marker 2, a 16-bit length and that many bytes of UTF-8.
    pub fn parse(data: &mut Decoder) -> (res: Result<ScriptDataString, FlvError>)
        ensures
            result_view(res) == spec_string(old(data)@).result,
            final(data)@ == spec_string(old(data)@).rest,
            final(data).continues(old(data)),
    {
        proof {
            lemma_radix_values();
        }
        let (length, text) = parse_text(data, MARKER_STRING, 2)?;
        Ok(ScriptDataString { length: length as u16, data: text })
    }
}

impl ScriptDataLongString {
    /// Reads the marker 12, a 32-bit length and that many bytes of UTF-8.
    pub fn parse(data: &mut Decoder) -> (res: Result<ScriptDataLongString, FlvError>)
        ensures
            result_view(res) == spec_long_string(old(data)@).result,
            final(data)@ == spec_long_string(old(data)@).rest,
            final(data).continues(old(data)),
    {
        proof {
            lemma_radix_values();
        }
        let (length, text) = parse_text(data, MARKER_LONG_STRING, 4)?;
        Ok(ScriptDataLongString { length: length as u32, data: text })
    }
}

impl ScriptDataDate {
    /// Reads the marker 11, a double and a signed 16-bit offset.
    pub fn parse(data: &mut Decoder) -> (res: Result<ScriptDataDate, FlvError>)
        ensures
            res == spec_date(old(data)@).result,
            final(data)@ == spec_date(old(data)@).rest,
            final(data).continues(old(data)),
    {
        proof {
            lemma_radix_values();
        }
        let found: u8 = data.read_u8()?;
        if found != MARKER_DATE {
            return Err(FlvError::InvalidTypeMarker);
        }
        let date: u64 = data.read_be(8)?;
        let raw: u64 = data.read_be(2)?;
        let local_time_offset: i16 = if raw >= 0x8000 {
            (raw as i32 - 0x1_0000) as i16
        } else {
            raw as i16
        };
        Ok(ScriptDataDate { date, local_time_offset })
    }
}

/// What a run amounts to once `done` items were read and `tail` is the
/// outcome on the bytes that followed them.
pub open spec fn after<T>(done: Seq<T>, tail: Parsed<Seq<T>>) -> Parsed<Seq<T>> {
    match tail.result {
        Ok(more) => parsed_ok(done + more, tail.rest),
        Err(error) => parsed_err(error, tail.rest),
    }
}

/// The budget as a number of properties still allowed.
pub open spec fn budget_view(budget: Option<u32>) -> Option<nat> {
    match budget {
        Some(n) => Some(n as nat),
        None => None,
    }
}

/// Reads one value.
#[verifier::rlimit(40)]
pub fn parse_object(data: &mut Decoder) -> (res: Result<ScriptData, FlvError>)
    ensures
        result_view(res) == spec_value(old(data)@).result,
        final(data)@ == spec_value(old(data)@).rest,
        final(data).continues(old(data)),
    decreases old(data)@.len(), 0nat,
{
    proof {
        lemma_radix_values();
    }
    let marker: u8 = data.read_u8()?;
    if marker == MARKER_NUMBER {
        let bits: u64 = data.read_be(8)?;
        Ok(ScriptData::Number(bits))
    } else if marker == MARKER_BOOLEAN {
        let byte: u8 = data.read_u8()?;
        Ok(ScriptData::Boolean(byte))
    } else if marker == MARKER_STRING {
        let text = ScriptDataString::parse(data)?;
        Ok(ScriptData::String(text))
    } else if marker == MARKER_OBJECT {
        let object = ScriptDataObject::parse(data)?;
        let value = ScriptData::Object(object);
        proof {
            lemma_value_view(value);
        }
        Ok(value)
    } else if marker == MARKER_REFERENCE {
        let key: u64 = data.read_be(2)?;
        Ok(ScriptData::Reference(key as u16))
    } else if marker == MARKER_ECMA_ARRAY {
        let array = ScriptDataEcmaArray::parse(data)?;
        let value = ScriptData::EcmaArray(array);
        proof {
            lemma_value_view(value);
        }
        Ok(value)
    } else if marker == MARKER_OBJECT_END {
        Ok(ScriptData::ObjectEndMarker)
    } else if marker == MARKER_STRICT_ARRAY {
        let array = ScriptStrictArray::parse(data)?;
        let value = ScriptData::StrictArray(array);
        proof {
            lemma_value_view(value);
        }
        Ok(value)
    } else if marker == MARKER_DATE {
        let date = ScriptDataDate::parse(data)?;
        Ok(ScriptData::Date(date))
    } else if marker == MARKER_LONG_STRING {
        let text = ScriptDataLongString::parse(data)?;
        Ok(ScriptData::LongString(text))
    } else {
        Ok(ScriptData::NotImplemented)
    }
}

/// Reads properties up to the end marker or to the budget.
#[verifier::rlimit(40)]
fn parse_pairs(data: &mut Decoder, budget: Option<u32>) -> (res: Result<
    Vec<ScriptDataObjectProp>,
    FlvError,
>)
    ensures
        res matches Ok(props) ==> spec_pairs(old(data)@, budget_view(budget)).result == Ok::<
            Seq<PropModel>,
            FlvError,
        >(props_view(props@)),
        res matches Err(error) ==> spec_pairs(old(data)@, budget_view(budget)).result == Err::<
            Seq<PropModel>,
            FlvError,
        >(error),
        final(data)@ == spec_pairs(old(data)@, budget_view(budget)).rest,
        final(data).continues(old(data)),
    decreases old(data)@.len(), 1nat,
{
    let mut props: Vec<ScriptDataObjectProp> = Vec::new();
    let mut left: Option<u32> = budget;
    let ghost whole = spec_pairs(old(data)@, budget_view(budget));
    assert(props_view(props@) + Seq::<PropModel>::empty() =~= Seq::<PropModel>::empty());
    assert(props_view(props@) =~= Seq::<PropModel>::empty());
    loop
        invariant
            data@.len() <= old(data)@.len(),
            data.continues(old(data)),
            whole == spec_pairs(old(data)@, budget_view(budget)),
            whole == after(props_view(props@), spec_pairs(data@, budget_view(left))),
        decreases data@.len(),
    {
        let ghost done = props_view(props@);
        match left {
            Some(n) => {
                if n == 0 {
                    assert(done + Seq::<PropModel>::empty() =~= done);
                    return Ok(props);
                }
            },
            None => {},
        }
        let name = ScriptDataString::parse(data)?;
        let ghost after_key = data@;
        let value = parse_object(data)?;
        proof {
            lemma_value_shrinks(after_key);
        }
        let is_end: bool = match &value {
            ScriptData::ObjectEndMarker => true,
            _ => false,
        };
        let prop = ScriptDataObjectProp { name, value };
        let ghost model = prop@;
        props.push(prop);
        assert(props_view(props@) =~= done.push(model));
        assert(done.push(model) =~= done + seq![model]);
        if is_end {
            return Ok(props);
        }
        left =
        match left {
            Some(n) => Some((n - 1) as u32),
            None => None,
        };
        proof {
            let tail = spec_pairs(data@, budget_view(left));
            if tail.result is Ok {
                assert(done + (seq![model] + tail.result->Ok_0) =~= done.push(model)
                    + tail.result->Ok_0);
            }
        }
    }
}

/// Reads `count` values.
fn parse_values(data: &mut Decoder, count: u32) -> (res: Result<Vec<ScriptData>, FlvError>)
    ensures
        res matches Ok(values) ==> spec_values(old(data)@, count as nat).result == Ok::<
            Seq<ValueModel>,
            FlvError,
        >(values_view(values@)),
        res matches Err(error) ==> spec_values(old(data)@, count as nat).result == Err::<
            Seq<ValueModel>,
            FlvError,
        >(error),
        final(data)@ == spec_values(old(data)@, count as nat).rest,
        final(data).continues(old(data)),
    decreases old(data)@.len(), 1nat,
{
    let mut values: Vec<ScriptData> = Vec::new();
    let mut left: u32 = count;
    let ghost whole = spec_values(old(data)@, count as nat);
    assert(values_view(values@) =~= Seq::<ValueModel>::empty());
    assert(Seq::<ValueModel>::empty() + Seq::<ValueModel>::empty() =~= Seq::<ValueModel>::empty());
    while left > 0
        invariant
            data@.len() <= old(data)@.len(),
            data.continues(old(data)),
            whole == spec_values(old(data)@, count as nat),
            whole == after(values_view(values@), spec_values(data@, left as nat)),
        decreases left,
    {
        let ghost before = data@;
        let ghost done = values_view(values@);
        let value = parse_object(data)?;
        proof {
            lemma_value_shrinks(before);
        }
        let ghost model = value@;
        values.push(value);
        assert(values_view(values@) =~= done.push(model));
        left = left - 1;
        proof {
            let tail = spec_values(data@, left as nat);
            if tail.result is Ok {
                assert(done + (seq![model] + tail.result->Ok_0) =~= done.push(model)
                    + tail.result->Ok_0);
            }
        }
    }
    assert(values_view(values@) + Seq::<ValueModel>::empty() =~= values_view(values@));
    Ok(values)
}

impl ScriptDataObject {
    /// Reads properties up to and including the one whose value is the end
    /// marker.
    pub fn parse(data: &mut Decoder) -> (res: Result<ScriptDataObject, FlvError>)
        ensures
            result_view(res) == spec_pairs(old(data)@, None).result,
            final(data)@ == spec_pairs(old(data)@, None).rest,
            final(data).continues(old(data)),
        decreases old(data)@.len(), 2nat,
    {
        let properties = parse_pairs(data, None)?;
        Ok(ScriptDataObject { properties })
    }
}

impl ScriptDataEcmaArray {
    /// Reads the marker 8, a 32-bit count, and properties up to that count or
    /// to the end marker, whichever comes first.
    pub fn parse(data: &mut Decoder) -> (res: Result<ScriptDataEcmaArray, FlvError>)
        ensures
            result_view(res) == spec_ecma_array(old(data)@).result,
            final(data)@ == spec_ecma_array(old(data)@).rest,
            final(data).continues(old(data)),
        decreases old(data)@.len(), 2nat,
    {
        proof {
            lemma_radix_values();
        }
        let found: u8 = data.read_u8()?;
        if found != MARKER_ECMA_ARRAY {
            return Err(FlvError::InvalidTypeMarker);
        }
        let count: u64 = data.read_be(4)?;
        let length: u32 = count as u32;
        let properties = parse_pairs(data, Some(length))?;
        Ok(ScriptDataEcmaArray { length, properties })
    }
}

impl ScriptStrictArray {
    /// Reads the marker 10, a 32-bit count and exactly that many values.
    pub fn parse(data: &mut Decoder) -> (res: Result<ScriptStrictArray, FlvError>)
        ensures
            result_view(res) == spec_strict_array(old(data)@).result,
            final(data)@ == spec_strict_array(old(data)@).rest,
            final(data).continues(old(data)),
        decreases old(data)@.len(), 2nat,
    {
        proof {
            lemma_radix_values();
        }
        let found: u8 = data.read_u8()?;
        if found != MARKER_STRICT_ARRAY {
            return Err(FlvError::InvalidTypeMarker);
        }
        let count: u64 = data.read_be(4)?;
        let length: u32 = count as u32;
        let values = parse_values(data, length)?;
        Ok(ScriptStrictArray { length, values })
    }
}

impl ScriptTagBody {
    /// Reads the name of the script tag and its associative array.
    #[verifier::rlimit(40)]
    pub fn parse(data: &mut Decoder) -> (res: Result<ScriptTagBody, FlvError>)
        ensures
            result_view(res) == spec_script_body(old(data)@).result,
            final(data)@ == spec_script_body(old(data)@).rest,
            final(data).continues(old(data)),
    {
        reveal(spec_script_body);
        let name = ScriptDataString::parse(data)?;
        let value = ScriptDataEcmaArray::parse(data)?;
        Ok(ScriptTagBody { name, value })
    }
}

/// A run of properties stops at the first end marker: no property before
/// the last one has it as its value. A run without budget, as an object has
/// it, ends with the end marker, so it is never empty.
pub proof fn lemma_pairs_end_at_marker(bytes: Seq<u8>, budget: Option<nat>)
    ensures
        spec_pairs(bytes, budget).result matches Ok(props) ==> {
            &&& forall|i: int| 0 <= i < props.len() - 1 ==> !(#[trigger] props[i].value
                is ObjectEndMarker)
            &&& budget is None ==> props.len() >= 1 && props.last().value is ObjectEndMarker
        },
    decreases bytes.len(),
{
    if budget != Some(0nat) {
        let k = spec_string(bytes);
        if k.result is Ok {
            let v = spec_value(k.rest);
            lemma_value_shrinks(k.rest);
            if v.result is Ok && !(v.result->Ok_0 is ObjectEndMarker) {
                lemma_pairs_end_at_marker(v.rest, spend(budget));
                let tail = spec_pairs(v.rest, spend(budget));
                if tail.result is Ok {
                    let prop = PropModel { name: k.result->Ok_0, value: v.result->Ok_0 };
                    let more = tail.result->Ok_0;
                    let props = seq![prop] + more;
                    assert forall|i: int| 0 <= i < props.len() - 1 implies !(
                    #[trigger] props[i].value is ObjectEndMarker) by {
                        if i > 0 {
                            assert(props[i] == more[i - 1]);
                        }
                    }
                    if budget is None {
                        assert(props.last() == more.last());
                    }
                }
            }
        }
    }
}

/// Properties come out in the order in which they stand in the stream: a
/// run that opens with the key `name` and the value `value` yields that
/// property first, and behind it what the bytes after the value yield; if
/// the value is the end marker, the run ends with it.
pub proof fn lemma_pairs_keep_order(
    bytes: Seq<u8>,
    budget: Option<nat>,
    name: TextModel,
    value: ValueModel,
    after_key: Seq<u8>,
    after_value: Seq<u8>,
)
    requires
        budget != Some(0nat),
        spec_string(bytes) == parsed_ok(name, after_key),
        spec_value(after_key) == parsed_ok(value, after_value),
    ensures
        value is ObjectEndMarker ==> spec_pairs(bytes, budget) == parsed_ok(
            seq![PropModel { name, value }],
            after_value,
        ),
        !(value is ObjectEndMarker) ==> spec_pairs(bytes, budget) == after(
            seq![PropModel { name, value }],
            spec_pairs(after_value, spend(budget)),
        ),
{
    lemma_value_shrinks(after_key);
}

} // verus!
