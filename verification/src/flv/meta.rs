//! Stream metadata: the typed record, the XMP packet, and the raw property
//! list of a script tag with its lookups.
use vstd::prelude::*;
use vstd::string::StringExecFns;
use crate::flv::script::{
    props_view, PropModel, ScriptData, ScriptDataObjectProp, ScriptTagBody, ValueModel,
};

verus! {

/// The well-known metadata of an FLV stream. Numbers are IEEE-754 doubles,
/// held by their bit pattern.
#[derive(Clone, Debug, PartialEq, Eq)]
pub struct MetaData {
    pub audio_codec_id: u64,
    pub audio_data_rate: u64,
    pub audio_delay: u64,
    pub audio_sample_rate: u64,
    pub audio_samples_size: u64,
    pub can_seek_to_end: bool,
    pub creation_date: String,
    pub duration: u64,
    pub file_size: u64,
    pub frame_rate: u64,
    pub height: u64,
    pub stereo: bool,
    pub video_codec_id: u64,
    pub video_data_rate: u64,
    pub width: u64,
}

impl MetaData {
    pub fn new(
        audio_codec_id: u64,
        audio_data_rate: u64,
        audio_delay: u64,
        audio_sample_rate: u64,
        audio_samples_size: u64,
        can_seek_to_end: bool,
        creation_date: String,
        duration: u64,
        file_size: u64,
        frame_rate: u64,
        height: u64,
        stereo: bool,
        video_codec_id: u64,
        video_data_rate: u64,
        width: u64,
    ) -> (meta: Self)
        ensures
            meta == (MetaData {
                audio_codec_id,
                audio_data_rate,
                audio_delay,
                audio_sample_rate,
                audio_samples_size,
                can_seek_to_end,
                creation_date,
                duration,
                file_size,
                frame_rate,
                height,
                stereo,
                video_codec_id,
                video_data_rate,
                width,
            }),
    {
        Self {
            audio_codec_id,
            audio_data_rate,
            audio_delay,
            audio_sample_rate,
            audio_samples_size,
            can_seek_to_end,
            creation_date,
            duration,
            file_size,
            frame_rate,
            height,
            stereo,
            video_codec_id,
            video_data_rate,
            width,
        }
    }
}

/// An XMP packet.
#[derive(Clone, Debug, PartialEq, Eq)]
pub struct XMPData {
    pub xmp: String,
}

impl XMPData {
    pub fn new(xmp: String) -> (data: Self)
        ensures
            data.xmp == xmp,
    {
        Self { xmp }
    }
}

/// The value of the first property of `props` that is named `key`.
pub open spec fn find_value(props: Seq<PropModel>, key: Seq<char>) -> Option<ValueModel>
    decreases props.len(),
{
    if props.len() == 0 {
        None
    } else if props[0].name.data == key {
        Some(props[0].value)
    } else {
        find_value(props.skip(1), key)
    }
}

/// The number that `props` gives for `key`: the bit pattern of the first
/// property of that name, if its value is a number.
pub open spec fn find_number(props: Seq<PropModel>, key: Seq<char>) -> Option<u64> {
    match find_value(props, key) {
        Some(ValueModel::Number(bits)) => Some(bits),
        _ => None,
    }
}

/// The text that `props` gives for `key`: that of the first property of that
/// name, if its value is a string of either length width.
pub open spec fn find_text(props: Seq<PropModel>, key: Seq<char>) -> Option<Seq<char>> {
    match find_value(props, key) {
        Some(ValueModel::String(text)) => Some(text.data),
        Some(ValueModel::LongString(text)) => Some(text.data),
        _ => None,
    }
}

/// The properties of a script tag, as they came.
#[derive(Debug, PartialEq, Eq)]
pub struct RawMetaData {
    pub properties: Vec<ScriptDataObjectProp>,
}

impl View for RawMetaData {
    type V = Seq<PropModel>;

    open spec fn view(&self) -> Seq<PropModel> {
        props_view(self.properties@)
    }
}

impl RawMetaData {
    /// The properties of the associative array of `body`.
    pub fn new(body: ScriptTagBody) -> (meta: Self)
        ensures
            meta == (RawMetaData { properties: body.value.properties }),
            meta@ == body@.value.properties,
    {
        RawMetaData { properties: body.value.properties }
    }

    /// The index of the first property named `key`.
    fn position(&self, key: &str) -> (found: Option<usize>)
        ensures
            match found {
                Some(i) => i < self.properties.len() && find_value(self@, key@) == Some(
                    self@[i as int].value,
                ),
                None => find_value(self@, key@) is None,
            },
    {
        let wanted = String::from_str(key);
        let mut i: usize = 0;
        assert(self@.skip(0) =~= self@);
        while i < self.properties.len()
            invariant
                i <= self.properties.len(),
                wanted@ == key@,
                find_value(self@, key@) == find_value(self@.skip(i as int), key@),
            decreases self.properties.len() - i,
        {
            let ghost tail = self@.skip(i as int);
            assert(tail[0] == self@[i as int]);
            assert(tail.skip(1) =~= self@.skip(i as int + 1));
            if self.properties[i].name.data == wanted {
                return Some(i);
            }
            i += 1;
        }
        None
    }

    /// The number named `key`, as the bit pattern of a double.
    pub fn try_get_number(&self, key: &str) -> (number: Option<u64>)
        ensures
            number == find_number(self@, key@),
    {
        match self.position(key) {
            Some(i) => match &self.properties[i].value {
                ScriptData::Number(bits) => Some(*bits),
                _ => None,
            },
            None => None,
        }
    }

    /// The text named `key`.
    pub fn try_get_string(&self, key: &str) -> (text: Option<String>)
        ensures
            text is Some == find_text(self@, key@) is Some,
            text matches Some(found) ==> find_text(self@, key@) == Some(found@),
    {
        match self.position(key) {
            Some(i) => match &self.properties[i].value {
                ScriptData::String(text) => Some(text.data.clone()),
                ScriptData::LongString(text) => Some(text.data.clone()),
                _ => None,
            },
            None => None,
        }
    }
}

} // verus!
