//! One demultiplexed unit of an FLV stream.
use vstd::prelude::*;
use crate::error::FlvError;
use crate::flv::header::{EncryptionTagHeader, FilterParameters, TagHeader};
use crate::flv::script::{ScriptBodyModel, ScriptTagBody};

verus! {

/// The kind of a tag, from the five type bits of its first byte.
#[derive(Clone, Copy, Debug, PartialEq, Eq, Structural)]
pub enum TagType {
    Audio,
    Video,
    Script,
    Encryption,
}

/// The kind that the type code `code` names, if any.
pub open spec fn tag_type_of(code: u8) -> Result<TagType, FlvError> {
    if code == 8 {
        Ok(TagType::Audio)
    } else if code == 9 {
        Ok(TagType::Video)
    } else if code == 18 {
        Ok(TagType::Script)
    } else {
        Err(FlvError::InvalidTagType)
    }
}

impl TagType {
    /// 8 is audio, 9 is video, 18 is script; any other code is
    /// `InvalidTagType`.
    pub fn from(tag_type: u8) -> (res: Result<TagType, FlvError>)
        ensures
            res == tag_type_of(tag_type),
    {
        match tag_type {
            8 => Ok(TagType::Audio),
            9 => Ok(TagType::Video),
            18 => Ok(TagType::Script),
            _ => Err(FlvError::InvalidTagType),
        }
    }
}

/// The payload of a tag whose filter flag is clear.
#[derive(Debug, PartialEq, Eq)]
pub enum NormalTagBody {
    Audio(Vec<u8>),
    Video(Vec<u8>),
    Script(ScriptTagBody),
    Placeholder,
}

/// The payload of a tag whose filter flag is set. Such payloads are not
/// decoded: every filtered tag carries `Placeholder`.
#[derive(Debug, PartialEq, Eq)]
pub enum EncryptedTagBody {
    Audio(Vec<u8>),
    Video(Vec<u8>),
    Script(ScriptTagBody),
    Placeholder,
}

/// The payload of a tag.
#[derive(Debug, PartialEq, Eq)]
pub enum TagBody {
    Normal(NormalTagBody),
    Encrypted(EncryptedTagBody),
}

/// Model of a payload: bytes as a sequence, script data as its model.
pub enum PayloadModel {
    Audio(Seq<u8>),
    Video(Seq<u8>),
    Script(ScriptBodyModel),
    Placeholder,
}

/// Model of a tag's body.
pub enum TagBodyModel {
    Normal(PayloadModel),
    Encrypted(PayloadModel),
}

impl View for NormalTagBody {
    type V = PayloadModel;

    open spec fn view(&self) -> PayloadModel {
        match self {
            NormalTagBody::Audio(bytes) => PayloadModel::Audio(bytes@),
            NormalTagBody::Video(bytes) => PayloadModel::Video(bytes@),
            NormalTagBody::Script(body) => PayloadModel::Script(body@),
            NormalTagBody::Placeholder => PayloadModel::Placeholder,
        }
    }
}

impl View for EncryptedTagBody {
    type V = PayloadModel;

    open spec fn view(&self) -> PayloadModel {
        match self {
            EncryptedTagBody::Audio(bytes) => PayloadModel::Audio(bytes@),
            EncryptedTagBody::Video(bytes) => PayloadModel::Video(bytes@),
            EncryptedTagBody::Script(body) => PayloadModel::Script(body@),
            EncryptedTagBody::Placeholder => PayloadModel::Placeholder,
        }
    }
}

impl View for TagBody {
    type V = TagBodyModel;

    open spec fn view(&self) -> TagBodyModel {
        match self {
            TagBody::Normal(body) => TagBodyModel::Normal(body@),
            TagBody::Encrypted(body) => TagBodyModel::Encrypted(body@),
        }
    }
}

/// One tag of the stream.
#[derive(Debug, PartialEq, Eq)]
pub struct Tag {
    /// Whether the payload is filtered (encrypted).
    pub filter: bool,
    pub tag_type: TagType,
    /// The declared length of typed header and payload together.
    pub data_size: u32,
    /// The 24-bit timestamp as it stood in the stream.
    pub timestamp_short: u32,
    pub timestamp_extended: u8,
    /// The 32-bit timestamp: `timestamp_short` below `timestamp_extended`.
    pub timestamp: u32,
    pub stream_id: u32,
    pub tag_header: TagHeader,
    pub encryption_tag_header: Option<EncryptionTagHeader>,
    pub filter_parameters: Option<FilterParameters>,
    pub tag_body: TagBody,
}

/// Model of a tag.
pub struct TagModel {
    pub filter: bool,
    pub tag_type: TagType,
    pub data_size: u32,
    pub timestamp_short: u32,
    pub timestamp_extended: u8,
    pub timestamp: u32,
    pub stream_id: u32,
    pub tag_header: TagHeader,
    pub encryption_tag_header: Option<EncryptionTagHeader>,
    pub filter_parameters: Option<FilterParameters>,
    pub tag_body: TagBodyModel,
}

impl View for Tag {
    type V = TagModel;

    open spec fn view(&self) -> TagModel {
        TagModel {
            filter: self.filter,
            tag_type: self.tag_type,
            data_size: self.data_size,
            timestamp_short: self.timestamp_short,
            timestamp_extended: self.timestamp_extended,
            timestamp: self.timestamp,
            stream_id: self.stream_id,
            tag_header: self.tag_header,
            encryption_tag_header: self.encryption_tag_header,
            filter_parameters: self.filter_parameters,
            tag_body: self.tag_body@,
        }
    }
}

impl Tag {
    pub fn new(
        filter: bool,
        tag_type: TagType,
        data_size: u32,
        timestamp_short: u32,
        timestamp_extended: u8,
        timestamp: u32,
        stream_id: u32,
        tag_header: TagHeader,
        tag_body: TagBody,
        encryption_tag_header: Option<EncryptionTagHeader>,
        filter_parameters: Option<FilterParameters>,
    ) -> (tag: Self)
        ensures
            tag@ == (TagModel {
                filter,
                tag_type,
                data_size,
                timestamp_short,
                timestamp_extended,
                timestamp,
                stream_id,
                tag_header,
                encryption_tag_header,
                filter_parameters,
                tag_body: tag_body@,
            }),
            tag == (Tag {
                filter,
                tag_type,
                data_size,
                timestamp_short,
                timestamp_extended,
                timestamp,
                stream_id,
                tag_header,
                encryption_tag_header,
                filter_parameters,
                tag_body,
            }),
    {
        Self {
            filter,
            tag_type,
            data_size,
            timestamp_short,
            timestamp_extended,
            timestamp,
            stream_id,
            tag_header,
            tag_body,
            encryption_tag_header,
            filter_parameters,
        }
    }
}

} // verus!
