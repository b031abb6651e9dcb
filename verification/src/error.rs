//! The failure conditions shared by every component.
use vstd::prelude::*;

verus! {

/// Why an operation of this crate failed.
#[derive(Clone, Copy, Debug, PartialEq, Eq, Structural)]
pub enum FlvError {
    /// A bit index above 7 was asked of a single byte.
    IndexOutOfRange,
    /// Fewer bytes are buffered than the requested field needs.
    InsufficientData,
    /// The file header is truncated or does not start with `FLV`.
    MalformedHeader,
    /// The 5-bit tag type is none of audio, video or script.
    InvalidTagType,
    /// A previous-tag-size field disagrees with the size of the tag before it.
    FrameSizeMismatch,
    /// The declared data size of a tag is not the length of its typed header
    /// and payload.
    DataSizeMismatch,
    /// A script-data sub-parser met a marker other than its own.
    InvalidTypeMarker,
    /// A script-data string is not valid UTF-8.
    InvalidUtf8,
    /// A codec parser was handed a tag of another kind.
    TagKindMismatch,
    /// The codec, or the packet type within it, is not handled.
    UnsupportedCodec,
    /// An MP3 frame does not start with the eleven-bit sync word.
    SyncWordMismatch,
    /// An MP3 frame header carries the reserved version or layer code.
    ReservedValue,
    /// A codec sequence header arrived after the stream was configured.
    SequenceHeaderAfterConfig,
    /// The destination of a message has no open channel.
    ChannelClosed,
    /// The consumer asked for output while none was queued.
    NoDataAvailable,
}

} // verus!
