//! The FLV container: file header, tags, script data, the decoder and the
//! demuxer, and what holds of every decoding.
pub mod decoder;
pub mod demuxer;
pub mod framing;
pub mod header;
pub mod meta;
pub mod script;
pub mod script_laws;
pub mod stream_laws;
pub mod tag;
