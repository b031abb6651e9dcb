//! Streaming conversion of Flash Video (FLV) into fragmented MP4.
//!
//! Bytes are pushed into a decoder, which frames them into typed tags; the
//! remuxer gathers the stream's configuration from header, metadata and
//! codec parameters and says what the box encoder has to serialize: the
//! initialization segment once, then one fragment per media sample. The
//! components talk through an exchange that routes envelopes by
//! destination.
//!
//! The modules, leaf first:
//! - `io`: bits of a byte, numbers as byte strings, doubles as bit patterns;
//! - `flv`: file header, tags, script data, the decoder and the demuxer;
//! - `fmpeg`: codec parsers, the remux context and the remuxer;
//! - `exchange`: the router and the messages;
//! - `sink`: the core, which hands out the finished buffers.
use vstd::prelude::*;

pub mod error;
pub mod exchange;
pub mod flv;
pub mod fmpeg;
pub mod io;
pub mod sink;

verus! {

/// Sum of two unsigned integers that is known not to overflow.
pub fn add(left: u64, right: u64) -> (sum: u64)
    requires
        left + right <= u64::MAX,
    ensures
        sum == left + right,
{
    left + right
}

} // verus!
