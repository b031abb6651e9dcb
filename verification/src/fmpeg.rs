//! The fragmented-MP4 side: codec parsers, the remux context and the remuxer.
pub mod parser;
pub mod remux_context;
pub mod remuxer;
