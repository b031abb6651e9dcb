//! Readers below the container: bits of a byte, numbers as byte strings,
//! and doubles as bit patterns.
pub mod bit;
pub mod bytes;
pub mod float;
