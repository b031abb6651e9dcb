//! Single-bit and bit-range access to one byte.
//!
//! Bits are numbered by significance: index 0 is the least significant bit,
//! index 7 the most significant one.
use vstd::prelude::*;
use vstd::arithmetic::power2::pow2;
use crate::error::FlvError;

verus! {

/// Bit `index` of `byte`, counted from the least significant bit.
pub open spec fn bit_of(byte: u8, index: nat) -> bool {
    (byte as nat / pow2(index)) % 2 == 1
}

/// The bits `start..=end` of `byte` as a number, bit `start` being its least
/// significant bit; zero for the empty range that has `start` above `end`.
pub open spec fn bits_of(byte: u8, start: nat, end: nat) -> nat {
    if start <= end {
        (byte as nat / pow2(start)) % pow2((end - start + 1) as nat)
    } else {
        0
    }
}

/// `pow2` on the exponents that occur within a byte.
pub proof fn lemma_pow2_small()
    ensures
        pow2(0) == 1,
        pow2(1) == 2,
        pow2(2) == 4,
        pow2(3) == 8,
        pow2(4) == 16,
        pow2(5) == 32,
        pow2(6) == 64,
        pow2(7) == 128,
        pow2(8) == 256,
{
    vstd::arithmetic::power2::lemma2_to64();
}

/// Testing a bit with a mask is testing the parity of the shifted byte, and
/// shifting right is dividing by the matching power of two.
proof fn lemma_shift_is_division(byte: u8, index: u8)
    by (bit_vector)
    requires
        index <= 7,
    ensures
        (byte & (1u8 << index)) != 0 <==> ((byte >> index) % 2 == 1),
        index == 0 ==> (byte >> index) == byte,
        index == 1 ==> (byte >> index) == byte / 2,
        index == 2 ==> (byte >> index) == byte / 4,
        index == 3 ==> (byte >> index) == byte / 8,
        index == 4 ==> (byte >> index) == byte / 16,
        index == 5 ==> (byte >> index) == byte / 32,
        index == 6 ==> (byte >> index) == byte / 64,
        index == 7 ==> (byte >> index) == byte / 128,
{
}

/// Keeping the low bits with a mask is taking the remainder by the matching
/// power of two.
proof fn lemma_mask_is_remainder(value: u8, drop: u8)
    by (bit_vector)
    requires
        drop <= 7,
    ensures
        drop == 7 ==> (value & (0xffu8 >> drop)) == value % 2,
        drop == 6 ==> (value & (0xffu8 >> drop)) == value % 4,
        drop == 5 ==> (value & (0xffu8 >> drop)) == value % 8,
        drop == 4 ==> (value & (0xffu8 >> drop)) == value % 16,
        drop == 3 ==> (value & (0xffu8 >> drop)) == value % 32,
        drop == 2 ==> (value & (0xffu8 >> drop)) == value % 64,
        drop == 1 ==> (value & (0xffu8 >> drop)) == value % 128,
        drop == 0 ==> (value & (0xffu8 >> drop)) == value,
{
}

/// Shifting right by `index` is dividing by `pow2(index)`.
proof fn lemma_shifted_value(byte: u8, index: u8)
    requires
        index <= 7,
    ensures
        (byte >> index) as nat == byte as nat / pow2(index as nat),
{
    lemma_pow2_small();
    lemma_shift_is_division(byte, index);
    if index == 0 {
    } else if index == 1 {
    } else if index == 2 {
    } else if index == 3 {
    } else if index == 4 {
    } else if index == 5 {
    } else if index == 6 {
    } else {
        assert(index == 7);
    }
}

/// Keeping the low `width` bits is taking the remainder by `pow2(width)`.
proof fn lemma_masked_value(value: u8, width: u8)
    requires
        1 <= width <= 8,
    ensures
        (value & (0xffu8 >> ((8 - width) as u8))) as nat == value as nat % pow2(width as nat),
{
    lemma_pow2_small();
    lemma_mask_is_remainder(value, (8 - width) as u8);
    if width == 1 {
    } else if width == 2 {
    } else if width == 3 {
    } else if width == 4 {
    } else if width == 5 {
    } else if width == 6 {
    } else if width == 7 {
    } else {
        assert(width == 8);
    }
}

/// A byte opened for bit-level reading.
pub struct BitIO {
    byte: u8,
}

impl View for BitIO {
    type V = u8;

    closed spec fn view(&self) -> u8 {
        self.byte
    }
}

impl BitIO {
    pub fn new(byte: u8) -> (io: BitIO)
        ensures
            io@ == byte,
    {
        BitIO { byte }
    }

    /// The least significant bit.
    pub fn read(&self) -> (bit: bool)
        ensures
            bit == bit_of(self@, 0),
    {
        proof {
            lemma_pow2_small();
            lemma_shift_is_division(self.byte, 0);
            assert(1u8 << 0u8 == 1u8) by (bit_vector);
        }
        (self.byte & 1) != 0
    }

    /// The bit at `index`.
    pub fn read_bit(&self, index: usize) -> (bit: bool)
        requires
            index <= 7,
        ensures
            bit == bit_of(self@, index as nat),
    {
        let shift: u8 = index as u8;
        proof {
            lemma_shift_is_division(self.byte, shift);
            lemma_shifted_value(self.byte, shift);
        }
        (self.byte & (1u8 << shift)) != 0
    }

    /// The bit at `index`, or `IndexOutOfRange` when a byte has no such bit.
    pub fn read_bit_safe(&self, index: usize) -> (res: Result<bool, FlvError>)
        ensures
            index <= 7 ==> res == Ok::<bool, FlvError>(bit_of(self@, index as nat)),
            index > 7 ==> res == Err::<bool, FlvError>(FlvError::IndexOutOfRange),
    {
        if index > 7 {
            Err(FlvError::IndexOutOfRange)
        } else {
            Ok(self.read_bit(index))
        }
    }

    /// The bits `start..=end`, shifted down so that bit `start` becomes bit 0;
    /// zero where `start` is above `end`.
    pub fn read_range(&self, start: usize, end: usize) -> (value: u8)
        requires
            start <= 7,
            end <= 7,
        ensures
            value == bits_of(self@, start as nat, end as nat),
    {
        if start > end {
            return 0;
        }
        let low: u8 = start as u8;
        let drop: u8 = (7 - (end - start)) as u8;
        let shifted: u8 = self.byte >> low;
        proof {
            lemma_shifted_value(self.byte, low);
            lemma_masked_value(shifted, (end - start + 1) as u8);
        }
        shifted & (0xffu8 >> drop)
    }
}

} // verus!
