//! Numbers as byte strings, and the outcome of reading from the front of one.
use vstd::prelude::*;
use crate::error::FlvError;

verus! {

/// `256` to the power `n`: the weight of the byte `n` places above the lowest.
pub open spec fn radix(n: nat) -> nat
    decreases n,
{
    if n == 0 {
        1
    } else {
        256 * radix((n - 1) as nat)
    }
}

/// The number that `bytes` spell with the most significant byte first.
pub open spec fn be_value(bytes: Seq<u8>) -> nat
    decreases bytes.len(),
{
    if bytes.len() == 0 {
        0
    } else {
        be_value(bytes.drop_last()) * 256 + bytes.last() as nat
    }
}

/// The number that `bytes` spell with the least significant byte first.
pub open spec fn le_value(bytes: Seq<u8>) -> nat
    decreases bytes.len(),
{
    if bytes.len() == 0 {
        0
    } else {
        le_value(bytes.drop_last()) + bytes.last() as nat * radix((bytes.len() - 1) as nat)
    }
}

/// The signed reading of `value` as a two's-complement number modulo
/// `modulus`.
pub open spec fn twos_complement(value: nat, modulus: nat) -> int {
    if 2 * value >= modulus {
        value - modulus
    } else {
        value as int
    }
}

/// The weights of the first eight byte positions.
pub proof fn lemma_radix_values()
    ensures
        radix(0) == 1,
        radix(1) == 0x100,
        radix(2) == 0x1_0000,
        radix(3) == 0x100_0000,
        radix(4) == 0x1_0000_0000,
        radix(5) == 0x100_0000_0000,
        radix(6) == 0x1_0000_0000_0000,
        radix(7) == 0x100_0000_0000_0000,
        radix(8) == 0x1_0000_0000_0000_0000,
{
    reveal_with_fuel(radix, 10);
}

/// A big-endian number of `n` bytes is below `256^n`.
pub proof fn lemma_be_value_bound(bytes: Seq<u8>)
    ensures
        be_value(bytes) < radix(bytes.len()),
    decreases bytes.len(),
{
    if bytes.len() > 0 {
        lemma_be_value_bound(bytes.drop_last());
    }
}

/// A little-endian number of `n` bytes is below `256^n`.
pub proof fn lemma_le_value_bound(bytes: Seq<u8>)
    ensures
        le_value(bytes) < radix(bytes.len()),
    decreases bytes.len(),
{
    if bytes.len() > 0 {
        lemma_le_value_bound(bytes.drop_last());
        let w = radix((bytes.len() - 1) as nat);
        assert(bytes.last() as nat * w <= 255 * w) by (nonlinear_arith)
            requires
                bytes.last() as nat <= 255,
        ;
    }
}

/// What a read leaves behind: its outcome and the bytes not yet consumed.
pub struct Parsed<T> {
    pub result: Result<T, FlvError>,
    pub rest: Seq<u8>,
}

/// A successful read of `value` that leaves `rest`.
pub open spec fn parsed_ok<T>(value: T, rest: Seq<u8>) -> Parsed<T> {
    Parsed { result: Ok(value), rest }
}

/// A read that failed with `error` when `rest` was still buffered.
pub open spec fn parsed_err<T>(error: FlvError, rest: Seq<u8>) -> Parsed<T> {
    Parsed { result: Err(error), rest }
}

/// The model of an executable outcome: the view of the value, or the error.
pub open spec fn result_view<T: View>(res: Result<T, FlvError>) -> Result<T::V, FlvError> {
    match res {
        Ok(value) => Ok(value@),
        Err(error) => Err(error),
    }
}

/// One byte off the front, or `InsufficientData` with nothing consumed.
pub open spec fn take_u8(bytes: Seq<u8>) -> Parsed<u8> {
    if bytes.len() < 1 {
        parsed_err(FlvError::InsufficientData, bytes)
    } else {
        parsed_ok(bytes[0], bytes.skip(1))
    }
}

/// A big-endian number of `count` bytes off the front, or `InsufficientData`
/// with nothing consumed.
pub open spec fn take_be(bytes: Seq<u8>, count: nat) -> Parsed<nat> {
    if bytes.len() < count {
        parsed_err(FlvError::InsufficientData, bytes)
    } else {
        parsed_ok(be_value(bytes.take(count as int)), bytes.skip(count as int))
    }
}

/// `count` bytes off the front, or `InsufficientData` with nothing consumed.
pub open spec fn take_bytes(bytes: Seq<u8>, count: nat) -> Parsed<Seq<u8>> {
    if bytes.len() < count {
        parsed_err(FlvError::InsufficientData, bytes)
    } else {
        parsed_ok(bytes.take(count as int), bytes.skip(count as int))
    }
}

/// The weights grow with the position.
pub proof fn lemma_radix_monotone(low: nat, high: nat)
    requires
        low <= high,
    ensures
        radix(low) <= radix(high),
    decreases high,
{
    if low < high {
        lemma_radix_monotone(low, (high - 1) as nat);
    }
}

} // verus!
