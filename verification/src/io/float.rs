//! IEEE-754 doubles by their bit pattern.
//!
//! Script data carries its numbers as doubles. This module reads such a bit
//! pattern with integer arithmetic alone and converts it to an unsigned
//! integer the way a saturating numeric cast does, optionally after
//! multiplying by a small whole factor under round-to-nearest-even.
use vstd::arithmetic::div_mod::{lemma_basic_div, lemma_div_denominator};
use vstd::arithmetic::power2::{
    lemma2_to64, lemma_pow2_pos, lemma_pow2_strictly_increases, lemma_pow2_unfold, pow2,
};
use vstd::prelude::*;

verus! {

/// The weight of the hidden bit of a double: two to the power 52.
pub const HIDDEN_BIT: u64 = 0x10_0000_0000_0000;

/// The first number that does not fit a 53-bit significand.
pub const SIGNIFICAND_LIMIT: u64 = 0x20_0000_0000_0000;

/// The biased exponent at which the last significand bit weighs one.
pub const UNIT_EXPONENT: u32 = 1075;

/// Whether the sign bit of `bits` is set.
pub open spec fn f64_negative(bits: u64) -> bool {
    bits >= 0x8000_0000_0000_0000
}

/// The eleven exponent bits of `bits`.
pub open spec fn f64_exponent(bits: u64) -> nat {
    ((bits / HIDDEN_BIT) % 0x800) as nat
}

/// The 52 fraction bits of `bits`.
pub open spec fn f64_fraction(bits: u64) -> nat {
    (bits % HIDDEN_BIT) as nat
}

/// Whether `bits` is a NaN.
pub open spec fn f64_is_nan(bits: u64) -> bool {
    f64_exponent(bits) == 0x7FF && f64_fraction(bits) != 0
}

/// Whether `bits` is an infinity.
pub open spec fn f64_is_infinite(bits: u64) -> bool {
    f64_exponent(bits) == 0x7FF && f64_fraction(bits) == 0
}

/// The significand of a finite double, with the hidden bit where it has one.
pub open spec fn f64_significand(bits: u64) -> nat {
    if f64_exponent(bits) == 0 {
        f64_fraction(bits)
    } else {
        HIDDEN_BIT as nat + f64_fraction(bits)
    }
}

/// The biased exponent that weighs the significand: the magnitude of a
/// finite double is `f64_significand * 2^(f64_weight - 1075)`.
pub open spec fn f64_weight(bits: u64) -> nat {
    if f64_exponent(bits) == 0 {
        1
    } else {
        f64_exponent(bits)
    }
}

/// How many low bits `p` has beyond a 53-bit significand.
pub open spec fn excess_bits(p: nat) -> nat
    decreases p,
{
    if p < SIGNIFICAND_LIMIT {
        0
    } else {
        1 + excess_bits(p / 2)
    }
}

/// `p` rounded to 53 significant bits, a tie going to the even significand.
pub open spec fn round_to_significand(p: nat) -> nat {
    let unit = pow2(excess_bits(p));
    let q = p / unit;
    let r = p % unit;
    if 2 * r > unit || (2 * r == unit && q % 2 == 1) {
        (q + 1) * unit
    } else {
        q * unit
    }
}

/// The whole part of `p * 2^(weight - 1075)`.
pub open spec fn weighted_floor(p: nat, weight: nat) -> nat {
    if weight >= UNIT_EXPONENT {
        p * pow2((weight - UNIT_EXPONENT) as nat)
    } else {
        p / pow2((UNIT_EXPONENT - weight) as nat)
    }
}

/// The double `bits` times `factor`, rounded as binary64 multiplication
/// rounds, then cut to a whole number and held within `0..=max`: zero for a
/// NaN and for anything negative, `max` for what lies above it.
pub open spec fn f64_times_to_unsigned(bits: u64, factor: nat, max: nat) -> nat {
    if f64_is_nan(bits) || f64_negative(bits) {
        0
    } else if f64_is_infinite(bits) {
        max
    } else {
        let whole = weighted_floor(
            round_to_significand(f64_significand(bits) * factor),
            f64_weight(bits),
        );
        if whole > max {
            max
        } else {
            whole
        }
    }
}

/// Two to the power `k`.
fn power_of_two(k: u32) -> (power: u64)
    requires
        k < 64,
    ensures
        power == pow2(k as nat),
{
    let mut power: u64 = 1;
    let mut i: u32 = 0;
    proof {
        lemma2_to64();
    }
    while i < k
        invariant
            i <= k < 64,
            power == pow2(i as nat),
        decreases k - i,
    {
        proof {
            lemma_pow2_unfold((i + 1) as nat);
            lemma_pow2_strictly_increases((i + 1) as nat, 64);
            lemma_pow2_64();
        }
        power = power * 2;
        i += 1;
    }
    power
}

/// Two to the power 64.
proof fn lemma_pow2_64()
    ensures
        pow2(64) == 0x1_0000_0000_0000_0000,
{
    vstd::arithmetic::power2::lemma2_to64_rest();
}

/// Rounds `p` to 53 significant bits.
fn round_significand(p: u64) -> (rounded: u64)
    requires
        p < 0x8000_0000_0000_0000,
    ensures
        rounded == round_to_significand(p as nat),
        rounded <= 0x8000_0000_0000_0000,
{
    let mut q: u64 = p;
    let mut unit: u64 = 1;
    let mut d: u32 = 0;
    proof {
        lemma2_to64();
    }
    while q >= SIGNIFICAND_LIMIT
        invariant
            unit == pow2(d as nat),
            unit >= 1,
            q == p / unit,
            q * unit <= p,
            p < 0x8000_0000_0000_0000,
            excess_bits(p as nat) == d + excess_bits(q as nat),
            d <= 10,
        decreases q,
    {
        proof {
            lemma_pow2_unfold((d + 1) as nat);
            lemma_div_denominator(p as int, unit as int, 2);
            assert(q as int * unit as int >= 0x20_0000_0000_0000 * unit as int) by (nonlinear_arith)
                requires
                    q >= 0x20_0000_0000_0000,
                    unit >= 1,
            ;
            assert(unit < 1024);
            assert(d < 10) by {
                lemma2_to64();
                if d > 10 {
                    lemma_pow2_strictly_increases(10, d as nat);
                }
            }
            assert((q / 2) as int * (unit * 2) as int <= p) by (nonlinear_arith)
                requires
                    q as int * unit as int <= p,
                    unit >= 1,
                    q >= 0,
            ;
        }
        q = q / 2;
        unit = unit * 2;
        d += 1;
    }
    let r: u64 = p % unit;
    assert(unit <= 1024) by {
        lemma_pow2_strictly_increases(d as nat, 11);
        lemma2_to64();
    }
    assert(q < 0x20_0000_0000_0000);
    assert((q + 1) * unit <= 0x8000_0000_0000_0000) by (nonlinear_arith)
        requires
            q < 0x20_0000_0000_0000,
            1 <= unit <= 1024,
    ;
    assert(q * unit <= 0x8000_0000_0000_0000) by (nonlinear_arith)
        requires
            q < 0x20_0000_0000_0000,
            1 <= unit <= 1024,
    ;
    if 2 * r > unit || (2 * r == unit && q % 2 == 1) {
        (q + 1) * unit
    } else {
        q * unit
    }
}

/// The whole part of `p * 2^(weight - 1075)`, held at `max`.
fn weigh(p: u64, weight: u32, max: u32) -> (whole: u32)
    requires
        p <= 0x8000_0000_0000_0000,
        1 <= weight <= 0x7FE,
    ensures
        whole == if weighted_floor(p as nat, weight as nat) > max {
            max as nat
        } else {
            weighted_floor(p as nat, weight as nat)
        },
{
    proof {
        lemma2_to64();
    }
    if weight >= UNIT_EXPONENT {
        let shift: u32 = weight - UNIT_EXPONENT;
        if p == 0 {
            assert(0 * pow2(shift as nat) == 0) by (nonlinear_arith);
            0
        } else if shift >= 32 {
            proof {
                if shift > 32 {
                    lemma_pow2_strictly_increases(32, shift as nat);
                }
                assert(p as nat * pow2(shift as nat) >= pow2(shift as nat)) by (nonlinear_arith)
                    requires
                        p >= 1,
                ;
            }
            max
        } else {
            let unit: u64 = power_of_two(shift);
            proof {
                lemma_pow2_strictly_increases(shift as nat, 32);
                assert(p as nat * unit as nat <= 0x8000_0000_0000_0000 * 0x1_0000_0000)
                    by (nonlinear_arith)
                    requires
                        p <= 0x8000_0000_0000_0000,
                        unit <= 0x1_0000_0000,
                ;
            }
            let wide: u128 = p as u128 * unit as u128;
            if wide > max as u128 {
                max
            } else {
                wide as u32
            }
        }
    } else {
        let shift: u32 = UNIT_EXPONENT - weight;
        if shift >= 64 {
            proof {
                lemma_pow2_64();
                if shift > 64 {
                    lemma_pow2_strictly_increases(64, shift as nat);
                }
                lemma_basic_div(p as int, pow2(shift as nat) as int);
            }
            0
        } else {
            let unit: u64 = power_of_two(shift);
            proof {
                lemma_pow2_pos(shift as nat);
            }
            let whole: u64 = p / unit;
            if whole > max as u64 {
                max
            } else {
                whole as u32
            }
        }
    }
}

/// Converts the double `bits`, multiplied by `factor`, to a whole number of
/// at most `max`.
fn convert(bits: u64, factor: u32, max: u32) -> (value: u32)
    requires
        1 <= factor <= 1024,
    ensures
        value == f64_times_to_unsigned(bits, factor as nat, max as nat),
{
    let negative: bool = bits >= 0x8000_0000_0000_0000;
    let exponent: u32 = ((bits / HIDDEN_BIT) % 0x800) as u32;
    let fraction: u64 = bits % HIDDEN_BIT;
    if exponent == 0x7FF {
        if fraction != 0 || negative {
            0
        } else {
            max
        }
    } else if negative {
        0
    } else {
        let significand: u64 = if exponent == 0 {
            fraction
        } else {
            HIDDEN_BIT + fraction
        };
        let weight: u32 = if exponent == 0 {
            1
        } else {
            exponent
        };
        assert(significand * factor < 0x8000_0000_0000_0000) by (nonlinear_arith)
            requires
                significand < 0x20_0000_0000_0000,
                factor <= 1024,
        ;
        let rounded: u64 = round_significand(significand * factor as u64);
        weigh(rounded, weight, max)
    }
}

/// The double `bits` as a `u32`: what a saturating cast gives.
pub fn f64_to_u32(bits: u64) -> (value: u32)
    ensures
        value == f64_times_to_unsigned(bits, 1, u32::MAX as nat),
{
    convert(bits, 1, u32::MAX)
}

/// A thousand times the double `bits` as a `u32`: what multiplying by a
/// thousand and a saturating cast give.
pub fn f64_thousandfold_to_u32(bits: u64) -> (value: u32)
    ensures
        value == f64_times_to_unsigned(bits, 1000, u32::MAX as nat),
{
    convert(bits, 1000, u32::MAX)
}

/// The double `bits` as a `u8`: what a saturating cast gives.
pub fn f64_to_u8(bits: u64) -> (value: u8)
    ensures
        value == f64_times_to_unsigned(bits, 1, u8::MAX as nat),
{
    convert(bits, 1, 255) as u8
}

} // verus!
