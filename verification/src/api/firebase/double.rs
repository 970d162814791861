//! Integers as doubles.
//!
//! A JSON number written without a fraction is read as an integer. Where the
//! store says that such a number is a double, the value is the double nearest
//! to the integer, ties going to the even significand. A double is held as
//! its IEEE-754 bit pattern: one sign bit, eleven bits of exponent, and the
//! 52 bits of the significand below its leading one.
use vstd::arithmetic::div_mod::{
    lemma_div_denominator, lemma_div_is_ordered_by_denominator, lemma_fundamental_div_mod,
    lemma_mod_bound,
};
use vstd::arithmetic::power2::{
    lemma2_to64, lemma2_to64_rest, lemma_pow2_strictly_increases, lemma_pow2_unfold, pow2,
};
use vstd::prelude::*;

verus! {

/// The leading one of a significand: two to the power of 52.
pub const LEADING_ONE: u64 = 0x10_0000_0000_0000;

/// The sign bit of a double.
pub const SIGN_BIT: u64 = 0x8000_0000_0000_0000;

/// The exponent field of a double whose significand counts ones.
pub const UNIT_EXPONENT: u64 = 1075;

/// A magnitude below the leading one, doubled until it reaches it; each
/// doubling takes one from the exponent.
pub open spec fn widened(significand: int, exponent: int) -> (int, int)
    decreases 0x20_0000_0000_0000 - significand,
{
    if significand < 1 || significand >= 0x10_0000_0000_0000 {
        (significand, exponent)
    } else {
        widened(2 * significand, exponent - 1)
    }
}

/// The unit in which a large magnitude is counted: the least power of two
/// that leaves a quotient of at most 53 bits; each doubling of the unit adds
/// one to the exponent.
pub open spec fn rounding_unit(quotient: int, unit: int, exponent: int) -> (int, int)
    decreases quotient,
{
    if quotient < 0x20_0000_0000_0000 {
        (unit, exponent)
    } else {
        rounding_unit(quotient / 2, 2 * unit, exponent + 1)
    }
}

/// A magnitude counted in `unit`, to the nearest; a tie goes to the even
/// count.
pub open spec fn rounded(magnitude: int, unit: int) -> int {
    let count = magnitude / unit;
    let rest = magnitude % unit;
    if 2 * rest > unit || (2 * rest == unit && count % 2 == 1) {
        count + 1
    } else {
        count
    }
}

/// The significand and the exponent field of the double nearest to a
/// magnitude of at least one. The double is worth the significand times two
/// to the power of the exponent field less 1075.
pub open spec fn double_parts(magnitude: int) -> (int, int) {
    if magnitude < 0x20_0000_0000_0000 {
        widened(magnitude, 1075)
    } else {
        let (unit, exponent) = rounding_unit(magnitude, 1, 1075);
        (rounded(magnitude, unit), exponent)
    }
}

/// The bits of the double nearest to a magnitude: the exponent field above
/// the significand without its leading one. A significand that rounding
/// carried to 53 bits adds one to the exponent and leaves zeros.
pub open spec fn magnitude_bits(magnitude: int) -> int {
    if magnitude <= 0 {
        0
    } else {
        let (significand, exponent) = double_parts(magnitude);
        (exponent - 1) * 0x10_0000_0000_0000 + significand
    }
}

/// Widening keeps what the significand and the exponent are worth.
proof fn lemma_widened(significand: int, exponent: int)
    requires
        1 <= significand < 0x20_0000_0000_0000,
    ensures
        ({
            let (s, e) = widened(significand, exponent);
            &&& 0x10_0000_0000_0000 <= s < 0x20_0000_0000_0000
            &&& e <= exponent
            &&& s == significand * pow2((exponent - e) as nat)
        }),
    decreases 0x20_0000_0000_0000 - significand,
{
    if significand >= 0x10_0000_0000_0000 {
        lemma2_to64();
        assert(significand == significand * pow2(0)) by (nonlinear_arith)
            requires
                pow2(0) == 1,
        ;
    } else {
        lemma_widened(2 * significand, exponent - 1);
        let (s, e) = widened(2 * significand, exponent - 1);
        let below = pow2((exponent - 1 - e) as nat) as int;
        let above = pow2((exponent - e) as nat) as int;
        lemma_pow2_unfold((exponent - e) as nat);
        assert(s == significand * above) by (nonlinear_arith)
            requires
                s == (2 * significand) * below,
                above == 2 * below,
        ;
    }
}

/// The rounding unit is a power of two that leaves a quotient of 53 bits.
proof fn lemma_rounding_unit(magnitude: int, quotient: int, unit: int, exponent: int)
    requires
        unit >= 1,
        quotient == magnitude / unit,
        quotient >= 0x10_0000_0000_0000,
    ensures
        ({
            let (u, e) = rounding_unit(quotient, unit, exponent);
            &&& e >= exponent
            &&& u == unit * pow2((e - exponent) as nat)
            &&& u >= 1
            &&& 0x10_0000_0000_0000 <= magnitude / u < 0x20_0000_0000_0000
        }),
    decreases quotient,
{
    if quotient < 0x20_0000_0000_0000 {
        lemma2_to64();
        assert(unit == unit * pow2(0)) by (nonlinear_arith)
            requires
                pow2(0) == 1,
        ;
    } else {
        assert(magnitude >= 0) by (nonlinear_arith)
            requires
                unit >= 1,
                magnitude / unit >= 1,
        ;
        lemma_div_denominator(magnitude, unit, 2);
        lemma_rounding_unit(magnitude, quotient / 2, 2 * unit, exponent + 1);
        let (u, e) = rounding_unit(quotient / 2, 2 * unit, exponent + 1);
        let below = pow2((e - exponent - 1) as nat) as int;
        let above = pow2((e - exponent) as nat) as int;
        lemma_pow2_unfold((e - exponent) as nat);
        assert(u == unit * above) by (nonlinear_arith)
            requires
                u == (2 * unit) * below,
                above == 2 * below,
        ;
    }
}

/// The double of a magnitude is the nearest one. Its significand has 53
/// bits, or is the next power of two where rounding carried. Up to 53 bits
/// the double is worth the magnitude exactly. Above, the significand counts
/// a power of two as its unit, the double is no more than half a unit away
/// from the magnitude, and where it is exactly half a unit away, the
/// significand is even.
pub proof fn lemma_double_is_nearest(magnitude: int)
    requires
        magnitude >= 1,
    ensures
        ({
            let (significand, exponent) = double_parts(magnitude);
            &&& 0x10_0000_0000_0000 <= significand <= 0x20_0000_0000_0000
            &&& exponent <= 1075 ==> significand == magnitude * pow2((1075 - exponent) as nat)
            &&& exponent > 1075 ==> {
                let unit = pow2((exponent - 1075) as nat) as int;
                let off = significand * unit - magnitude;
                &&& -unit <= 2 * off <= unit
                &&& (2 * off == unit || 2 * off == -unit) ==> significand % 2 == 0
            }
        }),
{
    if magnitude < 0x20_0000_0000_0000 {
        lemma_widened(magnitude, 1075);
    } else {
        lemma_rounding_unit(magnitude, magnitude, 1, 1075);
        let (unit, exponent) = rounding_unit(magnitude, 1, 1075);
        let count = magnitude / unit;
        let rest = magnitude % unit;
        lemma_fundamental_div_mod(magnitude, unit);
        lemma_mod_bound(magnitude, unit);
        assert(unit == pow2((exponent - 1075) as nat)) by (nonlinear_arith)
            requires
                unit == 1 * pow2((exponent - 1075) as nat),
        ;
        assert(exponent > 1075) by {
            if exponent == 1075 {
                lemma2_to64();
            }
        }
        let significand = rounded(magnitude, unit);
        assert(significand * unit - magnitude == if significand == count {
            -rest
        } else {
            unit - rest
        }) by (nonlinear_arith)
            requires
                magnitude == unit * count + rest,
                significand == count || significand == count + 1,
        ;
    }
}

/// The bits of the double nearest to an integer.
pub open spec fn double_bits(i: int) -> int {
    if i >= 0 {
        magnitude_bits(i)
    } else {
        0x8000_0000_0000_0000 + magnitude_bits(-i)
    }
}

/// The bits of the double nearest to a magnitude.
pub fn magnitude_to_double_bits(magnitude: u64) -> (bits: u64)
    ensures
        bits == magnitude_bits(magnitude as int),
        bits < SIGN_BIT,
{
    if magnitude == 0 {
        return 0;
    }
    proof {
        lemma2_to64();
        lemma2_to64_rest();
    }
    if magnitude < 2 * LEADING_ONE {
        let mut significand: u64 = magnitude;
        let mut exponent: u64 = UNIT_EXPONENT;
        while significand < LEADING_ONE
            invariant
                significand >= 1,
                significand < 2 * LEADING_ONE,
                1023 <= exponent <= 1075,
                significand >= pow2((1075 - exponent) as nat),
                widened(significand as int, exponent as int) == widened(magnitude as int, 1075),
            decreases 2 * LEADING_ONE - significand,
        {
            proof {
                let doublings = (1075 - exponent) as nat;
                lemma2_to64_rest();
                if doublings >= 52 {
                    assert(doublings == 52);
                }
                lemma_pow2_unfold(doublings + 1);
            }
            significand = 2 * significand;
            exponent = exponent - 1;
        }
        (exponent - 1) * LEADING_ONE + significand
    } else {
        let mut quotient: u64 = magnitude;
        let mut unit: u64 = 1;
        let mut exponent: u64 = UNIT_EXPONENT;
        while quotient >= 2 * LEADING_ONE
            invariant
                1075 <= exponent <= 1086,
                unit == pow2((exponent - 1075) as nat),
                1 <= unit <= 2048,
                quotient == magnitude / unit,
                quotient >= LEADING_ONE,
                rounding_unit(quotient as int, unit as int, exponent as int) == rounding_unit(
                    magnitude as int,
                    1,
                    1075,
                ),
            decreases quotient,
        {
            proof {
                let doublings = (exponent - 1075) as nat;
                lemma2_to64();
                if unit >= 2048 {
                    lemma_div_is_ordered_by_denominator(magnitude as int, 2048, unit as int);
                }
                if doublings >= 11 {
                    if doublings > 11 {
                        lemma_pow2_strictly_increases(11, doublings);
                    }
                }
                lemma_pow2_unfold(doublings + 1);
                lemma_div_denominator(magnitude as int, unit as int, 2);
                if doublings + 1 < 11 {
                    lemma_pow2_strictly_increases(doublings + 1, 11);
                }
            }
            quotient = quotient / 2;
            unit = 2 * unit;
            exponent = exponent + 1;
        }
        let count: u64 = magnitude / unit;
        let rest: u64 = magnitude % unit;
        let up: bool = 2 * rest > unit || (2 * rest == unit && count % 2 == 1);
        let significand: u64 = if up {
            count + 1
        } else {
            count
        };
        (exponent - 1) * LEADING_ONE + significand
    }
}

/// The bits of the double nearest to an integer, as a conversion of the
/// integer to a double gives it.
pub fn i64_to_double_bits(i: i64) -> (bits: u64)
    ensures
        bits == double_bits(i as int),
{
    if i >= 0 {
        magnitude_to_double_bits(i as u64)
    } else {
        let magnitude: u64 = if i == i64::MIN {
            SIGN_BIT
        } else {
            (-i) as u64
        };
        SIGN_BIT + magnitude_to_double_bits(magnitude)
    }
}

} // verus!
