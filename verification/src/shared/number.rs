//! IEEE 754 binary64 numbers as bit patterns.
//!
//! A number is its 64 bits: one sign bit, eleven exponent bits and fifty-two
//! fraction bits. Sign changes, comparisons and the test for integral values
//! are decided here on the bits.
use vstd::prelude::*;
use vstd::arithmetic::power2::pow2;
use vstd::arithmetic::power2::lemma2_to64;
use vstd::arithmetic::power2::lemma2_to64_rest;
use vstd::arithmetic::power2::lemma_pow2_pos;
use vstd::arithmetic::power2::lemma_pow2_strictly_increases;
use vstd::bits::lemma_u64_shl_is_mul;
use vstd::bits::lemma_u64_shr_is_div;

verus! {

/// The sign bit.
pub const SIGN_MASK: u64 = 0x8000_0000_0000_0000;

/// Every bit but the sign.
pub const MAGNITUDE_MASK: u64 = 0x7FFF_FFFF_FFFF_FFFF;

/// The fifty-two fraction bits.
pub const FRACTION_MASK: u64 = 0x000F_FFFF_FFFF_FFFF;

/// Positive infinity; any larger magnitude is a NaN.
pub const INFINITY: u64 = 0x7FF0_0000_0000_0000;

/// The implicit leading bit of a normal number's significand.
pub const HIDDEN_BIT: u64 = 0x0010_0000_0000_0000;

/// The number 0.
pub const ZERO: u64 = 0;

/// The number 1.
pub const ONE: u64 = 0x3FF0_0000_0000_0000;

pub open spec fn magnitude(bits: u64) -> u64 {
    bits & MAGNITUDE_MASK
}

pub open spec fn is_negative(bits: u64) -> bool {
    bits & SIGN_MASK != 0
}

pub open spec fn is_nan(bits: u64) -> bool {
    magnitude(bits) > INFINITY
}

/// Both zeros, the positive and the negative one.
pub open spec fn is_zero(bits: u64) -> bool {
    magnitude(bits) == 0
}

/// An integer that orders the numbers that are not NaN as their values do.
pub open spec fn order_key(bits: u64) -> int {
    if is_negative(bits) {
        -(magnitude(bits) as int)
    } else {
        magnitude(bits) as int
    }
}

/// Numeric equality: no NaN equals anything, and the two zeros are equal.
pub open spec fn equal(a: u64, b: u64) -> bool {
    !is_nan(a) && !is_nan(b) && order_key(a) == order_key(b)
}

/// Numeric `<`: false as soon as one side is a NaN.
pub open spec fn less(a: u64, b: u64) -> bool {
    !is_nan(a) && !is_nan(b) && order_key(a) < order_key(b)
}

/// Numeric `<=`.
pub open spec fn less_equal(a: u64, b: u64) -> bool {
    !is_nan(a) && !is_nan(b) && order_key(a) <= order_key(b)
}

/// The number with the opposite sign.
pub open spec fn negated(bits: u64) -> u64 {
    bits ^ SIGN_MASK
}

pub open spec fn exponent(bits: u64) -> u64 {
    (bits >> 52) & 0x7FF
}

pub open spec fn fraction(bits: u64) -> u64 {
    bits & FRACTION_MASK
}

/// The significand of a normal number, as an integer: the hidden bit and the
/// fraction.
pub open spec fn significand(bits: u64) -> nat {
    (HIDDEN_BIT + fraction(bits)) as nat
}

/// A finite number whose value is an integer.
pub open spec fn is_integral(bits: u64) -> bool {
    let e = exponent(bits);
    if e == 0x7FF {
        false
    } else if e == 0 {
        fraction(bits) == 0
    } else if e >= 1075 {
        true
    } else if e < 1023 {
        false
    } else {
        significand(bits) % pow2((1075 - e) as nat) == 0
    }
}

/// The value of an integral number: significand times two to the unbiased
/// exponent less fifty-two.
pub open spec fn integral_value(bits: u64) -> int {
    let e = exponent(bits);
    let size: int = if e == 0 {
        0
    } else if e >= 1075 {
        (significand(bits) * pow2((e - 1075) as nat)) as int
    } else {
        significand(bits) as int / pow2((1075 - e) as nat) as int
    };
    if is_negative(bits) {
        -size
    } else {
        size
    }
}

/// The nearest `i64` to an integer.
pub open spec fn clamp_i64(value: int) -> i64 {
    if value < i64::MIN {
        i64::MIN
    } else if value > i64::MAX {
        i64::MAX
    } else {
        value as i64
    }
}

/// The largest integer up to which every integer is a double.
pub const EXACT_MAX: u64 = 0x0020_0000_0000_0000;

/// The value of a number that is integral, not negative and below
/// [`EXACT_MAX`]: one whose shortest decimal text is that of its integer
/// value.
pub open spec fn plain_integer(bits: u64) -> Option<int> {
    if is_integral(bits) && !is_negative(bits) && integral_value(bits) < EXACT_MAX {
        Some(integral_value(bits))
    } else {
        None
    }
}

pub fn number_is_nan(bits: u64) -> (r: bool)
    ensures
        r == is_nan(bits),
{
    (bits & MAGNITUDE_MASK) > INFINITY
}

pub fn number_is_zero(bits: u64) -> (r: bool)
    ensures
        r == is_zero(bits),
{
    (bits & MAGNITUDE_MASK) == 0
}

pub fn number_negate(bits: u64) -> (r: u64)
    ensures
        r == negated(bits),
{
    bits ^ SIGN_MASK
}

pub fn number_equal(a: u64, b: u64) -> (r: bool)
    ensures
        r == equal(a, b),
{
    if number_is_nan(a) || number_is_nan(b) {
        false
    } else {
        let size_a: u64 = a & MAGNITUDE_MASK;
        let size_b: u64 = b & MAGNITUDE_MASK;
        if size_a == 0 && size_b == 0 {
            true
        } else {
            size_a == size_b && ((a & SIGN_MASK) != 0) == ((b & SIGN_MASK) != 0)
        }
    }
}

pub fn number_less(a: u64, b: u64) -> (r: bool)
    ensures
        r == less(a, b),
{
    if number_is_nan(a) || number_is_nan(b) {
        false
    } else {
        let size_a: u64 = a & MAGNITUDE_MASK;
        let size_b: u64 = b & MAGNITUDE_MASK;
        if (a & SIGN_MASK) != 0 {
            if (b & SIGN_MASK) != 0 {
                size_a > size_b
            } else {
                size_a != 0 || size_b != 0
            }
        } else {
            if (b & SIGN_MASK) != 0 {
                false
            } else {
                size_a < size_b
            }
        }
    }
}

pub fn number_less_equal(a: u64, b: u64) -> (r: bool)
    ensures
        r == less_equal(a, b),
{
    number_less(a, b) || number_equal(a, b)
}

/// The value of `bits` as an `i64` when it is integral, saturated at the
/// ends of `i64`; `None` for a fractional number, an infinity or a NaN.
pub fn number_to_integer(bits: u64) -> (r: Option<i64>)
    ensures
        r.is_some() == is_integral(bits),
        is_integral(bits) ==> r == Some(clamp_i64(integral_value(bits))),
{
    let e: u64 = (bits >> 52) & 0x7FF;
    let f: u64 = bits & FRACTION_MASK;
    let negative: bool = (bits & SIGN_MASK) != 0;
    assert(f <= 0x000F_FFFF_FFFF_FFFF) by (bit_vector)
        requires
            f == bits & 0x000F_FFFF_FFFF_FFFFu64,
    ;
    assert(e <= 0x7FF) by (bit_vector)
        requires
            e == (bits >> 52) & 0x7FFu64,
    ;
    if e == 0x7FF {
        None
    } else if e == 0 {
        if f == 0 {
            Some(0)
        } else {
            None
        }
    } else if e < 1023 {
        None
    } else {
        let sig: u64 = HIDDEN_BIT + f;
        proof {
            lemma2_to64();
            lemma2_to64_rest();
        }
        if e >= 1075 {
            let k: u64 = e - 1075;
            if k >= 11 {
                proof {
                    lemma_pow2_strictly_increases(10, k as nat);
                    assert(pow2(k as nat) >= pow2(11)) by {
                        if k > 11 {
                            lemma_pow2_strictly_increases(11, k as nat);
                        }
                    }
                    assert(sig * pow2(k as nat) >= 0x0010_0000_0000_0000 * 0x800) by (nonlinear_arith)
                        requires
                            sig >= 0x0010_0000_0000_0000,
                            pow2(k as nat) >= 0x800,
                    ;
                }
                if negative {
                    Some(i64::MIN)
                } else {
                    Some(i64::MAX)
                }
            } else {
                proof {
                    lemma_pow2_pos(k as nat);
                    assert(pow2(k as nat) <= 0x400) by {
                        if k < 10 {
                            lemma_pow2_strictly_increases(k as nat, 10);
                        }
                    }
                    assert(sig * pow2(k as nat) <= 0x001F_FFFF_FFFF_FFFF * 0x400) by (nonlinear_arith)
                        requires
                            sig <= 0x001F_FFFF_FFFF_FFFF,
                            pow2(k as nat) <= 0x400,
                    ;
                    lemma_u64_shl_is_mul(sig, k);
                }
                let size: u64 = sig << k;
                if negative {
                    Some(-(size as i64))
                } else {
                    Some(size as i64)
                }
            }
        } else {
            let shift: u64 = 1075 - e;
            let size: u64 = sig >> shift;
            proof {
                lemma_u64_shr_is_div(sig, shift);
                lemma_pow2_pos(shift as nat);
                lemma_pow2_strictly_increases(shift as nat, 53);
                assert(size * pow2(shift as nat) <= sig) by (nonlinear_arith)
                    requires
                        size == sig as nat / pow2(shift as nat),
                        pow2(shift as nat) > 0,
                ;
                lemma_u64_shl_is_mul(size, shift);
                assert(sig as nat % pow2(shift as nat) == sig - size * pow2(shift as nat)) by (nonlinear_arith)
                    requires
                        size == sig as nat / pow2(shift as nat),
                        pow2(shift as nat) > 0,
                ;
            }
            if (size << shift) != sig {
                None
            } else if negative {
                Some(-(size as i64))
            } else {
                Some(size as i64)
            }
        }
    }
}

/// The value of `bits` when it is integral, not negative and below
/// [`EXACT_MAX`].
pub fn number_plain_integer(bits: u64) -> (r: Option<u64>)
    ensures
        match r {
            Some(value) => plain_integer(bits) == Some(value as int),
            None => plain_integer(bits) is None,
        },
{
    if (bits & SIGN_MASK) != 0 {
        return None;
    }
    match number_to_integer(bits) {
        Some(value) => {
            proof {
                let e = exponent(bits);
                if e >= 1075 {
                    lemma_pow2_pos((e - 1075) as nat);
                } else if e > 0 {
                    lemma_pow2_pos((1075 - e) as nat);
                }
                assert(integral_value(bits) >= 0) by (nonlinear_arith)
                    requires
                        !is_negative(bits),
                        integral_value(bits) == (if e == 0 {
                            0
                        } else if e >= 1075 {
                            (significand(bits) * pow2((e - 1075) as nat)) as int
                        } else {
                            significand(bits) as int / pow2((1075 - e) as nat) as int
                        }),
                        e >= 1075 ==> pow2((e - 1075) as nat) > 0,
                        e < 1075 && e > 0 ==> pow2((1075 - e) as nat) > 0,
                ;
            }
            if 0 <= value && value < 0x0020_0000_0000_0000 {
                Some(value as u64)
            } else {
                None
            }
        },
        None => None,
    }
}

} // verus!
