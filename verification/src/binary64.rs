//! IEEE 754 binary64 values held as their 64-bit patterns.
//!
//! A pattern is read as sign, biased exponent and fraction. Its real value,
//! multiplied by 2^1074 (the reciprocal of the smallest subnormal), is an
//! integer: `scaled`. Ordered comparison and equality are decided on the
//! patterns and proved to agree with the order of those integers.
use vstd::prelude::*;
use vstd::arithmetic::power2::{
    pow2, lemma_pow2_pos, lemma_pow2_unfold, lemma_pow2_adds, lemma_pow2_strictly_increases,
    lemma2_to64_rest,
};

verus! {

/// The sign bit of a pattern.
pub const SIGN_BIT: u64 = 0x8000_0000_0000_0000;

/// 2^52: the weight of the implicit leading bit of a normal significand.
pub const HIDDEN_BIT: u64 = 0x0010_0000_0000_0000;

/// The pattern of positive infinity; every larger magnitude is a NaN.
pub const INFINITY_BITS: u64 = 0x7FF0_0000_0000_0000;

/// The pattern of `+0.0`.
pub const ZERO_BITS: u64 = 0;

/// The pattern of `1.0`.
pub const ONE_BITS: u64 = 0x3FF0_0000_0000_0000;

/// The pattern of the largest finite value.
pub const MAX_BITS: u64 = 0x7FEF_FFFF_FFFF_FFFF;

/// Whether the sign bit is set.
pub open spec fn is_negative(b: u64) -> bool {
    b >= SIGN_BIT
}

/// The pattern without its sign bit.
pub open spec fn abs_bits(b: u64) -> u64 {
    if b >= SIGN_BIT {
        (b - SIGN_BIT) as u64
    } else {
        b
    }
}

/// Whether the pattern is a NaN: all exponent bits set and a nonzero fraction.
pub open spec fn is_nan(b: u64) -> bool {
    abs_bits(b) > INFINITY_BITS
}

/// The biased exponent field, 0 to 2047.
pub open spec fn exponent(b: u64) -> nat {
    (abs_bits(b) / HIDDEN_BIT) as nat
}

/// The 52-bit fraction field.
pub open spec fn fraction(b: u64) -> nat {
    (abs_bits(b) % HIDDEN_BIT) as nat
}

/// The absolute value of the pattern times 2^1074. Subnormals have no hidden
/// bit; normals do. The formula is carried on through the top exponent, so
/// that infinity lies above every finite magnitude.
pub open spec fn magnitude(b: u64) -> int {
    if exponent(b) == 0 {
        fraction(b) as int
    } else {
        (HIDDEN_BIT + fraction(b)) * pow2((exponent(b) - 1) as nat)
    }
}

/// The value of the pattern times 2^1074, with its sign.
pub open spec fn scaled(b: u64) -> int {
    if is_negative(b) {
        -magnitude(b)
    } else {
        magnitude(b)
    }
}

/// `a < b` as IEEE 754 orders them: false when either is a NaN.
pub open spec fn less(a: u64, b: u64) -> bool {
    !is_nan(a) && !is_nan(b) && scaled(a) < scaled(b)
}

/// `a == b` as IEEE 754 compares them: false when either is a NaN, true of
/// the two zeros.
pub open spec fn same(a: u64, b: u64) -> bool {
    !is_nan(a) && !is_nan(b) && scaled(a) == scaled(b)
}

/// The pattern that is larger once the signs are cleared has the larger
/// magnitude.
pub proof fn lemma_magnitude_increases(a: u64, b: u64)
    requires
        abs_bits(a) < abs_bits(b),
    ensures
        magnitude(a) < magnitude(b),
{
    let h = HIDDEN_BIT as int;
    let ea = exponent(a);
    let eb = exponent(b);
    let fa = fraction(a) as int;
    let fb = fraction(b) as int;
    assert(abs_bits(a) == ea * h + fa);
    assert(abs_bits(b) == eb * h + fb);
    assert(0 <= fa < h && 0 <= fb < h);
    assert(ea <= eb);
    if ea == eb {
        assert(fa < fb);
        if ea != 0 {
            let p = pow2((ea - 1) as nat) as int;
            lemma_pow2_pos((ea - 1) as nat);
            assert((h + fa) * p < (h + fb) * p) by (nonlinear_arith)
                requires
                    fa < fb,
                    p > 0,
            ;
        }
    } else {
        let q = pow2((eb - 1) as nat) as int;
        lemma_pow2_pos((eb - 1) as nat);
        assert(h * q <= (h + fb) * q) by (nonlinear_arith)
            requires
                fb >= 0,
                q > 0,
        ;
        if ea == 0 {
            assert(h <= h * q) by (nonlinear_arith)
                requires
                    h > 0,
                    q >= 1,
            ;
        } else {
            let p = pow2((ea - 1) as nat) as int;
            lemma_pow2_pos((ea - 1) as nat);
            lemma_pow2_unfold(ea);
            if ea < eb - 1 {
                lemma_pow2_strictly_increases(ea, (eb - 1) as nat);
            }
            assert(2 * p <= q);
            assert((h + fa) * p < h * q) by (nonlinear_arith)
                requires
                    0 <= fa < h,
                    p > 0,
                    2 * p <= q,
            ;
        }
    }
}

/// No magnitude is negative, and only the two zeros have magnitude zero.
pub proof fn lemma_magnitude_zero(b: u64)
    ensures
        magnitude(b) >= 0,
        magnitude(b) == 0 <==> abs_bits(b) == 0,
{
    if abs_bits(b) != 0 {
        lemma_magnitude_increases(ZERO_BITS, b);
    }
}

/// The order read off the patterns: among values of one sign the larger
/// magnitude decides, a negative value lies below every value without sign
/// bit unless both are zero, and a NaN is ordered with nothing.
pub proof fn lemma_less_patterns(a: u64, b: u64)
    ensures
        less(a, b) <==> !is_nan(a) && !is_nan(b) && (if is_negative(a) {
            if is_negative(b) {
                abs_bits(b) < abs_bits(a)
            } else {
                abs_bits(a) != 0 || abs_bits(b) != 0
            }
        } else {
            !is_negative(b) && abs_bits(a) < abs_bits(b)
        }),
{
    lemma_magnitude_zero(a);
    lemma_magnitude_zero(b);
    if abs_bits(a) < abs_bits(b) {
        lemma_magnitude_increases(a, b);
    }
    if abs_bits(b) < abs_bits(a) {
        lemma_magnitude_increases(b, a);
    }
}

/// IEEE equality holds of equal patterns and of the two zeros, and of no
/// other pair.
pub proof fn lemma_same_patterns(a: u64, b: u64)
    ensures
        same(a, b) <==> !is_nan(a) && !is_nan(b) && (a == b || (abs_bits(a) == 0 && abs_bits(b) == 0)),
{
    lemma_magnitude_zero(a);
    lemma_magnitude_zero(b);
    if abs_bits(a) < abs_bits(b) {
        lemma_magnitude_increases(a, b);
    }
    if abs_bits(b) < abs_bits(a) {
        lemma_magnitude_increases(b, a);
    }
}

/// Clears the sign bit.
pub fn magnitude_bits(b: u64) -> (r: u64)
    ensures
        r == abs_bits(b),
{
    if b >= SIGN_BIT {
        b - SIGN_BIT
    } else {
        b
    }
}

/// Tells whether a pattern is a NaN.
pub fn is_nan_bits(b: u64) -> (r: bool)
    ensures
        r == is_nan(b),
{
    magnitude_bits(b) > INFINITY_BITS
}

/// Ordered comparison `a < b` on patterns.
pub fn less_than(a: u64, b: u64) -> (r: bool)
    ensures
        r == less(a, b),
{
    if is_nan_bits(a) || is_nan_bits(b) {
        return false;
    }
    let ma: u64 = magnitude_bits(a);
    let mb: u64 = magnitude_bits(b);
    proof {
        lemma_less_patterns(a, b);
    }
    if a >= SIGN_BIT {
        if b >= SIGN_BIT {
            mb < ma
        } else {
            ma != 0 || mb != 0
        }
    } else {
        if b >= SIGN_BIT {
            false
        } else {
            ma < mb
        }
    }
}

/// Equality `a == b` on patterns.
pub fn equal_to(a: u64, b: u64) -> (r: bool)
    ensures
        r == same(a, b),
{
    if is_nan_bits(a) || is_nan_bits(b) {
        return false;
    }
    let ma: u64 = magnitude_bits(a);
    let mb: u64 = magnitude_bits(b);
    proof {
        lemma_same_patterns(a, b);
    }
    if ma == 0 && mb == 0 {
        true
    } else {
        a == b
    }
}

/// `ONE_BITS` stands for the real number one: its scaled value is 2^1074.
pub proof fn lemma_one_scaled()
    ensures
        scaled(ONE_BITS) == pow2(1074),
{
    assert(exponent(ONE_BITS) == 1023);
    assert(fraction(ONE_BITS) == 0);
    lemma2_to64_rest();
    lemma_pow2_adds(52, 1022);
}

/// `ZERO_BITS` stands for zero.
pub proof fn lemma_zero_scaled()
    ensures
        scaled(ZERO_BITS) == 0,
{
}

/// No finite value lies above `MAX_BITS` or below its negative.
pub proof fn lemma_max_is_largest_finite(b: u64)
    requires
        abs_bits(b) < INFINITY_BITS,
    ensures
        -scaled(MAX_BITS) <= scaled(b) <= scaled(MAX_BITS),
{
    if abs_bits(b) < MAX_BITS {
        lemma_magnitude_increases(b, MAX_BITS);
    }
    lemma_magnitude_zero(b);
}

} // verus!
