//! Complete elliptic integral of the second kind, E(m), as a function of
//! `x = 1 - m`. On `[0, 1]` the value is `P(x) - ln(x) * x * Q(x)`; outside
//! it is zero.
//!
//! This module decides which of the two holds for a given bit pattern and
//! evaluates the two polynomials.
use vstd::prelude::*;
use vstd::array::array_as_slice;
use crate::binary64::{ZERO_BITS, ONE_BITS, less, same, less_than, equal_to, lemma_magnitude_zero};
use crate::polyeval::{polyeval, horner_result};

verus! {

/// Coefficients of P, highest degree first.
pub const P: [u64; 11] = [
    0x3F24_205E_986F_53EE,
    0x3F64_8D83_5602_E6E0,
    0x3F81_CAF1_ED25_D0B3,
    0x3F85_FC48_0C4F_F4B1,
    0x3F7F_D795_22A0_750E,
    0x3F7F_1059_DA79_B671,
    0x3F87_B167_EA19_F6D7,
    0x3F96_5B13_4534_BE6D,
    0x3FAD_1592_09C5_8607,
    0x3FDC_5C85_FDF4_BD71,
    0x3FF0_0000_0000_0000,
];

/// Coefficients of Q, highest degree first. All ten are explicit.
pub const Q: [u64; 10] = [
    0x3F01_31BC_737F_2B66,
    0x3F50_8AAF_BB4F_296C,
    0x3F7A_A622_8D1B_5DFE,
    0x3F91_4A9E_CCC0_D350,
    0x3F9A_CE23_012B_7535,
    0x3FA1_24BC_2637_A639,
    0x3FA5_DF25_55C6_568A,
    0x3FAD_FFFD_1884_2EAA,
    0x3FB7_FFFF_FECB_E0B3,
    0x3FCF_FFFF_FFFF_F048,
];

/// What E is at a given `x`.
#[derive(Clone, Copy, Debug, PartialEq, Eq, Structural)]
pub enum SecondKind {
    /// The value is this pattern; no arithmetic is needed.
    Value(u64),
    /// The value is `P(x) - ln(x) * x * Q(x)`.
    Series,
}

/// The rule for E: zero below zero and above one, the series on `[0, 1]`
/// and on the NaNs.
pub open spec fn second_kind(x: u64) -> SecondKind {
    if less(x, ZERO_BITS) || less(ONE_BITS, x) {
        SecondKind::Value(ZERO_BITS)
    } else {
        SecondKind::Series
    }
}

/// Decides what E is at `x`.
pub fn ellipe_branch(x: u64) -> (r: SecondKind)
    ensures
        r == second_kind(x),
{
    if less_than(x, ZERO_BITS) || less_than(ONE_BITS, x) {
        // One is asked for at the upper end, but that end lies inside the
        // interval: the test below never succeeds.
        if equal_to(x, ONE_BITS) {
            proof {
                lemma_magnitude_zero(ONE_BITS);
            }
            SecondKind::Value(ONE_BITS)
        } else {
            SecondKind::Value(ZERO_BITS)
        }
    } else {
        SecondKind::Series
    }
}

/// Evaluates P and Q at `x`, in this order, with the caller's Horner step.
pub fn ellipe_polynomials<F: Fn(u64, u64, u64) -> u64>(x: u64, step: &F) -> (r: (u64, u64))
    requires
        forall|acc: u64, c: u64| call_requires(*step, (acc, x, c)),
    ensures
        horner_result(*step, x, P@, r.0),
        horner_result(*step, x, Q@, r.1),
{
    let p: u64 = polyeval(x, array_as_slice(&P), step);
    let q: u64 = polyeval(x, array_as_slice(&Q), step);
    (p, q)
}

/// Every `x` below zero or above one gives the value zero.
pub proof fn lemma_second_kind_outside(x: u64)
    requires
        less(x, ZERO_BITS) || less(ONE_BITS, x),
    ensures
        second_kind(x) == SecondKind::Value(ZERO_BITS),
{
}

/// Both ends of the interval belong to the series: E is never answered by
/// the pattern of one without arithmetic.
pub proof fn lemma_second_kind_ends(x: u64)
    requires
        same(x, ONE_BITS) || same(x, ZERO_BITS),
    ensures
        second_kind(x) == SecondKind::Series,
{
    lemma_magnitude_zero(ONE_BITS);
}

} // verus!
