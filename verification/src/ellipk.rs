//! Complete elliptic integral of the first kind, K(m), as a function of the
//! complement `m1 = 1 - m`: the logarithmic singularity of K at `m = 1` then
//! lies at the origin. On `(MACHEP, 1]` the value is `P(m1) - ln(m1) * Q(m1)`;
//! on `(0, MACHEP]` it is `C1 - 0.5 * ln(m1)`.
//!
//! This module decides which of these holds for a given bit pattern, names
//! the values that need no arithmetic, and evaluates the two polynomials.
use vstd::prelude::*;
use vstd::array::array_as_slice;
use vstd::arithmetic::power2::{pow2, lemma_pow2_adds, lemma2_to64_rest};
use crate::binary64::{
    ZERO_BITS, ONE_BITS, MAX_BITS, is_nan, exponent, fraction, scaled, less, same, less_than, equal_to,
    lemma_one_scaled, lemma_magnitude_zero, lemma_magnitude_increases,
};
use crate::polyeval::{polyeval, horner_result};

verus! {

/// The pattern of 2^-53, the rounding unit of binary64.
pub const MACHEP_BITS: u64 = 0x3CA0_0000_0000_0000;

/// The pattern of `ln 4`, the constant term of K near the singularity.
pub const C1_BITS: u64 = 0x3FF6_2E42_FEFA_39EF;

/// The pattern of `0.5`, the weight of the logarithm near the singularity.
pub const HALF_BITS: u64 = 0x3FE0_0000_0000_0000;

/// Coefficients of P, highest degree first.
pub const P: [u64; 11] = [
    0x3F22_15EF_C823_0A6D,
    0x3F62_AE0B_C8B8_7AFA,
    0x3F80_54B1_8CAD_B000,
    0x3F84_308B_0E9B_854F,
    0x3F7C_28DA_13D4_5E88,
    0x3F79_59A5_CFD4_5B0C,
    0x3F82_00E6_E2FA_E761,
    0x3F8E_97D6_7235_2414,
    0x3F9F_A05B_1905_C419,
    0x3FB8_B90B_FBEA_387C,
    0x3FF6_2E42_FEFA_39EF,
];

/// Coefficients of Q, highest degree first. All eleven are explicit.
pub const Q: [u64; 11] = [
    0x3EFE_D61F_30E5_6FF3,
    0x3F4D_F4BC_BEE9_B2C2,
    0x3F78_5527_1DD8_8F27,
    0x3F8F_B6A0_73D2_D3F0,
    0x3F98_7B97_29CA_99FB,
    0x3F9E_D7E6_A085_7BD9,
    0x3FA3_2322_7B17_9FAA,
    0x3FA8_FFFC_F8D1_C38D,
    0x3FB1_FFFF_FEB2_2F00,
    0x3FBF_FFFF_FFFF_DBA4,
    0x3FE0_0000_0000_0000,
];

/// What K is at a given `m1`.
#[derive(Clone, Copy, Debug, PartialEq, Eq, Structural)]
pub enum FirstKind {
    /// The value is this pattern; no arithmetic is needed.
    Value(u64),
    /// The value is `P(m1) - ln(m1) * Q(m1)`.
    Series,
    /// The value is `C1 - 0.5 * ln(m1)`.
    Asymptote,
}

/// The rule for K: zero outside `[0, 1]`, the series above MACHEP, the
/// largest finite value at either zero, and the asymptote on what is left,
/// which is `(0, MACHEP]` and the NaNs.
pub open spec fn first_kind(m1: u64) -> FirstKind {
    if less(m1, ZERO_BITS) || less(ONE_BITS, m1) {
        FirstKind::Value(ZERO_BITS)
    } else if less(MACHEP_BITS, m1) {
        FirstKind::Series
    } else if same(m1, ZERO_BITS) {
        FirstKind::Value(MAX_BITS)
    } else {
        FirstKind::Asymptote
    }
}

/// Decides what K is at `m1`.
pub fn ellpkm1_branch(m1: u64) -> (r: FirstKind)
    ensures
        r == first_kind(m1),
{
    if less_than(m1, ZERO_BITS) || less_than(ONE_BITS, m1) {
        FirstKind::Value(ZERO_BITS)
    } else if less_than(MACHEP_BITS, m1) {
        FirstKind::Series
    } else if equal_to(m1, ZERO_BITS) {
        FirstKind::Value(MAX_BITS)
    } else {
        FirstKind::Asymptote
    }
}

/// Evaluates P and Q at `m1`, in this order, with the caller's Horner step.
pub fn ellpkm1_polynomials<F: Fn(u64, u64, u64) -> u64>(m1: u64, step: &F) -> (r: (u64, u64))
    requires
        forall|acc: u64, c: u64| call_requires(*step, (acc, m1, c)),
    ensures
        horner_result(*step, m1, P@, r.0),
        horner_result(*step, m1, Q@, r.1),
{
    let p: u64 = polyeval(m1, array_as_slice(&P), step);
    let q: u64 = polyeval(m1, array_as_slice(&Q), step);
    (p, q)
}

/// `MACHEP_BITS` stands for 2^-53: its value times 2^53 is one.
pub proof fn lemma_machep_scaled()
    ensures
        scaled(MACHEP_BITS) * pow2(53) == scaled(ONE_BITS),
{
    assert(exponent(MACHEP_BITS) == 970);
    assert(fraction(MACHEP_BITS) == 0);
    lemma2_to64_rest();
    lemma_one_scaled();
    lemma_pow2_adds(52, 969);
    lemma_pow2_adds(1021, 53);
}

/// MACHEP lies strictly between zero and one.
pub proof fn lemma_machep_between()
    ensures
        less(ZERO_BITS, MACHEP_BITS),
        less(MACHEP_BITS, ONE_BITS),
{
    lemma_magnitude_increases(ZERO_BITS, MACHEP_BITS);
    lemma_magnitude_increases(MACHEP_BITS, ONE_BITS);
}

/// Every `m1` below zero or above one gives the value zero.
pub proof fn lemma_first_kind_outside(m1: u64)
    requires
        less(m1, ZERO_BITS) || less(ONE_BITS, m1),
    ensures
        first_kind(m1) == FirstKind::Value(ZERO_BITS),
{
}

/// At zero, of either sign, K is the largest finite value.
pub proof fn lemma_first_kind_at_zero(m1: u64)
    requires
        same(m1, ZERO_BITS),
    ensures
        first_kind(m1) == FirstKind::Value(MAX_BITS),
{
    lemma_machep_between();
    lemma_magnitude_zero(ONE_BITS);
}

/// Each outcome of `first_kind` with the set of `m1` that gives it. A NaN
/// goes to the asymptote, where the logarithm hands it on.
pub proof fn lemma_first_kind_regions(m1: u64)
    ensures
        first_kind(m1) == FirstKind::Value(ZERO_BITS) <==> less(m1, ZERO_BITS) || less(ONE_BITS, m1),
        first_kind(m1) == FirstKind::Value(MAX_BITS) <==> same(m1, ZERO_BITS),
        first_kind(m1) == FirstKind::Series <==> less(MACHEP_BITS, m1) && !less(ONE_BITS, m1),
        first_kind(m1) == FirstKind::Asymptote <==> is_nan(m1) || (less(ZERO_BITS, m1) && !less(
            MACHEP_BITS,
            m1,
        )),
{
    lemma_machep_between();
    lemma_magnitude_zero(ONE_BITS);
}

} // verus!
