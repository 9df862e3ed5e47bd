//! Horner's recurrence over a coefficient table, highest degree first.
//!
//! Values are binary64 bit patterns. The rounding multiply-add of one Horner
//! step is the caller's: `step(acc, x, c)` stands for `c + acc * x`. What is
//! stated here is the recurrence itself: which coefficient enters which step,
//! and how often `step` runs.
use vstd::prelude::*;
use crate::binary64::ZERO_BITS;

verus! {

/// Whether `trace` lists the accumulators of one run over `coeffs`: the
/// first is the leading coefficient, and each later one comes from one
/// `step` on its predecessor and the coefficient at its own place.
pub open spec fn is_horner_trace<F: Fn(u64, u64, u64) -> u64>(
    step: F,
    x: u64,
    coeffs: Seq<u64>,
    trace: Seq<u64>,
) -> bool {
    &&& trace.len() == coeffs.len()
    &&& coeffs.len() > 0 ==> trace[0] == coeffs[0]
    &&& forall|i: int|
        1 <= i < coeffs.len() ==> call_ensures(step, (trace[i - 1], x, coeffs[i]), #[trigger] trace[i])
}

/// Whether `r` can come out of the recurrence over `coeffs` at `x`: zero for
/// the empty table, and the last accumulator of some run otherwise.
pub open spec fn horner_result<F: Fn(u64, u64, u64) -> u64>(
    step: F,
    x: u64,
    coeffs: Seq<u64>,
    r: u64,
) -> bool {
    if coeffs.len() == 0 {
        r == ZERO_BITS
    } else {
        exists|trace: Seq<u64>| #[trigger] is_horner_trace(step, x, coeffs, trace) && r == trace.last()
    }
}

/// The recurrence with a step given as a function: what comes out of
/// `coeffs` at `x` when each step maps accumulator, point and coefficient to
/// `g` of them.
pub open spec fn horner_fold(g: spec_fn(u64, u64, u64) -> u64, x: u64, coeffs: Seq<u64>) -> u64
    decreases coeffs.len(),
{
    if coeffs.len() == 0 {
        ZERO_BITS
    } else if coeffs.len() == 1 {
        coeffs[0]
    } else {
        g(horner_fold(g, x, coeffs.drop_last()), x, coeffs.last())
    }
}

/// Whether every result of `step` is `g` of its arguments.
pub open spec fn computes<F: Fn(u64, u64, u64) -> u64>(step: F, g: spec_fn(u64, u64, u64) -> u64) -> bool {
    forall|acc: u64, x: u64, c: u64, r: u64| call_ensures(step, (acc, x, c), r) ==> r == g(acc, x, c)
}

/// Whether `step` gives one result for each triple of arguments.
pub open spec fn is_functional<F: Fn(u64, u64, u64) -> u64>(step: F) -> bool {
    forall|acc: u64, x: u64, c: u64, r1: u64, r2: u64|
        call_ensures(step, (acc, x, c), r1) && call_ensures(step, (acc, x, c), r2) ==> r1 == r2
}

/// Evaluates the polynomial with the given coefficients at `x`. The first
/// coefficient is the leading one; nothing is assumed of its value. An empty
/// table gives zero, a table of one coefficient gives that coefficient, and
/// a table of `n` coefficients takes `n - 1` steps.
pub fn polyeval<F: Fn(u64, u64, u64) -> u64>(x: u64, coeffs: &[u64], step: &F) -> (r: u64)
    requires
        forall|acc: u64, i: int| 1 <= i < coeffs@.len() ==> call_requires(*step, (acc, x, coeffs@[i])),
    ensures
        horner_result(*step, x, coeffs@, r),
        coeffs@.len() == 1 ==> r == coeffs@[0],
{
    let n: usize = coeffs.len();
    if n == 0 {
        return ZERO_BITS;
    }
    let mut acc: u64 = coeffs[0];
    let ghost mut trace: Seq<u64> = seq![acc];
    let mut i: usize = 1;
    while i < n
        invariant
            n == coeffs@.len(),
            1 <= i <= n,
            trace.len() == i,
            trace[0] == coeffs@[0],
            acc == trace[i - 1],
            forall|j: int|
                1 <= j < i ==> call_ensures(*step, (trace[j - 1], x, coeffs@[j]), #[trigger] trace[j]),
            forall|a: u64, j: int| 1 <= j < coeffs@.len() ==> call_requires(*step, (a, x, coeffs@[j])),
        decreases n - i,
    {
        acc = step(acc, x, coeffs[i]);
        proof {
            trace = trace.push(acc);
        }
        i = i + 1;
    }
    assert(is_horner_trace(*step, x, coeffs@, trace));
    acc
}

/// With a `step` that gives one result for each triple of arguments, two
/// runs over the same table at the same point agree in every accumulator.
pub proof fn lemma_horner_trace_unique<F: Fn(u64, u64, u64) -> u64>(
    step: F,
    x: u64,
    coeffs: Seq<u64>,
    t1: Seq<u64>,
    t2: Seq<u64>,
    k: int,
)
    requires
        is_functional(step),
        is_horner_trace(step, x, coeffs, t1),
        is_horner_trace(step, x, coeffs, t2),
        0 <= k < coeffs.len(),
    ensures
        t1[k] == t2[k],
    decreases k,
{
    if k > 0 {
        lemma_horner_trace_unique(step, x, coeffs, t1, t2, k - 1);
        assert(call_ensures(step, (t1[k - 1], x, coeffs[k]), t1[k]));
        assert(call_ensures(step, (t2[k - 1], x, coeffs[k]), t2[k]));
    }
}

/// With a `step` that gives one result for each triple of arguments, the
/// evaluation has one outcome: what comes out of the same table at the same
/// point twice is the same pattern.
pub proof fn lemma_horner_deterministic<F: Fn(u64, u64, u64) -> u64>(
    step: F,
    x: u64,
    coeffs: Seq<u64>,
    r1: u64,
    r2: u64,
)
    requires
        is_functional(step),
        horner_result(step, x, coeffs, r1),
        horner_result(step, x, coeffs, r2),
    ensures
        r1 == r2,
{
    if coeffs.len() > 0 {
        let t1 = choose|trace: Seq<u64>| #[trigger]
            is_horner_trace(step, x, coeffs, trace) && r1 == trace.last();
        let t2 = choose|trace: Seq<u64>| #[trigger]
            is_horner_trace(step, x, coeffs, trace) && r2 == trace.last();
        lemma_horner_trace_unique(step, x, coeffs, t1, t2, coeffs.len() - 1);
    }
}

/// With a `step` that computes `g`, accumulator `k` of a run is the fold of
/// `g` over the first `k + 1` coefficients.
pub proof fn lemma_horner_trace_fold<F: Fn(u64, u64, u64) -> u64>(
    step: F,
    g: spec_fn(u64, u64, u64) -> u64,
    x: u64,
    coeffs: Seq<u64>,
    trace: Seq<u64>,
    k: int,
)
    requires
        computes(step, g),
        is_horner_trace(step, x, coeffs, trace),
        0 <= k < coeffs.len(),
    ensures
        trace[k] == horner_fold(g, x, coeffs.take(k + 1)),
    decreases k,
{
    let head = coeffs.take(k + 1);
    if k > 0 {
        lemma_horner_trace_fold(step, g, x, coeffs, trace, k - 1);
        assert(call_ensures(step, (trace[k - 1], x, coeffs[k]), trace[k]));
        assert(head.drop_last() =~= coeffs.take(k));
        assert(head.last() == coeffs[k]);
    } else {
        assert(head[0] == coeffs[0]);
    }
}

/// With a `step` that computes `g`, the evaluation is the fold of `g` over
/// the table: the result is a function of the point and the coefficients.
pub proof fn lemma_horner_fold<F: Fn(u64, u64, u64) -> u64>(
    step: F,
    g: spec_fn(u64, u64, u64) -> u64,
    x: u64,
    coeffs: Seq<u64>,
    r: u64,
)
    requires
        computes(step, g),
        horner_result(step, x, coeffs, r),
    ensures
        r == horner_fold(g, x, coeffs),
{
    if coeffs.len() > 0 {
        let t = choose|trace: Seq<u64>| #[trigger]
            is_horner_trace(step, x, coeffs, trace) && r == trace.last();
        lemma_horner_trace_fold(step, g, x, coeffs, t, coeffs.len() - 1);
        assert(coeffs.take(coeffs.len() as int) =~= coeffs);
    }
}

/// A table of one coefficient evaluates to that coefficient at every point,
/// whatever `step` does.
pub proof fn lemma_horner_constant<F: Fn(u64, u64, u64) -> u64>(step: F, x: u64, c: u64, r: u64)
    requires
        horner_result(step, x, seq![c], r),
    ensures
        r == c,
{
    let t = choose|trace: Seq<u64>| #[trigger]
        is_horner_trace(step, x, seq![c], trace) && r == trace.last();
    assert(t[0] == seq![c][0]);
}

} // verus!
