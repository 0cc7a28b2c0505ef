//! The pressure engine: a pure function from weighted signals to a scalar.
//!
//! The pressure of a region is the saturating sum, over the configured
//! axes, of the axis's effective weight (per-kind overrides applied) times
//! the signal channel named by the axis's expression.

use vstd::prelude::*;

use crate::config::PressureAxisConfig;
use crate::fixed::{add_sat, mul_scaled, sadd, smul, sub_sat, ssub};
use crate::signals::Signals;

verus! {

/// The contribution of one axis for a region of `kind` with `sig`nals.
pub open spec fn spec_axis_contribution(
    axis: PressureAxisConfig,
    kind: Seq<char>,
    sig: Signals,
) -> int {
    smul(axis.spec_weight_for(kind), sig.spec_value(axis.expr@))
}

/// The total pressure: saturating sum of the axis contributions.
pub open spec fn spec_pressure(axes: Seq<PressureAxisConfig>, kind: Seq<char>, sig: Signals) -> int
    decreases axes.len(),
{
    if axes.len() == 0 {
        0
    } else {
        sadd(
            spec_pressure(axes.drop_last(), kind, sig),
            spec_axis_contribution(axes.last(), kind, sig),
        )
    }
}

/// Whether at least one axis contributes nonzero pressure.
pub open spec fn spec_has_support(
    axes: Seq<PressureAxisConfig>,
    kind: Seq<char>,
    sig: Signals,
) -> bool {
    exists|i: int|
        0 <= i < axes.len() && #[trigger] spec_axis_contribution(axes[i], kind, sig) != 0
}

/// The weighted sum of a proposer's per-axis delta hints; a negative sum
/// promises a pressure reduction.
pub open spec fn spec_weighted_delta(
    axes: Seq<PressureAxisConfig>,
    kind: Seq<char>,
    delta: Signals,
) -> int {
    spec_pressure(axes, kind, delta)
}

/// The expected improvement a patch promises: the negated weighted sum of
/// its per-axis delta hints.
pub open spec fn spec_expected_improvement(
    axes: Seq<PressureAxisConfig>,
    kind: Seq<char>,
    delta: Signals,
) -> int {
    ssub(0, spec_weighted_delta(axes, kind, delta))
}

/// Compute one axis's contribution.
pub fn axis_contribution(axis: &PressureAxisConfig, kind: &String, sig: &Signals) -> (c: i64)
    requires
        sig.wf(),
    ensures
        c as int == spec_axis_contribution(*axis, kind@, *sig),
{
    let w = axis.weight_for(kind);
    let v = sig.value_or_zero(&axis.expr);
    mul_scaled(w, v)
}

/// Compute the total pressure of a region.
pub fn compute_pressure(axes: &Vec<PressureAxisConfig>, kind: &String, sig: &Signals) -> (p: i64)
    requires
        sig.wf(),
    ensures
        p as int == spec_pressure(axes@, kind@, *sig),
{
    let n = axes.len();
    let mut acc: i64 = 0;
    let mut i: usize = 0;
    while i < n
        invariant
            n == axes@.len(),
            sig.wf(),
            0 <= i <= n,
            acc as int == spec_pressure(axes@.take(i as int), kind@, *sig),
        decreases n - i,
    {
        let c = axis_contribution(&axes[i], kind, sig);
        proof {
            assert(axes@.take(i + 1).drop_last() =~= axes@.take(i as int));
            assert(axes@.take(i + 1).last() == axes@[i as int]);
        }
        acc = add_sat(acc, c);
        i = i + 1;
    }
    proof {
        assert(axes@.take(n as int) =~= axes@);
    }
    acc
}

/// Decide whether some axis contributes nonzero pressure.
pub fn has_support(axes: &Vec<PressureAxisConfig>, kind: &String, sig: &Signals) -> (b: bool)
    requires
        sig.wf(),
    ensures
        b == spec_has_support(axes@, kind@, *sig),
{
    let n = axes.len();
    let mut i: usize = 0;
    while i < n
        invariant
            n == axes@.len(),
            sig.wf(),
            0 <= i <= n,
            forall|j: int|
                0 <= j < i ==> #[trigger] spec_axis_contribution(axes@[j], kind@, *sig) == 0,
        decreases n - i,
    {
        let c = axis_contribution(&axes[i], kind, sig);
        if c != 0 {
            return true;
        }
        i = i + 1;
    }
    false
}

/// Compute the expected improvement a patch promises.
pub fn expected_improvement(
    axes: &Vec<PressureAxisConfig>,
    kind: &String,
    delta: &Signals,
) -> (imp: i64)
    requires
        delta.wf(),
    ensures
        imp as int == spec_expected_improvement(axes@, kind@, *delta),
{
    let w = compute_pressure(axes, kind, delta);
    sub_sat(0, w)
}

} // verus!
