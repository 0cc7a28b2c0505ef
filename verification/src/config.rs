//! Kernel configuration: pressure axes, decay, activation and selection.
//!
//! Construction is validated fast: a configuration with a negative weight,
//! a smoothing coefficient outside `(0, 1]`, or a negative selection gate
//! is refused before the kernel is built.

use vstd::prelude::*;

use crate::fixed::SCALE;

verus! {

/// Per-kind weight override for one pressure axis.
pub struct KindWeight {
    pub kind: String,
    pub weight: i64,
}

/// One named contribution to pressure: a weight applied to the signal
/// channel named by `expr`, optionally overridden per region kind.
pub struct PressureAxisConfig {
    pub name: String,
    pub weight: i64,
    pub expr: String,
    pub kind_weights: Vec<KindWeight>,
}

/// Temporal decay settings.  A half-life of zero disables that channel's
/// decay; `ema_alpha` is the scaled smoothing coefficient in `(0, SCALE]`.
#[derive(Clone, Copy)]
pub struct DecayConfig {
    pub fitness_half_life_ms: u64,
    pub confidence_half_life_ms: u64,
    pub ema_alpha: i64,
}

/// Activation gate: minimum total pressure, and the post-apply inhibition
/// window (zero disables inhibition).
#[derive(Clone, Copy)]
pub struct ActivationConfig {
    pub min_total_pressure: i64,
    pub inhibit_ms: u64,
}

/// Selection settings: at most `max_patches_per_tick` regions are patched
/// per tick, and a patch must promise at least `min_expected_improvement`.
#[derive(Clone, Copy)]
pub struct SelectionConfig {
    pub max_patches_per_tick: usize,
    pub min_expected_improvement: i64,
}

/// The kernel configuration.
pub struct KernelConfig {
    pub tick_interval_ms: u64,
    pub pressure_axes: Vec<PressureAxisConfig>,
    pub decay: DecayConfig,
    pub activation: ActivationConfig,
    pub selection: SelectionConfig,
}

/// Why a configuration was refused at construction.
#[derive(Clone, Copy, Debug, PartialEq, Eq, Structural)]
pub enum ConfigError {
    /// An axis weight or per-kind override is negative.
    NegativeWeight,
    /// `ema_alpha` lies outside `(0, SCALE]`.
    EmaAlphaOutOfRange,
    /// `min_expected_improvement` is negative.
    NegativeMinImprovement,
}

/// The override bound to `kind`, scanning from the front.
pub open spec fn kw_get(s: Seq<KindWeight>, kind: Seq<char>) -> Option<i64>
    decreases s.len(),
{
    if s.len() == 0 {
        None
    } else if s[0].kind@ == kind {
        Some(s[0].weight)
    } else {
        kw_get(s.drop_first(), kind)
    }
}

/// The first matching override decides the lookup.
proof fn lemma_kw_get_first_match(s: Seq<KindWeight>, kind: Seq<char>, i: int)
    requires
        0 <= i < s.len(),
        s[i].kind@ == kind,
        forall|j: int| 0 <= j < i ==> s[j].kind@ != kind,
    ensures
        kw_get(s, kind) == Some(s[i].weight),
    decreases s.len(),
{
    if i > 0 {
        assert(s.drop_first()[i - 1] == s[i]);
        assert(forall|j: int| 0 <= j < i - 1 ==> s.drop_first()[j] == s[j + 1]);
        lemma_kw_get_first_match(s.drop_first(), kind, i - 1);
    }
}

/// Without a matching override the lookup fails.
proof fn lemma_kw_get_absent(s: Seq<KindWeight>, kind: Seq<char>)
    requires
        forall|j: int| 0 <= j < s.len() ==> s[j].kind@ != kind,
    ensures
        kw_get(s, kind) == None::<i64>,
    decreases s.len(),
{
    if s.len() > 0 {
        assert(forall|j: int| 0 <= j < s.drop_first().len() ==> s.drop_first()[j] == s[j + 1]);
        lemma_kw_get_absent(s.drop_first(), kind);
    }
}

impl PressureAxisConfig {
    /// The base weight and every override are non-negative.
    pub open spec fn wf(&self) -> bool {
        &&& self.weight >= 0
        &&& forall|i: int|
            0 <= i < self.kind_weights@.len() ==> #[trigger] self.kind_weights@[i].weight >= 0
    }

    /// The effective weight of this axis for a region of `kind`.
    pub open spec fn spec_weight_for(&self, kind: Seq<char>) -> int {
        match kw_get(self.kind_weights@, kind) {
            Some(w) => w as int,
            None => self.weight as int,
        }
    }

    /// The effective weight of this axis for a region of `kind`.
    pub fn weight_for(&self, kind: &String) -> (w: i64)
        ensures
            w as int == self.spec_weight_for(kind@),
            self.wf() ==> w >= 0,
    {
        let n = self.kind_weights.len();
        let mut i: usize = 0;
        while i < n
            invariant
                n == self.kind_weights@.len(),
                0 <= i <= n,
                forall|j: int| 0 <= j < i ==> self.kind_weights@[j].kind@ != kind@,
            decreases n - i,
        {
            if self.kind_weights[i].kind == *kind {
                proof {
                    lemma_kw_get_first_match(self.kind_weights@, kind@, i as int);
                }
                return self.kind_weights[i].weight;
            }
            i = i + 1;
        }
        proof {
            lemma_kw_get_absent(self.kind_weights@, kind@);
        }
        self.weight
    }
}

impl KernelConfig {
    /// Every axis is well-formed, the smoothing coefficient lies in
    /// `(0, SCALE]`, and the selection gate is non-negative.
    pub open spec fn wf(&self) -> bool {
        &&& self.axes_wf()
        &&& 0 < self.decay.ema_alpha <= SCALE
        &&& self.selection.min_expected_improvement >= 0
    }

    /// Every axis weight and override is non-negative.
    pub open spec fn axes_wf(&self) -> bool {
        forall|i: int| 0 <= i < self.pressure_axes@.len() ==> (#[trigger] self.pressure_axes@[i]).wf()
    }

    /// Refuse a configuration that breaks a constraint, naming the first
    /// broken one; accept exactly the well-formed configurations.
    pub fn validate(&self) -> (r: Result<(), ConfigError>)
        ensures
            r is Ok <==> self.wf(),
            r == Err::<(), ConfigError>(ConfigError::NegativeWeight) <==> !self.axes_wf(),
            r == Err::<(), ConfigError>(ConfigError::EmaAlphaOutOfRange) <==> self.axes_wf() && !(0
                < self.decay.ema_alpha <= SCALE),
            r == Err::<(), ConfigError>(ConfigError::NegativeMinImprovement) <==> self.axes_wf()
                && 0 < self.decay.ema_alpha <= SCALE
                && self.selection.min_expected_improvement < 0,
    {
        let n = self.pressure_axes.len();
        let mut i: usize = 0;
        while i < n
            invariant
                n == self.pressure_axes@.len(),
                0 <= i <= n,
                forall|j: int| 0 <= j < i ==> (#[trigger] self.pressure_axes@[j]).wf(),
            decreases n - i,
        {
            let axis = &self.pressure_axes[i];
            if axis.weight < 0 {
                proof {
                    assert(!self.pressure_axes@[i as int].wf());
                }
                return Err(ConfigError::NegativeWeight);
            }
            let m = axis.kind_weights.len();
            let mut k: usize = 0;
            while k < m
                invariant
                    i < n,
                    n == self.pressure_axes@.len(),
                    *axis == self.pressure_axes@[i as int],
                    m == axis.kind_weights@.len(),
                    0 <= k <= m,
                    forall|j: int| 0 <= j < k ==> #[trigger] axis.kind_weights@[j].weight >= 0,
                decreases m - k,
            {
                if axis.kind_weights[k].weight < 0 {
                    proof {
                        assert(!self.pressure_axes@[i as int].wf());
                    }
                    return Err(ConfigError::NegativeWeight);
                }
                k = k + 1;
            }
            proof {
                assert(self.pressure_axes@[i as int].wf());
            }
            i = i + 1;
        }
        if !(0 < self.decay.ema_alpha && self.decay.ema_alpha <= SCALE) {
            return Err(ConfigError::EmaAlphaOutOfRange);
        }
        if self.selection.min_expected_improvement < 0 {
            return Err(ConfigError::NegativeMinImprovement);
        }
        Ok(())
    }
}

} // verus!
