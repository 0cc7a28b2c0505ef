//! Experiment runs: their configuration, the kernel configuration they
//! induce, and the derived metrics.  Driving the actors, the linter and
//! the model calls is the caller's I/O; the mapping from an experiment
//! configuration to a kernel configuration and the metric arithmetic are
//! verified here.

use vstd::prelude::*;

use crate::config::{
    ActivationConfig, DecayConfig, KernelConfig, SelectionConfig,
};
use crate::fixed::{ssub, sub_sat, SCALE};
use crate::pressure::{ShellcheckPressure, ShellcheckWeights};

verus! {

/// Configuration for a single experiment run.  Real-valued settings are
/// scaled fixed-point numbers.
pub struct ExperimentConfig {
    /// Coordination strategy to use.
    pub strategy: String,
    /// Number of agents.
    pub agent_count: usize,
    /// Whether temporal decay is enabled.
    pub decay_enabled: bool,
    /// Whether inhibition is enabled.
    pub inhibition_enabled: bool,
    /// Maximum number of ticks.
    pub max_ticks: usize,
    /// Activation threshold for pressure (scaled).
    pub activation_threshold: i64,
    /// Pressure weights (scaled).
    pub pressure_weights: ShellcheckWeights,
    /// Fitness decay half-life in milliseconds.
    pub fitness_half_life_ms: u64,
    /// Confidence decay half-life in milliseconds.
    pub confidence_half_life_ms: u64,
    /// Inhibition window in milliseconds.
    pub inhibit_ms: u64,
    /// Model host URL.
    pub model_host: String,
    /// Model name.
    pub model: String,
}

impl ExperimentConfig {
    /// The default run: one agent, decay and inhibition on, fifty ticks,
    /// the default weights, ten-minute fitness and five-minute confidence
    /// half-lives, a one-minute inhibition window.
    pub fn new_default() -> (c: ExperimentConfig)
        ensures
            c.strategy@ == "pressure-field"@,
            c.agent_count == 1,
            c.decay_enabled,
            c.inhibition_enabled,
            c.max_ticks == 50,
            c.activation_threshold == 2 * SCALE,
            c.fitness_half_life_ms == 600000,
            c.confidence_half_life_ms == 300000,
            c.inhibit_ms == 60000,
            c.model@ == "qwen2.5-coder:1.5b"@,
    {
        ExperimentConfig {
            strategy: "pressure-field".to_owned(),
            agent_count: 1,
            decay_enabled: true,
            inhibition_enabled: true,
            max_ticks: 50,
            activation_threshold: 2_000_000_000,
            pressure_weights: ShellcheckWeights::new_default(),
            fitness_half_life_ms: 600_000,
            confidence_half_life_ms: 300_000,
            inhibit_ms: 60_000,
            model_host: "http://localhost:11434".to_owned(),
            model: "qwen2.5-coder:1.5b".to_owned(),
        }
    }

    /// The kernel configuration this run induces: one pressure axis per
    /// severity level under the run's weights, decay and inhibition
    /// mapped with zero as the disabled sentinel, and one patch slot per
    /// agent.  Any improvement is accepted.
    pub fn build_kernel_config(&self) -> (k: KernelConfig)
        ensures
            k.tick_interval_ms == 1000,
            k.pressure_axes@.len() == 4,
            k.pressure_axes@[0].weight == self.pressure_weights.error,
            k.pressure_axes@[0].expr@ == "error_count"@,
            k.pressure_axes@[1].weight == self.pressure_weights.warning,
            k.pressure_axes@[1].expr@ == "warning_count"@,
            k.pressure_axes@[2].weight == self.pressure_weights.info,
            k.pressure_axes@[2].expr@ == "info_count"@,
            k.pressure_axes@[3].weight == self.pressure_weights.style,
            k.pressure_axes@[3].expr@ == "style_count"@,
            k.decay.fitness_half_life_ms == (if self.decay_enabled {
                self.fitness_half_life_ms
            } else {
                0
            }),
            k.decay.confidence_half_life_ms == (if self.decay_enabled {
                self.confidence_half_life_ms
            } else {
                0
            }),
            k.decay.ema_alpha == SCALE / 5,
            k.activation.min_total_pressure == self.activation_threshold,
            k.activation.inhibit_ms == (if self.inhibition_enabled {
                self.inhibit_ms
            } else {
                0
            }),
            k.selection.max_patches_per_tick == self.agent_count,
            k.selection.min_expected_improvement == 0,
    {
        let axes = ShellcheckPressure::with_weights(self.pressure_weights).pressure_axes();
        KernelConfig {
            tick_interval_ms: 1000,
            pressure_axes: axes,
            decay: DecayConfig {
                fitness_half_life_ms: if self.decay_enabled {
                    self.fitness_half_life_ms
                } else {
                    0
                },
                confidence_half_life_ms: if self.decay_enabled {
                    self.confidence_half_life_ms
                } else {
                    0
                },
                ema_alpha: 200_000_000,
            },
            activation: ActivationConfig {
                min_total_pressure: self.activation_threshold,
                inhibit_ms: if self.inhibition_enabled {
                    self.inhibit_ms
                } else {
                    0
                },
            },
            selection: SelectionConfig {
                max_patches_per_tick: self.agent_count,
                min_expected_improvement: 0,
            },
        }
    }
}

/// Metrics collected during an experiment run; real values are scaled.
pub struct ExperimentMetrics {
    pub total_ticks: usize,
    pub llm_calls: usize,
    pub patches_applied: usize,
    pub patches_rejected: usize,
    pub initial_pressure: i64,
    pub final_pressure: i64,
    /// Scaled ratio `(initial - final) / initial`.
    pub pressure_reduction: i64,
    /// Scaled ratio `(initial - final) / llm_calls`.
    pub llm_efficiency: i64,
    pub pressure_history: Vec<i64>,
    pub llm_calls_history: Vec<usize>,
}

impl ExperimentMetrics {
    /// Fresh metrics: everything zero, histories empty.
    pub fn new_empty() -> (m: ExperimentMetrics)
        ensures
            m.total_ticks == 0,
            m.llm_calls == 0,
            m.patches_applied == 0,
            m.patches_rejected == 0,
            m.initial_pressure == 0,
            m.final_pressure == 0,
            m.pressure_reduction == 0,
            m.llm_efficiency == 0,
            m.pressure_history@.len() == 0,
            m.llm_calls_history@.len() == 0,
    {
        ExperimentMetrics {
            total_ticks: 0,
            llm_calls: 0,
            patches_applied: 0,
            patches_rejected: 0,
            initial_pressure: 0,
            final_pressure: 0,
            pressure_reduction: 0,
            llm_efficiency: 0,
            pressure_history: Vec::new(),
            llm_calls_history: Vec::new(),
        }
    }

    /// Derive the summary ratios once a run ends: the relative pressure
    /// reduction (zero when the run started at no pressure) and the
    /// reduction per model call (zero without calls).
    pub fn finalize(&mut self)
        ensures
            final(self).initial_pressure == old(self).initial_pressure,
            final(self).final_pressure == old(self).final_pressure,
            final(self).llm_calls == old(self).llm_calls,
            final(self).total_ticks == old(self).total_ticks,
            final(self).patches_applied == old(self).patches_applied,
            final(self).patches_rejected == old(self).patches_rejected,
            final(self).pressure_history == old(self).pressure_history,
            final(self).llm_calls_history == old(self).llm_calls_history,
            final(self).pressure_reduction as int == (if old(self).initial_pressure > 0 {
                spec_ratio_scaled(
                    ssub(old(self).initial_pressure as int, old(self).final_pressure as int),
                    old(self).initial_pressure as int,
                )
            } else {
                0int
            }),
            final(self).llm_efficiency as int == (if old(self).llm_calls > 0 {
                spec_per_call(
                    ssub(old(self).initial_pressure as int, old(self).final_pressure as int),
                    old(self).llm_calls as int,
                )
            } else {
                0int
            }),
    {
        let delta = sub_sat(self.initial_pressure, self.final_pressure);
        if self.initial_pressure > 0 {
            self.pressure_reduction = ratio_scaled(delta, self.initial_pressure);
        } else {
            self.pressure_reduction = 0;
        }
        if self.llm_calls > 0 {
            self.llm_efficiency = per_call(delta, self.llm_calls);
        } else {
            self.llm_efficiency = 0;
        }
    }
}

/// The scaled quotient `num * SCALE / den`, truncated toward zero with
/// the magnitude clamped into the representable range.
pub open spec fn spec_ratio_scaled(num: int, den: int) -> int {
    let m = crate::fixed::clamp_mag(
        (crate::fixed::mag(num) * (SCALE as int)) / crate::fixed::mag(den),
    );
    if (num < 0) == (den < 0) {
        m
    } else {
        -m
    }
}

/// The quotient `num / den`, truncated toward zero with the magnitude
/// clamped into the representable range.
pub open spec fn spec_per_call(num: int, den: int) -> int {
    let m = crate::fixed::clamp_mag(crate::fixed::mag(num) / crate::fixed::mag(den));
    if (num < 0) == (den < 0) {
        m
    } else {
        -m
    }
}

/// Compute `num * SCALE / den` in fixed point.
fn ratio_scaled(num: i64, den: i64) -> (r: i64)
    requires
        den != 0,
    ensures
        r as int == spec_ratio_scaled(num as int, den as int),
{
    let neg: bool = (num < 0) != (den < 0);
    let ma: u128 = mag_u128(num);
    let mb: u128 = mag_u128(den);
    proof {
        assert(ma * 1_000_000_000 <= 0x8000_0000_0000_0000u128 * 1_000_000_000) by (nonlinear_arith)
            requires
                ma <= 0x8000_0000_0000_0000u128,
        ;
        vstd::arithmetic::div_mod::lemma_div_pos_is_pos((ma * 1_000_000_000) as int, mb as int);
    }
    let p: u128 = ma * 1_000_000_000u128;
    let q: u128 = p / mb;
    let m: i64 = if q > i64::MAX as u128 {
        i64::MAX
    } else {
        q as i64
    };
    if neg {
        -m
    } else {
        m
    }
}

/// Compute `num / den`, truncated toward zero.
fn per_call(num: i64, den: usize) -> (r: i64)
    requires
        den > 0,
    ensures
        r as int == spec_per_call(num as int, den as int),
{
    let ma: u128 = mag_u128(num);
    let mb: u128 = den as u128;
    let q: u128 = ma / mb;
    proof {
        vstd::arithmetic::div_mod::lemma_div_pos_is_pos(ma as int, mb as int);
        vstd::arithmetic::div_mod::lemma_div_nonincreasing(ma as int, mb as int);
    }
    let m: i64 = if q > i64::MAX as u128 {
        i64::MAX
    } else {
        q as i64
    };
    if num < 0 {
        -m
    } else {
        m
    }
}

/// Magnitude of an `i64`, widened so the smallest value is representable.
fn mag_u128(a: i64) -> (m: u128)
    ensures
        m as int == crate::fixed::mag(a as int),
{
    if a >= 0 {
        a as u128
    } else {
        let w: i128 = a as i128;
        (-w) as u128
    }
}

} // verus!
