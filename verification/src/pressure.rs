//! Weighted issue counts for shell-script pressure.
//!
//! Converts linter signals into a single scalar using configurable
//! weights per severity level, and exposes the equivalent axis
//! configuration for the kernel's pressure engine.

use vstd::prelude::*;

use crate::config::PressureAxisConfig;
use crate::fixed::{add_sat, mul_scaled, sadd, smul, SCALE};
use crate::signals::Signals;

verus! {

/// Scaled weights for the four severity levels.
#[derive(Clone, Copy)]
pub struct ShellcheckWeights {
    pub error: i64,
    pub warning: i64,
    pub info: i64,
    pub style: i64,
}

impl ShellcheckWeights {
    /// The default weighting: errors four times a unit, warnings twice,
    /// informational findings once, style findings half.
    pub fn new_default() -> (w: ShellcheckWeights)
        ensures
            w.error == 4 * SCALE,
            w.warning == 2 * SCALE,
            w.info == SCALE,
            w.style == SCALE / 2,
    {
        ShellcheckWeights {
            error: 4_000_000_000,
            warning: 2_000_000_000,
            info: 1_000_000_000,
            style: 500_000_000,
        }
    }
}

impl Default for ShellcheckWeights {
    fn default() -> (w: ShellcheckWeights)
        ensures
            w.error == 4 * SCALE,
            w.warning == 2 * SCALE,
            w.info == SCALE,
            w.style == SCALE / 2,
    {
        ShellcheckWeights::new_default()
    }
}

/// The weighted sum of the four severity-count channels.
pub open spec fn spec_shellcheck_pressure(w: ShellcheckWeights, sig: Signals) -> int {
    sadd(
        sadd(
            sadd(
                smul(sig.spec_value("error_count"@), w.error as int),
                smul(sig.spec_value("warning_count"@), w.warning as int),
            ),
            smul(sig.spec_value("info_count"@), w.info as int),
        ),
        smul(sig.spec_value("style_count"@), w.style as int),
    )
}

/// Calculates pressure from linter signals.
pub struct ShellcheckPressure {
    pub weights: ShellcheckWeights,
    pub activation_threshold: i64,
}

impl ShellcheckPressure {
    /// Default weights and an activation threshold of two units.
    pub fn new() -> (p: ShellcheckPressure)
        ensures
            p.weights.error == 4 * SCALE,
            p.weights.warning == 2 * SCALE,
            p.weights.info == SCALE,
            p.weights.style == SCALE / 2,
            p.activation_threshold == 2 * SCALE,
    {
        ShellcheckPressure {
            weights: ShellcheckWeights::new_default(),
            activation_threshold: 2_000_000_000,
        }
    }

    /// Custom weights with the default threshold.
    pub fn with_weights(weights: ShellcheckWeights) -> (p: ShellcheckPressure)
        ensures
            p.weights == weights,
            p.activation_threshold == 2 * SCALE,
    {
        ShellcheckPressure { weights, activation_threshold: 2_000_000_000 }
    }

    /// Replace the activation threshold.
    pub fn with_threshold(self, threshold: i64) -> (p: ShellcheckPressure)
        ensures
            p.weights == self.weights,
            p.activation_threshold == threshold,
    {
        ShellcheckPressure { weights: self.weights, activation_threshold: threshold }
    }

    /// The weighted sum of the severity counts in `signals`; an absent
    /// channel counts as zero.
    pub fn calculate(&self, signals: &Signals) -> (p: i64)
        requires
            signals.wf(),
        ensures
            p as int == spec_shellcheck_pressure(self.weights, *signals),
    {
        let e = signals.value_or_zero(&key_error_count());
        let w = signals.value_or_zero(&key_warning_count());
        let i = signals.value_or_zero(&key_info_count());
        let s = signals.value_or_zero(&key_style_count());
        add_sat(
            add_sat(
                add_sat(mul_scaled(e, self.weights.error), mul_scaled(w, self.weights.warning)),
                mul_scaled(i, self.weights.info),
            ),
            mul_scaled(s, self.weights.style),
        )
    }

    /// Whether the pressure reaches the activation threshold.
    pub fn is_active(&self, signals: &Signals) -> (b: bool)
        requires
            signals.wf(),
        ensures
            b == (spec_shellcheck_pressure(self.weights, *signals)
                >= self.activation_threshold as int),
    {
        self.calculate(signals) >= self.activation_threshold
    }

    /// The activation threshold.
    pub fn threshold(&self) -> (t: i64)
        ensures
            t == self.activation_threshold,
    {
        self.activation_threshold
    }

    /// The weights.
    pub fn weights(&self) -> (w: &ShellcheckWeights)
        ensures
            w == self.weights,
    {
        &self.weights
    }

    /// The kernel axis configuration equivalent to these weights: one
    /// axis per severity channel, each a unit-free weight on its count.
    pub fn pressure_axes(&self) -> (axes: Vec<PressureAxisConfig>)
        ensures
            axes@.len() == 4,
            axes@[0].name@ == "errors"@ && axes@[0].weight == self.weights.error && axes@[0].expr@
                == "error_count"@ && axes@[0].kind_weights@.len() == 0,
            axes@[1].name@ == "warnings"@ && axes@[1].weight == self.weights.warning
                && axes@[1].expr@ == "warning_count"@ && axes@[1].kind_weights@.len() == 0,
            axes@[2].name@ == "info"@ && axes@[2].weight == self.weights.info && axes@[2].expr@
                == "info_count"@ && axes@[2].kind_weights@.len() == 0,
            axes@[3].name@ == "style"@ && axes@[3].weight == self.weights.style && axes@[3].expr@
                == "style_count"@ && axes@[3].kind_weights@.len() == 0,
    {
        let mut axes: Vec<PressureAxisConfig> = Vec::new();
        axes.push(
            PressureAxisConfig {
                name: "errors".to_owned(),
                weight: self.weights.error,
                expr: key_error_count(),
                kind_weights: Vec::new(),
            },
        );
        axes.push(
            PressureAxisConfig {
                name: "warnings".to_owned(),
                weight: self.weights.warning,
                expr: key_warning_count(),
                kind_weights: Vec::new(),
            },
        );
        axes.push(
            PressureAxisConfig {
                name: "info".to_owned(),
                weight: self.weights.info,
                expr: key_info_count(),
                kind_weights: Vec::new(),
            },
        );
        axes.push(
            PressureAxisConfig {
                name: "style".to_owned(),
                weight: self.weights.style,
                expr: key_style_count(),
                kind_weights: Vec::new(),
            },
        );
        axes
    }
}

impl Default for ShellcheckPressure {
    fn default() -> (p: ShellcheckPressure)
        ensures
            p.weights.error == 4 * SCALE,
            p.weights.warning == 2 * SCALE,
            p.weights.info == SCALE,
            p.weights.style == SCALE / 2,
            p.activation_threshold == 2 * SCALE,
    {
        ShellcheckPressure::new()
    }
}

/// The signal channel counting error-level findings.
pub fn key_error_count() -> (s: String)
    ensures
        s@ == "error_count"@,
{
    "error_count".to_owned()
}

/// The signal channel counting warning-level findings.
pub fn key_warning_count() -> (s: String)
    ensures
        s@ == "warning_count"@,
{
    "warning_count".to_owned()
}

/// The signal channel counting informational findings.
pub fn key_info_count() -> (s: String)
    ensures
        s@ == "info_count"@,
{
    "info_count".to_owned()
}

/// The signal channel counting style findings.
pub fn key_style_count() -> (s: String)
    ensures
        s@ == "style_count"@,
{
    "style_count".to_owned()
}

} // verus!
