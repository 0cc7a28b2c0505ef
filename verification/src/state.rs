//! Per-region kernel state and its state machine.
//!
//! One region actor owns all mutable kernel state for its region: the
//! version counter, smoothed signals, pressure, fitness, confidence and
//! inhibition.  Decay, measurement ingest, pressure queries and the
//! patch-acceptance rule are the only mutations.

use vstd::prelude::*;

use crate::config::{DecayConfig, KernelConfig};
use crate::engine::{
    compute_pressure, expected_improvement, spec_expected_improvement, spec_has_support,
    spec_pressure,
};
use crate::fixed::{
    add_sat, decay_factor, lemma_smul_factor_bounds, lemma_smul_identity, mul_scaled, sadd,
    spec_decay_factor, spec_ema, sub_sat, smul, EPSILON, SCALE,
};
use crate::region::RejectReason;
use crate::signals::Signals;

verus! {

/// The mutable kernel state of one region.
pub struct RegionState {
    /// Monotonic counter, incremented on every accepted patch.
    pub version: u64,
    /// Last measured signal map, EMA-smoothed.
    pub signals: Signals,
    /// Last computed scalar pressure.
    pub pressure: i64,
    /// Decaying memory of past pressure reductions.
    pub fitness: i64,
    /// Decaying count of successful applies (scaled; one apply adds SCALE).
    pub confidence: i64,
    /// The region is excluded from selection until tick time reaches this.
    pub inhibited_until_ms: u64,
    pub last_measured_ms: u64,
    pub last_applied_ms: u64,
    /// Reference point for decay intervals.
    pub last_touch_ms: u64,
}

/// The reply to a pressure query.
pub struct PressureResponse {
    pub pressure: i64,
    pub fitness: i64,
    pub confidence: i64,
    pub inhibited: bool,
}

/// The reply to a patch application.
pub struct RegionPatchResult {
    pub applied: bool,
    pub old_pressure: i64,
    pub new_pressure: i64,
    pub reason: Option<RejectReason>,
}

/// Elapsed time, clamped at zero for clocks that step backwards.
pub open spec fn spec_elapsed(now: int, last: int) -> int {
    if now >= last {
        now - last
    } else {
        0
    }
}

/// Relates a signal map before and after an EMA merge: channels the
/// measurement carries are blended (or taken unsmoothed when new), all
/// others keep their previous value.
pub open spec fn spec_ema_merged(
    before: Signals,
    incoming: Signals,
    alpha: int,
    after: Signals,
) -> bool {
    &&& after.wf()
    &&& forall|n: Seq<char>|
        #![auto]
        after.spec_get(n) == (match incoming.spec_get(n) {
            Some(nv) => Some(
                match before.spec_get(n) {
                    Some(ov) => (spec_ema(alpha, ov as int, nv as int)) as i64,
                    None => nv,
                },
            ),
            None => before.spec_get(n),
        })
}

/// The activation rule: pressure at or above the minimum, not
/// inhibited (or inhibition disabled), and at least one axis contributing.
pub open spec fn spec_activated(
    state: RegionState,
    config: KernelConfig,
    kind: Seq<char>,
    now: int,
) -> bool {
    &&& spec_pressure(config.pressure_axes@, kind, state.signals)
        >= config.activation.min_total_pressure
    &&& (config.activation.inhibit_ms == 0 || now >= state.inhibited_until_ms)
    &&& spec_has_support(config.pressure_axes@, kind, state.signals)
}

/// The patch-acceptance rule: fresh version, artifact applied the edit, a
/// post-apply measurement exists, the expected-improvement hint is
/// acceptable, and the re-measured pressure is strictly below the old
/// pressure by more than the epsilon tolerance.
pub open spec fn spec_accepts(
    state: RegionState,
    config: KernelConfig,
    kind: Seq<char>,
    base_version: u64,
    delta: Signals,
    artifact_ok: bool,
    post: Option<Signals>,
) -> bool {
    let imp = spec_expected_improvement(config.pressure_axes@, kind, delta);
    &&& base_version == state.version
    &&& artifact_ok
    &&& post is Some
    &&& (if config.selection.min_expected_improvement > 0 {
        imp > 0
    } else {
        imp >= 0
    })
    &&& spec_pressure(config.pressure_axes@, kind, post->Some_0) < spec_pressure(
        config.pressure_axes@,
        kind,
        state.signals,
    ) - EPSILON
}

/// The reported reason when a patch is rejected.
pub open spec fn spec_reject_reason(
    state: RegionState,
    base_version: u64,
    artifact_ok: bool,
) -> RejectReason {
    if base_version != state.version {
        RejectReason::StaleVersion
    } else if !artifact_ok {
        RejectReason::InvalidPatch
    } else {
        RejectReason::DidNotReduce
    }
}

impl RegionState {
    /// Signals well-formed, fitness and confidence non-negative.
    pub open spec fn wf(&self) -> bool {
        &&& self.signals.wf()
        &&& self.fitness >= 0
        &&& self.confidence >= 0
    }

    /// The initial state of a freshly spawned region actor.
    pub fn new() -> (s: RegionState)
        ensures
            s.wf(),
            s.version == 0,
            s.pressure == 0,
            s.fitness == 0,
            s.confidence == 0,
            s.inhibited_until_ms == 0,
            s.last_measured_ms == 0,
            s.last_applied_ms == 0,
            s.last_touch_ms == 0,
            s.signals.entries@.len() == 0,
    {
        RegionState {
            version: 0,
            signals: Signals::new(),
            pressure: 0,
            fitness: 0,
            confidence: 0,
            inhibited_until_ms: 0,
            last_measured_ms: 0,
            last_applied_ms: 0,
            last_touch_ms: 0,
        }
    }

    /// Decay fitness and confidence exponentially over the time elapsed
    /// since the last touch.  A half-life of zero disables that channel:
    /// the value is unchanged.
    pub fn apply_decay(&mut self, now_ms: u64, decay: &DecayConfig)
        requires
            old(self).wf(),
        ensures
            final(self).wf(),
            final(self).fitness as int == smul(
                old(self).fitness as int,
                spec_decay_factor(
                    spec_elapsed(now_ms as int, old(self).last_touch_ms as int),
                    decay.fitness_half_life_ms as int,
                ),
            ),
            final(self).confidence as int == smul(
                old(self).confidence as int,
                spec_decay_factor(
                    spec_elapsed(now_ms as int, old(self).last_touch_ms as int),
                    decay.confidence_half_life_ms as int,
                ),
            ),
            decay.fitness_half_life_ms == 0 ==> final(self).fitness == old(self).fitness,
            decay.confidence_half_life_ms == 0 ==> final(self).confidence == old(self).confidence,
            final(self).fitness <= old(self).fitness,
            final(self).confidence <= old(self).confidence,
            final(self).version == old(self).version,
            final(self).signals == old(self).signals,
            final(self).pressure == old(self).pressure,
            final(self).inhibited_until_ms == old(self).inhibited_until_ms,
            final(self).last_measured_ms == old(self).last_measured_ms,
            final(self).last_applied_ms == old(self).last_applied_ms,
            final(self).last_touch_ms == now_ms,
    {
        let dt: u64 = if now_ms >= self.last_touch_ms {
            now_ms - self.last_touch_ms
        } else {
            0
        };
        let ff = decay_factor(dt, decay.fitness_half_life_ms);
        let cf = decay_factor(dt, decay.confidence_half_life_ms);
        proof {
            lemma_smul_factor_bounds(self.fitness as int, ff as int);
            lemma_smul_factor_bounds(self.confidence as int, cf as int);
            if decay.fitness_half_life_ms == 0 {
                lemma_smul_identity(self.fitness as int);
            }
            if decay.confidence_half_life_ms == 0 {
                lemma_smul_identity(self.confidence as int);
            }
        }
        self.fitness = mul_scaled(self.fitness, ff);
        self.confidence = mul_scaled(self.confidence, cf);
        self.last_touch_ms = now_ms;
    }

    /// Blend one measurement into the smoothed signal map (§ signal
    /// smoothing): present channels are EMA-blended, new channels are
    /// taken unsmoothed, absent channels keep their previous value.
    pub fn ingest_measurement(&mut self, incoming: &Signals, ema_alpha: i64, now_ms: u64)
        requires
            old(self).wf(),
            incoming.wf(),
        ensures
            final(self).wf(),
            forall|n: Seq<char>|
                #![auto]
                final(self).signals.spec_get(n) == (match incoming.spec_get(n) {
                    Some(nv) => Some(
                        match old(self).signals.spec_get(n) {
                            Some(ov) => (spec_ema(ema_alpha as int, ov as int, nv as int)) as i64,
                            None => nv,
                        },
                    ),
                    None => old(self).signals.spec_get(n),
                }),
            spec_ema_merged(
                old(self).signals,
                *incoming,
                ema_alpha as int,
                final(self).signals,
            ),
            final(self).version == old(self).version,
            final(self).pressure == old(self).pressure,
            final(self).fitness == old(self).fitness,
            final(self).confidence == old(self).confidence,
            final(self).inhibited_until_ms == old(self).inhibited_until_ms,
            final(self).last_applied_ms == old(self).last_applied_ms,
            final(self).last_touch_ms == old(self).last_touch_ms,
            final(self).last_measured_ms == now_ms,
    {
        self.signals.ema_merge(incoming, ema_alpha);
        self.last_measured_ms = now_ms;
    }

    /// Compute the current pressure from the smoothed signals, cache it,
    /// and report pressure, fitness, confidence and inhibition.
    pub fn query_pressure(&mut self, config: &KernelConfig, kind: &String, now_ms: u64) -> (resp:
        PressureResponse)
        requires
            old(self).wf(),
        ensures
            final(self).wf(),
            resp.pressure as int == spec_pressure(config.pressure_axes@, kind@, old(self).signals),
            final(self).pressure == resp.pressure,
            resp.fitness == old(self).fitness,
            resp.confidence == old(self).confidence,
            resp.inhibited == (config.activation.inhibit_ms > 0 && now_ms < old(
                self,
            ).inhibited_until_ms),
            final(self).version == old(self).version,
            final(self).signals == old(self).signals,
            final(self).fitness == old(self).fitness,
            final(self).confidence == old(self).confidence,
            final(self).inhibited_until_ms == old(self).inhibited_until_ms,
            final(self).last_measured_ms == old(self).last_measured_ms,
            final(self).last_applied_ms == old(self).last_applied_ms,
            final(self).last_touch_ms == old(self).last_touch_ms,
    {
        let p = compute_pressure(&config.pressure_axes, kind, &self.signals);
        self.pressure = p;
        PressureResponse {
            pressure: p,
            fitness: self.fitness,
            confidence: self.confidence,
            inhibited: config.activation.inhibit_ms > 0 && now_ms < self.inhibited_until_ms,
        }
    }

    /// Validate and apply (or reject) a dispatched patch.
    ///
    /// `base_version` is the region version the proposal was made
    /// against; `artifact_ok` reports whether the artifact accepted the
    /// edit; `post` is the post-apply re-measurement, if one arrived.
    /// On acceptance the version advances, fitness grows by the observed
    /// reduction, confidence by one unit, and the inhibition window
    /// opens; on rejection the state is exactly the pre-apply snapshot.
    pub fn apply_patch(
        &mut self,
        base_version: u64,
        delta: &Signals,
        artifact_ok: bool,
        post: Option<Signals>,
        config: &KernelConfig,
        kind: &String,
        now_ms: u64,
    ) -> (res: RegionPatchResult)
        requires
            old(self).wf(),
            delta.wf(),
            post is Some ==> post->Some_0.wf(),
        ensures
            final(self).wf(),
            res.applied == spec_accepts(
                *old(self),
                *config,
                kind@,
                base_version,
                *delta,
                artifact_ok,
                post,
            ),
            res.old_pressure as int == spec_pressure(
                config.pressure_axes@,
                kind@,
                old(self).signals,
            ),
            res.applied ==> res.new_pressure as int == spec_pressure(
                config.pressure_axes@,
                kind@,
                post->Some_0,
            ),
            res.applied ==> res.new_pressure < res.old_pressure - EPSILON,
            res.applied ==> {
                &&& final(self).version as int == (if old(self).version == u64::MAX {
                    u64::MAX as int
                } else {
                    old(self).version + 1
                })
                &&& final(self).fitness as int == sadd(
                    old(self).fitness as int,
                    res.old_pressure - res.new_pressure,
                )
                &&& final(self).confidence as int == sadd(old(self).confidence as int, SCALE as int)
                &&& final(self).inhibited_until_ms as int == (if config.activation.inhibit_ms > 0 {
                    if now_ms + config.activation.inhibit_ms <= u64::MAX {
                        now_ms + config.activation.inhibit_ms
                    } else {
                        u64::MAX as int
                    }
                } else {
                    old(self).inhibited_until_ms as int
                })
                &&& final(self).last_applied_ms == now_ms
                &&& final(self).last_touch_ms == now_ms
                &&& final(self).signals == post->Some_0
                &&& final(self).pressure == res.new_pressure
            },
            !res.applied ==> *final(self) == *old(self),
            !res.applied ==> res.reason == Some(
                spec_reject_reason(*old(self), base_version, artifact_ok),
            ),
            res.applied ==> res.reason is None,
            final(self).version >= old(self).version,
            res.applied && config.activation.inhibit_ms > 0 ==> final(self).inhibited_until_ms
                >= final(self).last_applied_ms,
    {
        let old_p = compute_pressure(&config.pressure_axes, kind, &self.signals);
        if base_version != self.version {
            return RegionPatchResult {
                applied: false,
                old_pressure: old_p,
                new_pressure: old_p,
                reason: Some(RejectReason::StaleVersion),
            };
        }
        if !artifact_ok {
            return RegionPatchResult {
                applied: false,
                old_pressure: old_p,
                new_pressure: old_p,
                reason: Some(RejectReason::InvalidPatch),
            };
        }
        let imp = expected_improvement(&config.pressure_axes, kind, delta);
        let rule1 = if config.selection.min_expected_improvement > 0 {
            imp > 0
        } else {
            imp >= 0
        };
        if !rule1 {
            return RegionPatchResult {
                applied: false,
                old_pressure: old_p,
                new_pressure: old_p,
                reason: Some(RejectReason::DidNotReduce),
            };
        }
        match post {
            None => RegionPatchResult {
                applied: false,
                old_pressure: old_p,
                new_pressure: old_p,
                reason: Some(RejectReason::DidNotReduce),
            },
            Some(post_signals) => {
                let new_p = compute_pressure(&config.pressure_axes, kind, &post_signals);
                let reduction = sub_sat(old_p, new_p);
                if !(reduction > EPSILON) {
                    return RegionPatchResult {
                        applied: false,
                        old_pressure: old_p,
                        new_pressure: old_p,
                        reason: Some(RejectReason::DidNotReduce),
                    };
                }
                self.version = if self.version < u64::MAX {
                    self.version + 1
                } else {
                    self.version
                };
                self.fitness = add_sat(self.fitness, reduction);
                self.confidence = add_sat(self.confidence, SCALE);
                if config.activation.inhibit_ms > 0 {
                    self.inhibited_until_ms = now_ms.saturating_add(config.activation.inhibit_ms);
                }
                self.last_applied_ms = now_ms;
                self.last_touch_ms = now_ms;
                self.signals = post_signals;
                self.pressure = new_p;
                RegionPatchResult {
                    applied: true,
                    old_pressure: old_p,
                    new_pressure: new_p,
                    reason: None,
                }
            },
        }
    }
}

} // verus!
