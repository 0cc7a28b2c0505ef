//! The coordinator: drives one logical tick as a strict sequence of
//! phases over the region slots it owns.
//!
//! Concurrency lives outside this module: sensors and proposers run
//! elsewhere and answer through correlated messages.  The coordinator is
//! the decision core — each phase is a function from state and replies to
//! the next state and the requests of the following phase.  Phase
//! boundaries purge the in-flight tables, so a late reply is discarded.

use vstd::prelude::*;

use crate::config::{ConfigError, KernelConfig};
use crate::fixed::{smul, spec_decay_factor};
use crate::messages::{
    AppliedRecord, MeasureRegion, MeasurementResult, PatchProposal, ProposeForRegion,
    RegionApplyPatch, RejectedRecord, ScoredPatch, TickComplete,
};
use crate::region::{Patch, PatchOp, RegionId};
use crate::signals::{clone_string, Signals};
use crate::config::PressureAxisConfig;
use crate::engine::{expected_improvement, spec_expected_improvement, spec_pressure};
use crate::fixed::{add_sat, sadd, EPSILON};
use crate::region::RejectReason;
use crate::state::{spec_accepts, spec_reject_reason, RegionPatchResult};
use crate::state::{spec_activated, spec_elapsed, spec_ema_merged, RegionState};

verus! {

/// One region slot owned by the coordinator: the stable id, the kind tag,
/// and the region actor's state.
pub struct RegionSlot {
    pub id: RegionId,
    pub kind: String,
    pub state: RegionState,
}

/// The identity of a region at kernel spawn.
pub struct RegionInit {
    pub id: RegionId,
    pub kind: String,
}

/// An outstanding measurement: which region and sensor a correlation id
/// was issued for.
pub struct MeasEntry {
    pub correlation_id: u128,
    pub region_index: usize,
    pub sensor_name: String,
}

/// An outstanding proposal: which region a correlation id was issued for,
/// and the region version the snapshot carried.
pub struct PropEntry {
    pub correlation_id: u128,
    pub region_index: usize,
    pub base_version: u64,
}

/// Patches returned for one region, awaiting selection.
pub struct PendingPatches {
    pub region_index: usize,
    pub base_version: u64,
    pub patches: Vec<crate::messages::ScoredPatch>,
}

/// The outcome of one dispatched patch, kept for the tick report.
pub struct TickRecord {
    pub region_id: RegionId,
    pub applied: bool,
    pub old_pressure: i64,
    pub new_pressure: i64,
    pub reason: Option<crate::region::RejectReason>,
}

/// The coordinator state.
pub struct Kernel {
    pub config: KernelConfig,
    pub regions: Vec<RegionSlot>,
    pub tick_id: u64,
    /// Sequence number of the next correlation id within this tick.
    pub corr_counter: u64,
    pub measurements: Vec<MeasEntry>,
    pub proposals: Vec<PropEntry>,
    pub pending: Vec<PendingPatches>,
    pub records: Vec<TickRecord>,
    pub proposer_count: usize,
    pub next_proposer: usize,
}

/// Correlation ids are time-ordered: the tick number in the upper half,
/// a per-tick sequence number in the lower half.
pub open spec fn corr_base(tick: u64) -> int {
    tick as int * 0x1_0000_0000_0000_0000
}

/// Whether a correlation id is live in a measurement table.
pub open spec fn meas_has(t: Seq<MeasEntry>, id: u128) -> bool {
    exists|k: int| 0 <= k < t.len() && (#[trigger] t[k]).correlation_id == id
}

/// Whether the table holds an entry for region `i` and sensor `sname`.
pub open spec fn meas_covers(t: Seq<MeasEntry>, i: int, sname: Seq<char>) -> bool {
    exists|k: int|
        #![auto]
        0 <= k < t.len() && t[k].region_index == i && t[k].sensor_name@ == sname
}

/// Whether a correlation id is live in a proposal table.
pub open spec fn prop_has(t: Seq<PropEntry>, id: u128) -> bool {
    exists|k: int| 0 <= k < t.len() && (#[trigger] t[k]).correlation_id == id
}

/// Well-formedness of a measurement table: indices in range, ids below
/// the issuance bound and pairwise distinct.
pub open spec fn meas_table_wf(t: Seq<MeasEntry>, nregions: int, bound: int) -> bool {
    &&& forall|k: int| 0 <= k < t.len() ==> (#[trigger] t[k]).region_index < nregions
    &&& forall|k: int| 0 <= k < t.len() ==> (#[trigger] t[k]).correlation_id < bound
    &&& forall|k1: int, k2: int|
        0 <= k1 < k2 < t.len() ==> t[k1].correlation_id != t[k2].correlation_id
}

/// Well-formedness of a proposal table: indices in range, ids below the
/// issuance bound and pairwise distinct.
pub open spec fn prop_table_wf(t: Seq<PropEntry>, nregions: int, bound: int) -> bool {
    &&& forall|k: int| 0 <= k < t.len() ==> (#[trigger] t[k]).region_index < nregions
    &&& forall|k: int| 0 <= k < t.len() ==> (#[trigger] t[k]).correlation_id < bound
    &&& forall|k1: int, k2: int|
        0 <= k1 < k2 < t.len() ==> t[k1].correlation_id != t[k2].correlation_id
}

impl Kernel {
    /// Region ids are pairwise distinct: exactly one slot owns each id.
    pub open spec fn ids_unique(&self) -> bool {
        forall|i: int, j: int|
            0 <= i < j < self.regions@.len() ==> self.regions@[i].id != self.regions@[j].id
    }

    /// The issuance bound: every id handed out so far is below it.
    pub open spec fn corr_bound(&self) -> int {
        corr_base(self.tick_id) + self.corr_counter
    }

    /// The coordinator invariant.
    pub open spec fn wf(&self) -> bool {
        &&& self.config.wf()
        &&& forall|i: int|
            0 <= i < self.regions@.len() ==> (#[trigger] self.regions@[i]).state.wf()
        &&& self.ids_unique()
        &&& (self.config.activation.inhibit_ms == 0 ==> forall|i: int|
            0 <= i < self.regions@.len() ==> (#[trigger] self.regions@[i]).state.inhibited_until_ms
                == 0)
        &&& meas_table_wf(self.measurements@, self.regions@.len() as int, self.corr_bound())
        &&& prop_table_wf(self.proposals@, self.regions@.len() as int, self.corr_bound())
        &&& forall|k: int|
            0 <= k < self.pending@.len() ==> (#[trigger] self.pending@[k]).region_index
                < self.regions@.len()
        &&& forall|k: int, t: int|
            0 <= k < self.pending@.len() && 0 <= t < self.pending@[k].patches@.len() ==> (
            #[trigger] self.pending@[k].patches@[t]).patch.expected_delta.wf()
        &&& (self.proposer_count > 0 ==> self.next_proposer < self.proposer_count)
    }

    /// Spawn a kernel from a validated configuration and the artifact's
    /// initial region list.  Construction fails fast on a bad
    /// configuration and never otherwise.
    #[verifier::loop_isolation(false)]
    pub fn new(config: KernelConfig, inits: &Vec<RegionInit>, proposer_count: usize) -> (r: Result<
        Kernel,
        ConfigError,
    >)
        requires
            forall|i: int, j: int|
                0 <= i < j < inits@.len() ==> inits@[i].id != inits@[j].id,
        ensures
            r is Ok <==> config.wf(),
            r is Ok ==> {
                let k = r->Ok_0;
                &&& k.wf()
                &&& k.config == config
                &&& k.regions@.len() == inits@.len()
                &&& forall|i: int|
                    0 <= i < inits@.len() ==> (#[trigger] k.regions@[i]).id == inits@[i].id
                        && k.regions@[i].kind@ == inits@[i].kind@
                        && k.regions@[i].state.version == 0
                        && k.regions@[i].state.fitness == 0
                        && k.regions@[i].state.confidence == 0
                        && k.regions@[i].state.inhibited_until_ms == 0
                        && k.regions@[i].state.signals.entries@.len() == 0
                &&& k.tick_id == 0
                &&& k.measurements@.len() == 0
                &&& k.proposals@.len() == 0
                &&& k.pending@.len() == 0
                &&& k.records@.len() == 0
                &&& k.proposer_count == proposer_count
                &&& k.next_proposer == 0
            },
    {
        match config.validate() {
            Err(e) => Err(e),
            Ok(()) => {
                let n = inits.len();
                let mut regions: Vec<RegionSlot> = Vec::new();
                let mut i: usize = 0;
                while i < n
                    invariant
                        n == inits@.len(),
                        0 <= i <= n,
                        regions@.len() == i,
                        forall|j: int, l: int|
                            0 <= j < l < inits@.len() ==> inits@[j].id != inits@[l].id,
                        forall|j: int|
                            0 <= j < i ==> (#[trigger] regions@[j]).id == inits@[j].id
                                && regions@[j].kind@ == inits@[j].kind@
                                && regions@[j].state.wf()
                                && regions@[j].state.version == 0
                                && regions@[j].state.fitness == 0
                                && regions@[j].state.confidence == 0
                                && regions@[j].state.inhibited_until_ms == 0
                                && regions@[j].state.signals.entries@.len() == 0,
                    decreases n - i,
                {
                    let slot = RegionSlot {
                        id: inits[i].id,
                        kind: clone_string(&inits[i].kind),
                        state: RegionState::new(),
                    };
                    regions.push(slot);
                    i = i + 1;
                }
                Ok(
                    Kernel {
                        config,
                        regions,
                        tick_id: 0,
                        corr_counter: 0,
                        measurements: Vec::new(),
                        proposals: Vec::new(),
                        pending: Vec::new(),
                        records: Vec::new(),
                        proposer_count,
                        next_proposer: 0,
                    },
                )
            },
        }
    }

    /// Issue a fresh, time-ordered correlation id.
    fn fresh_corr_id(&mut self) -> (id: u128)
        requires
            old(self).corr_counter < u64::MAX,
        ensures
            id as int == old(self).corr_bound(),
            final(self).corr_counter == old(self).corr_counter + 1,
            final(self).corr_bound() == old(self).corr_bound() + 1,
            final(self).config == old(self).config,
            final(self).regions == old(self).regions,
            final(self).tick_id == old(self).tick_id,
            final(self).measurements == old(self).measurements,
            final(self).proposals == old(self).proposals,
            final(self).pending == old(self).pending,
            final(self).records == old(self).records,
            final(self).proposer_count == old(self).proposer_count,
            final(self).next_proposer == old(self).next_proposer,
    {
        proof {
            assert((self.tick_id as int) * 0x1_0000_0000_0000_0000
                <= 0xffff_ffff_ffff_ffffu64 as int * 0x1_0000_0000_0000_0000) by (nonlinear_arith)
                requires
                    self.tick_id as int <= 0xffff_ffff_ffff_ffffu64 as int,
            ;
        }
        let base: u128 = (self.tick_id as u128) * 0x1_0000_0000_0000_0000u128;
        let id: u128 = base + (self.corr_counter as u128);
        self.corr_counter = self.corr_counter + 1;
        id
    }

    /// Phase 1 and 2 — decay, then fan out measurement requests.
    ///
    /// Every region's fitness and confidence decay over the time since
    /// their last touch (a half-life of zero leaves the channel
    /// untouched).  Then one measurement request per region and sensor is
    /// issued, each under a fresh correlation id recorded in the in-flight
    /// table.  The previous tick's tables and records are purged first.
    #[verifier::loop_isolation(false)]
    pub fn begin_tick(&mut self, now_ms: u64, sensors: &Vec<String>) -> (reqs: Vec<MeasureRegion>)
        requires
            old(self).wf(),
            old(self).regions@.len() * sensors@.len() < u64::MAX,
        ensures
            final(self).wf(),
            final(self).config == old(self).config,
            final(self).regions@.len() == old(self).regions@.len(),
            final(self).tick_id as int == (if old(self).tick_id == u64::MAX {
                u64::MAX as int
            } else {
                old(self).tick_id + 1
            }),
            forall|i: int|
                #![trigger final(self).regions@[i]]
                0 <= i < old(self).regions@.len() ==> {
                    let o = old(self).regions@[i];
                    let f = final(self).regions@[i];
                    let dt = spec_elapsed(now_ms as int, o.state.last_touch_ms as int);
                    &&& f.id == o.id
                    &&& f.kind == o.kind
                    &&& f.state.version == o.state.version
                    &&& f.state.signals == o.state.signals
                    &&& f.state.pressure == o.state.pressure
                    &&& f.state.inhibited_until_ms == o.state.inhibited_until_ms
                    &&& f.state.last_measured_ms == o.state.last_measured_ms
                    &&& f.state.last_applied_ms == o.state.last_applied_ms
                    &&& f.state.last_touch_ms == now_ms
                    &&& f.state.fitness as int == smul(
                        o.state.fitness as int,
                        spec_decay_factor(
                            dt,
                            old(self).config.decay.fitness_half_life_ms as int,
                        ),
                    )
                    &&& f.state.confidence as int == smul(
                        o.state.confidence as int,
                        spec_decay_factor(
                            dt,
                            old(self).config.decay.confidence_half_life_ms as int,
                        ),
                    )
                    &&& f.state.fitness <= o.state.fitness
                    &&& f.state.confidence <= o.state.confidence
                    &&& (old(self).config.decay.fitness_half_life_ms == 0 ==> f.state.fitness
                        == o.state.fitness)
                    &&& (old(self).config.decay.confidence_half_life_ms == 0
                        ==> f.state.confidence == o.state.confidence)
                    &&& f.state.version >= o.state.version
                },
            reqs@.len() == old(self).regions@.len() * sensors@.len(),
            final(self).measurements@.len() == reqs@.len(),
            forall|k: int|
                #![trigger final(self).measurements@[k]]
                0 <= k < reqs@.len() ==> {
                    let e = final(self).measurements@[k];
                    &&& e.correlation_id == reqs@[k].correlation_id
                    &&& e.region_index < final(self).regions@.len()
                    &&& final(self).regions@[e.region_index as int].id == reqs@[k].region_id
                    &&& e.sensor_name@ == reqs@[k].sensor_name@
                },
            forall|i: int, s: int|
                0 <= i < old(self).regions@.len() && 0 <= s < sensors@.len()
                    ==> #[trigger] meas_covers(final(self).measurements@, i, sensors@[s]@),
            final(self).proposals@.len() == 0,
            final(self).pending@.len() == 0,
            final(self).records@.len() == 0,
            final(self).proposer_count == old(self).proposer_count,
            final(self).next_proposer == old(self).next_proposer,
    {
        // Phase boundaries: drop everything left over from the last tick.
        self.measurements.clear();
        self.proposals.clear();
        self.pending.clear();
        self.records.clear();
        self.tick_id = if self.tick_id < u64::MAX {
            self.tick_id + 1
        } else {
            self.tick_id
        };
        self.corr_counter = 0;

        let decay = self.config.decay;
        let n = self.regions.len();
        let ghost regs0 = self.regions@;
        let mut i: usize = 0;
        while i < n
            invariant
                n == self.regions@.len(),
                regs0.len() == n,
                0 <= i <= n,
                self.config == old(self).config,
                self.config.decay == decay,
                self.tick_id as int == (if old(self).tick_id == u64::MAX {
                    u64::MAX as int
                } else {
                    old(self).tick_id + 1
                }),
                self.corr_counter == 0,
                self.measurements@.len() == 0,
                self.proposals@.len() == 0,
                self.pending@.len() == 0,
                self.records@.len() == 0,
                self.proposer_count == old(self).proposer_count,
                self.next_proposer == old(self).next_proposer,
                forall|j: int| i <= j < n ==> (#[trigger] regs0[j]).state.wf(),
                forall|j: int| i <= j < n ==> self.regions@[j] == regs0[j],
                forall|j: int|
                    #![trigger self.regions@[j]]
                    0 <= j < i ==> {
                        let o = regs0[j];
                        let f = self.regions@[j];
                        let dt = spec_elapsed(now_ms as int, o.state.last_touch_ms as int);
                        &&& f.id == o.id
                        &&& f.kind == o.kind
                        &&& f.state.wf()
                        &&& f.state.version == o.state.version
                        &&& f.state.signals == o.state.signals
                        &&& f.state.pressure == o.state.pressure
                        &&& f.state.inhibited_until_ms == o.state.inhibited_until_ms
                        &&& f.state.last_measured_ms == o.state.last_measured_ms
                        &&& f.state.last_applied_ms == o.state.last_applied_ms
                        &&& f.state.last_touch_ms == now_ms
                        &&& f.state.fitness as int == smul(
                            o.state.fitness as int,
                            spec_decay_factor(dt, decay.fitness_half_life_ms as int),
                        )
                        &&& f.state.confidence as int == smul(
                            o.state.confidence as int,
                            spec_decay_factor(dt, decay.confidence_half_life_ms as int),
                        )
                        &&& f.state.fitness <= o.state.fitness
                        &&& f.state.confidence <= o.state.confidence
                        &&& (decay.fitness_half_life_ms == 0 ==> f.state.fitness
                            == o.state.fitness)
                        &&& (decay.confidence_half_life_ms == 0 ==> f.state.confidence
                            == o.state.confidence)
                    },
                forall|j: int| 0 <= j < i ==> (#[trigger] self.regions@[j]).state.wf(),
            decreases n - i,
        {
            proof {
                assert(self.regions@[i as int] == regs0[i as int]);
                assert(regs0[i as int].state.wf());
            }
            self.regions[i].state.apply_decay(now_ms, &decay);
            i = i + 1;
        }

        // Phase 2: one request per region and sensor.
        let ns = sensors.len();
        let ghost regs1 = self.regions@;
        let mut reqs: Vec<MeasureRegion> = Vec::new();
        let mut ri: usize = 0;
        while ri < n
            invariant
                n == self.regions@.len(),
                ns == sensors@.len(),
                self.regions@ == regs1,
                0 <= ri <= n,
                n * ns < u64::MAX,
                self.config == old(self).config,
                self.tick_id as int == (if old(self).tick_id == u64::MAX {
                    u64::MAX as int
                } else {
                    old(self).tick_id + 1
                }),
                self.proposals@.len() == 0,
                self.pending@.len() == 0,
                self.records@.len() == 0,
                self.proposer_count == old(self).proposer_count,
                self.next_proposer == old(self).next_proposer,
                reqs@.len() == ri * ns,
                self.corr_counter as int == reqs@.len(),
                self.measurements@.len() == reqs@.len(),
                forall|k: int|
                    #![trigger self.measurements@[k]]
                    0 <= k < reqs@.len() ==> {
                        let e = self.measurements@[k];
                        &&& e.correlation_id as int == corr_base(self.tick_id) + k
                        &&& e.correlation_id == reqs@[k].correlation_id
                        &&& e.region_index < n
                        &&& self.regions@[e.region_index as int].id == reqs@[k].region_id
                        &&& e.sensor_name@ == reqs@[k].sensor_name@
                    },
                forall|i2: int, s2: int|
                    0 <= i2 < ri && 0 <= s2 < ns ==> #[trigger] meas_covers(
                        self.measurements@,
                        i2,
                        sensors@[s2]@,
                    ),
            decreases n - ri,
        {
            proof {
                assert((ri + 1) * ns == ri * ns + ns) by (nonlinear_arith);
                assert(ri * ns + ns <= n * ns) by (nonlinear_arith)
                    requires
                        0 <= ri < n,
                        0 <= ns,
                ;
            }
            let mut si: usize = 0;
            while si < ns
                invariant
                    n == self.regions@.len(),
                    ns == sensors@.len(),
                    self.regions@ == regs1,
                    0 <= ri < n,
                    0 <= si <= ns,
                    n * ns < u64::MAX,
                    ri * ns + ns <= n * ns,
                    self.config == old(self).config,
                    self.tick_id as int == (if old(self).tick_id == u64::MAX {
                        u64::MAX as int
                    } else {
                        old(self).tick_id + 1
                    }),
                    self.proposals@.len() == 0,
                    self.pending@.len() == 0,
                    self.records@.len() == 0,
                    self.proposer_count == old(self).proposer_count,
                    self.next_proposer == old(self).next_proposer,
                    reqs@.len() == ri * ns + si,
                    self.corr_counter as int == reqs@.len(),
                    self.measurements@.len() == reqs@.len(),
                    forall|k: int|
                        #![trigger self.measurements@[k]]
                        0 <= k < reqs@.len() ==> {
                            let e = self.measurements@[k];
                            &&& e.correlation_id as int == corr_base(self.tick_id) + k
                            &&& e.correlation_id == reqs@[k].correlation_id
                            &&& e.region_index < n
                            &&& self.regions@[e.region_index as int].id == reqs@[k].region_id
                            &&& e.sensor_name@ == reqs@[k].sensor_name@
                        },
                    forall|i2: int, s2: int|
                        0 <= i2 < ri && 0 <= s2 < ns ==> #[trigger] meas_covers(
                            self.measurements@,
                            i2,
                            sensors@[s2]@,
                        ),
                    forall|s2: int|
                        0 <= s2 < si ==> #[trigger] meas_covers(
                            self.measurements@,
                            ri as int,
                            sensors@[s2]@,
                        ),
                decreases ns - si,
            {
                let id = self.fresh_corr_id();
                let sensor_name = clone_string(&sensors[si]);
                let req = MeasureRegion {
                    correlation_id: id,
                    region_id: self.regions[ri].id,
                    sensor_name,
                };
                let entry = MeasEntry {
                    correlation_id: id,
                    region_index: ri,
                    sensor_name: clone_string(&sensors[si]),
                };
                let ghost t_pre = self.measurements@;
                self.measurements.push(entry);
                reqs.push(req);
                proof {
                    assert forall|i2: int, s2: int|
                        0 <= i2 < ri && 0 <= s2 < ns implies meas_covers(
                        self.measurements@,
                        i2,
                        sensors@[s2]@,
                    ) by {
                        assert(meas_covers(t_pre, i2, sensors@[s2]@));
                        let k = choose|k: int|
                            #![auto]
                            0 <= k < t_pre.len() && t_pre[k].region_index == i2
                                && t_pre[k].sensor_name@ == sensors@[s2]@;
                        assert(self.measurements@[k] == t_pre[k]);
                    }
                    assert forall|s2: int| 0 <= s2 < si + 1 implies meas_covers(
                        self.measurements@,
                        ri as int,
                        sensors@[s2]@,
                    ) by {
                        if s2 < si {
                            assert(meas_covers(t_pre, ri as int, sensors@[s2]@));
                            let k = choose|k: int|
                                #![auto]
                                0 <= k < t_pre.len() && t_pre[k].region_index == ri as int
                                    && t_pre[k].sensor_name@ == sensors@[s2]@;
                            assert(self.measurements@[k] == t_pre[k]);
                        } else {
                            let last = t_pre.len() as int;
                            assert(self.measurements@[last] == entry);
                        }
                    }
                }
                si = si + 1;
            }
            ri = ri + 1;
        }
        proof {
            assert(reqs@.len() == n * ns);
            assert(meas_table_wf(
                self.measurements@,
                self.regions@.len() as int,
                self.corr_bound(),
            ));
        }
        reqs
    }

    /// Route one measurement result.  A result whose correlation id is
    /// not live is discarded untouched; a live id is consumed either way.
    /// When the result's region id matches the entry's region, that
    /// region's signals are EMA-blended; the routed region index is
    /// returned.
    #[verifier::loop_isolation(false)]
    pub fn ingest_measurement(&mut self, m: &MeasurementResult, now_ms: u64) -> (routed: Option<
        usize,
    >)
        requires
            old(self).wf(),
            m.signals.wf(),
        ensures
            final(self).wf(),
            !meas_has(old(self).measurements@, m.correlation_id) ==> *final(self) == *old(self)
                && routed is None,
            meas_has(old(self).measurements@, m.correlation_id) ==> {
                &&& final(self).measurements@.len() == old(self).measurements@.len() - 1
                &&& forall|id2: u128|
                    meas_has(final(self).measurements@, id2) <==> (meas_has(
                        old(self).measurements@,
                        id2,
                    ) && id2 != m.correlation_id)
            },
            routed is None ==> final(self).regions == old(self).regions,
            routed is Some ==> {
                let i = routed->Some_0 as int;
                &&& 0 <= i < old(self).regions@.len()
                &&& old(self).regions@[i].id == m.region_id
                &&& final(self).regions@.len() == old(self).regions@.len()
                &&& forall|j: int|
                    0 <= j < old(self).regions@.len() && j != i ==> final(self).regions@[j] == old(
                        self,
                    ).regions@[j]
                &&& final(self).regions@[i].id == old(self).regions@[i].id
                &&& final(self).regions@[i].kind == old(self).regions@[i].kind
                &&& final(self).regions@[i].state.version == old(self).regions@[i].state.version
                &&& final(self).regions@[i].state.pressure == old(self).regions@[i].state.pressure
                &&& final(self).regions@[i].state.fitness == old(self).regions@[i].state.fitness
                &&& final(self).regions@[i].state.confidence == old(
                    self,
                ).regions@[i].state.confidence
                &&& final(self).regions@[i].state.inhibited_until_ms == old(
                    self,
                ).regions@[i].state.inhibited_until_ms
                &&& final(self).regions@[i].state.last_measured_ms == now_ms
                &&& spec_ema_merged(
                    old(self).regions@[i].state.signals,
                    m.signals,
                    old(self).config.decay.ema_alpha as int,
                    final(self).regions@[i].state.signals,
                )
            },
            final(self).config == old(self).config,
            final(self).tick_id == old(self).tick_id,
            final(self).proposals == old(self).proposals,
            final(self).pending == old(self).pending,
            final(self).records == old(self).records,
            forall|i: int|
                #![trigger final(self).regions@[i]]
                0 <= i < old(self).regions@.len() ==> final(self).regions@[i].state.version >= old(
                    self,
                ).regions@[i].state.version,
    {
        let n = self.measurements.len();
        let mut j: usize = 0;
        while j < n
            invariant
                *self == *old(self),
                n == self.measurements@.len(),
                0 <= j <= n,
                forall|k: int|
                    0 <= k < j ==> (#[trigger] self.measurements@[k]).correlation_id
                        != m.correlation_id,
            decreases n - j,
        {
            if self.measurements[j].correlation_id == m.correlation_id {
                let ghost t0 = self.measurements@;
                let entry = self.measurements.remove(j);
                proof {
                    t0.remove_ensures(j as int);
                    assert forall|id2: u128| meas_has(self.measurements@, id2) implies meas_has(
                        t0,
                        id2,
                    ) && id2 != m.correlation_id by {
                        let k = choose|k: int|
                            0 <= k < self.measurements@.len() && (#[trigger] self.measurements@[k]).correlation_id
                                == id2;
                        if k < j {
                            assert(t0[k].correlation_id == id2);
                        } else {
                            assert(t0[k + 1].correlation_id == id2);
                        }
                    }
                    assert forall|id2: u128|
                        meas_has(t0, id2) && id2 != m.correlation_id implies meas_has(
                        self.measurements@,
                        id2,
                    ) by {
                        let k = choose|k: int|
                            0 <= k < t0.len() && (#[trigger] t0[k]).correlation_id == id2;
                        assert(k != j);
                        if k < j {
                            assert(self.measurements@[k].correlation_id == id2);
                        } else {
                            assert(self.measurements@[k - 1].correlation_id == id2);
                        }
                    }
                }
                let ri = entry.region_index;
                if self.regions[ri].id == m.region_id {
                    let alpha = self.config.decay.ema_alpha;
                    self.regions[ri].state.ingest_measurement(&m.signals, alpha, now_ms);
                    return Some(ri);
                } else {
                    // Protocol violation: the reply names another region
                    // than the entry was issued for; drop it.
                    return None;
                }
            }
            j = j + 1;
        }
        None
    }

    /// Close the measurement phase: the deadline has passed, outstanding
    /// correlation ids are abandoned and late results will be discarded.
    pub fn end_measurement_phase(&mut self)
        requires
            old(self).wf(),
        ensures
            final(self).wf(),
            final(self).measurements@.len() == 0,
            final(self).config == old(self).config,
            final(self).regions == old(self).regions,
            final(self).tick_id == old(self).tick_id,
            final(self).proposals == old(self).proposals,
            final(self).pending == old(self).pending,
            final(self).records == old(self).records,
            final(self).proposer_count == old(self).proposer_count,
            final(self).next_proposer == old(self).next_proposer,
    {
        self.measurements.clear();
    }

    /// Whether region `i` is activated at tick time `now`, judged on its
    /// current smoothed signals.
    pub open spec fn spec_region_activated(&self, i: int, now: int) -> bool {
        spec_activated(self.regions@[i].state, self.config, self.regions@[i].kind@, now)
    }

    /// Phase 3, first half — query every region's pressure and cache it.
    #[verifier::loop_isolation(false)]
    fn query_all(&mut self, now_ms: u64)
        requires
            old(self).wf(),
        ensures
            final(self).wf(),
            final(self).regions@.len() == old(self).regions@.len(),
            forall|i: int|
                #![trigger final(self).regions@[i]]
                0 <= i < old(self).regions@.len() ==> {
                    let o = old(self).regions@[i];
                    let f = final(self).regions@[i];
                    &&& f.id == o.id
                    &&& f.kind == o.kind
                    &&& f.state.version == o.state.version
                    &&& f.state.signals == o.state.signals
                    &&& f.state.fitness == o.state.fitness
                    &&& f.state.confidence == o.state.confidence
                    &&& f.state.inhibited_until_ms == o.state.inhibited_until_ms
                    &&& f.state.last_measured_ms == o.state.last_measured_ms
                    &&& f.state.last_applied_ms == o.state.last_applied_ms
                    &&& f.state.last_touch_ms == o.state.last_touch_ms
                    &&& f.state.pressure as int == spec_pressure(
                        old(self).config.pressure_axes@,
                        o.kind@,
                        o.state.signals,
                    )
                },
            final(self).config == old(self).config,
            final(self).tick_id == old(self).tick_id,
            final(self).corr_counter == old(self).corr_counter,
            final(self).measurements == old(self).measurements,
            final(self).proposals == old(self).proposals,
            final(self).pending == old(self).pending,
            final(self).records == old(self).records,
            final(self).proposer_count == old(self).proposer_count,
            final(self).next_proposer == old(self).next_proposer,
    {
        let n = self.regions.len();
        let ghost regs0 = self.regions@;
        let mut i: usize = 0;
        while i < n
            invariant
                n == self.regions@.len(),
                regs0.len() == n,
                0 <= i <= n,
                self.config == old(self).config,
                self.tick_id == old(self).tick_id,
                self.corr_counter == old(self).corr_counter,
                self.measurements == old(self).measurements,
                self.proposals == old(self).proposals,
                self.pending == old(self).pending,
                self.records == old(self).records,
                self.proposer_count == old(self).proposer_count,
                self.next_proposer == old(self).next_proposer,
                forall|j: int| i <= j < n ==> self.regions@[j] == regs0[j],
                forall|j: int|
                    #![trigger self.regions@[j]]
                    0 <= j < i ==> {
                        let o = regs0[j];
                        let f = self.regions@[j];
                        &&& f.id == o.id
                        &&& f.kind == o.kind
                        &&& f.state.wf()
                        &&& f.state.version == o.state.version
                        &&& f.state.signals == o.state.signals
                        &&& f.state.fitness == o.state.fitness
                        &&& f.state.confidence == o.state.confidence
                        &&& f.state.inhibited_until_ms == o.state.inhibited_until_ms
                        &&& f.state.last_measured_ms == o.state.last_measured_ms
                        &&& f.state.last_applied_ms == o.state.last_applied_ms
                        &&& f.state.last_touch_ms == o.state.last_touch_ms
                        &&& f.state.pressure as int == spec_pressure(
                            old(self).config.pressure_axes@,
                            o.kind@,
                            o.state.signals,
                        )
                    },
            decreases n - i,
        {
            let kind = clone_string(&self.regions[i].kind);
            proof {
                assert(self.regions@[i as int] == regs0[i as int]);
                assert(old(self).regions@[i as int].state.wf());
            }
            let _resp = self.regions[i].state.query_pressure(&self.config, &kind, now_ms);
            i = i + 1;
        }
    }

    /// Phase 3, second half — the regions passing the activation gate.
    #[verifier::loop_isolation(false)]
    fn collect_activated(&self, now_ms: u64) -> (act: Vec<Activated>)
        requires
            self.wf(),
            forall|i: int|
                0 <= i < self.regions@.len() ==> (#[trigger] self.regions@[i]).state.pressure
                    as int == spec_pressure(
                    self.config.pressure_axes@,
                    self.regions@[i].kind@,
                    self.regions@[i].state.signals,
                ),
        ensures
            forall|k: int|
                #![trigger act@[k]]
                0 <= k < act@.len() ==> {
                    let e = act@[k];
                    &&& e.region_index < self.regions@.len()
                    &&& self.regions@[e.region_index as int].id == e.id
                    &&& self.regions@[e.region_index as int].state.pressure == e.pressure
                    &&& self.spec_region_activated(e.region_index as int, now_ms as int)
                },
            forall|i: int|
                0 <= i < self.regions@.len() && self.spec_region_activated(i, now_ms as int)
                    ==> exists|k: int|
                    0 <= k < act@.len() && (#[trigger] act@[k]).region_index == i,
            forall|k1: int, k2: int|
                0 <= k1 < k2 < act@.len() ==> act@[k1].region_index != act@[k2].region_index
                    && act@[k1].id != act@[k2].id,
    {
        let n = self.regions.len();
        let mut act: Vec<Activated> = Vec::new();
        let mut i: usize = 0;
        while i < n
            invariant
                n == self.regions@.len(),
                0 <= i <= n,
                forall|k: int|
                    #![trigger act@[k]]
                    0 <= k < act@.len() ==> {
                        let e = act@[k];
                        &&& e.region_index < i
                        &&& self.regions@[e.region_index as int].id == e.id
                        &&& self.regions@[e.region_index as int].state.pressure == e.pressure
                        &&& self.spec_region_activated(e.region_index as int, now_ms as int)
                    },
                forall|i2: int|
                    0 <= i2 < i && self.spec_region_activated(i2, now_ms as int) ==> exists|k: int|
                        0 <= k < act@.len() && (#[trigger] act@[k]).region_index == i2,
                forall|k1: int, k2: int|
                    0 <= k1 < k2 < act@.len() ==> act@[k1].region_index != act@[k2].region_index,
            decreases n - i,
        {
            let slot = &self.regions[i];
            let pressure_ok = slot.state.pressure >= self.config.activation.min_total_pressure;
            let inhibit_ok = self.config.activation.inhibit_ms == 0 || now_ms
                >= slot.state.inhibited_until_ms;
            let support_ok = crate::engine::has_support(
                &self.config.pressure_axes,
                &slot.kind,
                &slot.state.signals,
            );
            if pressure_ok && inhibit_ok && support_ok {
                let e = Activated {
                    region_index: i,
                    id: slot.id,
                    pressure: slot.state.pressure,
                };
                let ghost a_pre = act@;
                act.push(e);
                proof {
                    assert forall|i2: int|
                        0 <= i2 < i + 1 && self.spec_region_activated(
                            i2,
                            now_ms as int,
                        ) implies exists|k: int|
                        0 <= k < act@.len() && (#[trigger] act@[k]).region_index == i2 by {
                        if i2 < i {
                            let k = choose|k: int|
                                0 <= k < a_pre.len() && (#[trigger] a_pre[k]).region_index == i2;
                            assert(act@[k].region_index == i2);
                        } else {
                            assert(act@[a_pre.len() as int].region_index == i2);
                        }
                    }
                }
            }
            i = i + 1;
        }
        proof {
            assert forall|k1: int, k2: int|
                0 <= k1 < k2 < act@.len() implies act@[k1].region_index != act@[k2].region_index
                && act@[k1].id != act@[k2].id by {
                let a = act@[k1].region_index as int;
                let b = act@[k2].region_index as int;
                assert(self.regions@[a].id == act@[k1].id);
                assert(self.regions@[b].id == act@[k2].id);
                if a < b {
                    assert(self.regions@[a].id != self.regions@[b].id);
                } else {
                    assert(self.regions@[b].id != self.regions@[a].id);
                }
            }
        }
        act
    }
}

/// One activated region, carrying what priority ordering needs.
#[derive(Clone, Copy)]
pub struct Activated {
    pub region_index: usize,
    pub id: RegionId,
    pub pressure: i64,
}

/// Strict priority order: higher pressure first, ties broken by the
/// lexicographically (numerically) smaller region id, for determinism.
pub open spec fn better(a: Activated, b: Activated) -> bool {
    a.pressure > b.pressure || (a.pressure == b.pressure && a.id < b.id)
}

/// No later entry has priority over an earlier one.
pub open spec fn sorted_by_priority(s: Seq<Activated>) -> bool {
    forall|i: int, j: int| 0 <= i < j < s.len() ==> !better(s[j], s[i])
}

/// The priority order, decided in executable code.
fn is_better(a: &Activated, b: &Activated) -> (r: bool)
    ensures
        r == better(*a, *b),
{
    a.pressure > b.pressure || (a.pressure == b.pressure && a.id < b.id)
}

/// Sort activated regions by priority: pressure descending, ties to the
/// smaller region id.  The result is a permutation of the input.
#[verifier::loop_isolation(false)]
pub fn sort_by_priority_vec(src: Vec<Activated>) -> (out: Vec<Activated>)
    ensures
        out@.to_multiset() == src@.to_multiset(),
        out@.len() == src@.len(),
        sorted_by_priority(out@),
{
    broadcast use vstd::seq_lib::group_to_multiset_ensures;

    let ghost orig = src@;
    let mut rest = src;
    let mut out: Vec<Activated> = Vec::new();
    while rest.len() > 0
        invariant
            out@.to_multiset().add(rest@.to_multiset()) == orig.to_multiset(),
            out@.len() + rest@.len() == orig.len(),
            sorted_by_priority(out@),
            forall|a: int, b: int|
                #![trigger out@[a], rest@[b]]
                0 <= a < out@.len() && 0 <= b < rest@.len() ==> !better(rest@[b], out@[a]),
        decreases rest@.len(),
    {
        let mut best: usize = 0;
        let mut j: usize = 1;
        while j < rest.len()
            invariant
                0 <= best < rest@.len(),
                best < j <= rest@.len(),
                forall|t: int| 0 <= t < j ==> !better(rest@[t], rest@[best as int]),
            decreases rest@.len() - j,
        {
            if is_better(&rest[j], &rest[best]) {
                best = j;
            }
            j = j + 1;
        }
        let ghost rest_pre = rest@;
        let ghost out_pre = out@;
        let e = rest.remove(best);
        proof {
            rest_pre.remove_ensures(best as int);
            assert(rest_pre.to_multiset().contains(e));
            assert(rest@.to_multiset() == rest_pre.to_multiset().remove(e));
        }
        out.push(e);
        proof {
            assert(out@.to_multiset() == out_pre.to_multiset().insert(e));
            assert(out@.to_multiset().add(rest@.to_multiset()) =~= orig.to_multiset());
            assert forall|a: int, b: int|
                #![trigger out@[a], rest@[b]]
                0 <= a < out@.len() && 0 <= b < rest@.len() implies !better(rest@[b], out@[a]) by {
                if b < best {
                    assert(rest@[b] == rest_pre[b]);
                } else {
                    assert(rest@[b] == rest_pre[b + 1]);
                }
                if a < out_pre.len() {
                    assert(out@[a] == out_pre[a]);
                } else {
                    assert(out@[a] == e);
                }
            }
        }
    }
    out
}


/// Whether some issued request targets the region with this id.
pub open spec fn req_selected(reqs: Seq<ProposeForRegion>, id: RegionId) -> bool {
    exists|j: int| 0 <= j < reqs.len() && (#[trigger] reqs[j]).region_id == id
}

impl Kernel {
    /// Phases 3 and 4 — query pressures, gate activation, rank, and fan
    /// out proposal requests for the top-K activated regions.
    ///
    /// Activated regions are ordered by pressure descending, ties broken
    /// by the smaller region id, so selection is deterministic.  Each
    /// selected region gets one request, addressed to a proposer chosen
    /// round-robin, under a fresh correlation id recorded in the
    /// proposal table.
    #[verifier::loop_isolation(false)]
    pub fn query_and_select(&mut self, now_ms: u64) -> (reqs: Vec<ProposeForRegion>)
        requires
            old(self).wf(),
            old(self).corr_counter as int + old(self).config.selection.max_patches_per_tick
                as int <= u64::MAX as int,
        ensures
            final(self).wf(),
            final(self).regions@.len() == old(self).regions@.len(),
            forall|i: int|
                #![trigger final(self).regions@[i]]
                0 <= i < old(self).regions@.len() ==> {
                    let o = old(self).regions@[i];
                    let f = final(self).regions@[i];
                    &&& f.id == o.id
                    &&& f.kind == o.kind
                    &&& f.state.version == o.state.version
                    &&& f.state.signals == o.state.signals
                    &&& f.state.fitness == o.state.fitness
                    &&& f.state.confidence == o.state.confidence
                    &&& f.state.inhibited_until_ms == o.state.inhibited_until_ms
                    &&& f.state.last_measured_ms == o.state.last_measured_ms
                    &&& f.state.last_applied_ms == o.state.last_applied_ms
                    &&& f.state.last_touch_ms == o.state.last_touch_ms
                    &&& f.state.pressure as int == spec_pressure(
                        old(self).config.pressure_axes@,
                        o.kind@,
                        o.state.signals,
                    )
                },
            forall|j: int|
                #![trigger reqs@[j]]
                0 <= j < reqs@.len() ==> exists|i: int|
                    #![auto]
                    0 <= i < final(self).regions@.len() && final(self).regions@[i].id
                        == reqs@[j].region_id && final(self).spec_region_activated(
                        i,
                        now_ms as int,
                    ) && reqs@[j].base_version == final(self).regions@[i].state.version
                        && reqs@[j].pressure == final(self).regions@[i].state.pressure,
            forall|j: int, i: int|
                #![trigger reqs@[j], final(self).regions@[i]]
                0 <= j < reqs@.len() && 0 <= i < final(self).regions@.len() && final(self).regions@[i].id == reqs@[j].region_id ==> final(self).regions@[i].state.inhibited_until_ms <= now_ms,
            reqs@.len() <= old(self).config.selection.max_patches_per_tick,
            reqs@.len() < old(self).config.selection.max_patches_per_tick ==> forall|i: int|
                #![trigger final(self).regions@[i]]
                0 <= i < final(self).regions@.len() && final(self).spec_region_activated(
                    i,
                    now_ms as int,
                ) ==> req_selected(reqs@, final(self).regions@[i].id),
            reqs@.len() > 0 ==> exists|i: int|
                #![auto]
                0 <= i < final(self).regions@.len() && final(self).spec_region_activated(
                    i,
                    now_ms as int,
                ),
            forall|j1: int, j2: int|
                #![trigger reqs@[j1], reqs@[j2]]
                0 <= j1 < j2 < reqs@.len() ==> (reqs@[j1].pressure > reqs@[j2].pressure || (
                reqs@[j1].pressure == reqs@[j2].pressure && reqs@[j1].region_id
                    <= reqs@[j2].region_id)),
            forall|i: int, j: int|
                #![trigger final(self).regions@[i], reqs@[j]]
                0 <= i < final(self).regions@.len() && final(self).spec_region_activated(
                    i,
                    now_ms as int,
                ) && !req_selected(reqs@, final(self).regions@[i].id) && 0 <= j < reqs@.len()
                    ==> (reqs@[j].pressure > final(self).regions@[i].state.pressure || (
                reqs@[j].pressure == final(self).regions@[i].state.pressure && reqs@[j].region_id
                    < final(self).regions@[i].id)),
            final(self).proposals@.len() == reqs@.len(),
            forall|j: int|
                #![trigger final(self).proposals@[j]]
                0 <= j < reqs@.len() ==> {
                    let e = final(self).proposals@[j];
                    &&& e.correlation_id == reqs@[j].correlation_id
                    &&& e.region_index < final(self).regions@.len()
                    &&& final(self).regions@[e.region_index as int].id == reqs@[j].region_id
                    &&& e.base_version == reqs@[j].base_version
                },
            forall|j: int|
                0 <= j < reqs@.len() && old(self).proposer_count > 0 ==> (#[trigger] reqs@[j]).proposer_index
                    < old(self).proposer_count,
            final(self).config == old(self).config,
            final(self).tick_id == old(self).tick_id,
            final(self).measurements == old(self).measurements,
            final(self).pending == old(self).pending,
            final(self).records == old(self).records,
            final(self).proposer_count == old(self).proposer_count,
            forall|i: int|
                #![trigger final(self).regions@[i]]
                0 <= i < old(self).regions@.len() ==> final(self).regions@[i].state.version
                    >= old(self).regions@[i].state.version,
    {
        broadcast use vstd::seq_lib::group_to_multiset_ensures;

        self.proposals.clear();
        self.query_all(now_ms);
        let ghost cfg = self.config;
        let ghost regs2 = self.regions@;
        let act = self.collect_activated(now_ms);
        let sorted = sort_by_priority_vec(act);
        let ghost act_seq = act@;
        let ghost sorted_seq = sorted@;
        proof {
            assert forall|k: int|
                #![trigger sorted_seq[k]]
                0 <= k < sorted_seq.len() implies exists|p: int|
                #![auto]
                0 <= p < act_seq.len() && act_seq[p] == sorted_seq[k] by {
                assert(sorted_seq.contains(sorted_seq[k]));
                assert(sorted_seq.to_multiset().count(sorted_seq[k]) > 0);
                assert(act_seq.to_multiset().count(sorted_seq[k]) > 0);
                assert(act_seq.contains(sorted_seq[k]));
            }
            assert forall|k: int|
                #![trigger sorted_seq[k]]
                0 <= k < sorted_seq.len() implies {
                let e = sorted_seq[k];
                &&& e.region_index < regs2.len()
                &&& regs2[e.region_index as int].id == e.id
                &&& regs2[e.region_index as int].state.pressure == e.pressure
                &&& spec_activated(
                    regs2[e.region_index as int].state,
                    cfg,
                    regs2[e.region_index as int].kind@,
                    now_ms as int,
                )
            } by {
                let p = choose|p: int|
                    #![auto]
                    0 <= p < act_seq.len() && act_seq[p] == sorted_seq[k];
                assert(act_seq[p] == sorted_seq[k]);
            }
            assert forall|i: int|
                #![trigger regs2[i]]
                0 <= i < regs2.len() && spec_activated(
                    regs2[i].state,
                    cfg,
                    regs2[i].kind@,
                    now_ms as int,
                ) implies exists|p: int|
                #![auto]
                0 <= p < sorted_seq.len() && sorted_seq[p].region_index == i by {
                assert(self.spec_region_activated(i, now_ms as int));
                let k = choose|k: int|
                    0 <= k < act_seq.len() && (#[trigger] act_seq[k]).region_index == i;
                assert(act_seq.contains(act_seq[k]));
                assert(act_seq.to_multiset().count(act_seq[k]) > 0);
                assert(sorted_seq.to_multiset().count(act_seq[k]) > 0);
                assert(sorted_seq.contains(act_seq[k]));
                let p = choose|p: int| 0 <= p < sorted_seq.len() && sorted_seq[p] == act_seq[k];
                assert(sorted_seq[p].region_index == i);
            }
        }
        let kk = self.config.selection.max_patches_per_tick;
        let limit: usize = if sorted.len() < kk {
            sorted.len()
        } else {
            kk
        };
        let ghost c0 = self.corr_counter as int;
        let mut reqs: Vec<ProposeForRegion> = Vec::new();
        let mut j: usize = 0;
        while j < limit
            invariant
                limit <= sorted_seq.len(),
                limit <= kk,
                sorted@ == sorted_seq,
                0 <= j <= limit,
                reqs@.len() == j,
                self.regions@ == regs2,
                self.config == cfg,
                self.proposals@.len() == j,
                self.corr_counter as int == c0 + j,
                c0 + kk <= u64::MAX,
                self.config == old(self).config,
                self.tick_id == old(self).tick_id,
                self.measurements == old(self).measurements,
                self.pending == old(self).pending,
                self.records == old(self).records,
                self.proposer_count == old(self).proposer_count,
                self.proposer_count > 0 ==> self.next_proposer < self.proposer_count,
                forall|t: int|
                    #![trigger reqs@[t]]
                    0 <= t < j ==> {
                        &&& reqs@[t].region_id == sorted_seq[t].id
                        &&& reqs@[t].pressure == sorted_seq[t].pressure
                        &&& reqs@[t].correlation_id as int == corr_base(self.tick_id) + c0 + t
                        &&& reqs@[t].base_version == regs2[sorted_seq[t].region_index as int].state.version
                        &&& (self.proposer_count > 0 ==> reqs@[t].proposer_index
                            < self.proposer_count)
                    },
                forall|t: int|
                    #![trigger self.proposals@[t]]
                    0 <= t < j ==> {
                        let e = self.proposals@[t];
                        &&& e.correlation_id == reqs@[t].correlation_id
                        &&& e.correlation_id as int == corr_base(self.tick_id) + c0 + t
                        &&& e.region_index == sorted_seq[t].region_index
                        &&& e.base_version == reqs@[t].base_version
                    },
            decreases limit - j,
        {
            let e = sorted[j];
            proof {
                assert(sorted_seq[j as int].region_index < regs2.len());
            }
            let id = self.fresh_corr_id();
            let idx = e.region_index;
            let pi: usize = if self.proposer_count > 0 {
                let p = self.next_proposer;
                self.next_proposer = if p + 1 < self.proposer_count {
                    p + 1
                } else {
                    0
                };
                p
            } else {
                0
            };
            let sig = self.regions[idx].state.signals.duplicate();
            let base_version = self.regions[idx].state.version;
            let req = ProposeForRegion {
                correlation_id: id,
                region_id: e.id,
                proposer_index: pi,
                signals: sig,
                pressure: e.pressure,
                base_version,
            };
            let entry = PropEntry { correlation_id: id, region_index: idx, base_version };
            self.proposals.push(entry);
            reqs.push(req);
            j = j + 1;
        }
        proof {
            assert(prop_table_wf(self.proposals@, self.regions@.len() as int, self.corr_bound()));
            assert forall|jj: int|
                #![trigger reqs@[jj]]
                0 <= jj < reqs@.len() implies exists|i: int|
                #![auto]
                0 <= i < regs2.len() && regs2[i].id == reqs@[jj].region_id && spec_activated(
                    regs2[i].state,
                    cfg,
                    regs2[i].kind@,
                    now_ms as int,
                ) && reqs@[jj].base_version == regs2[i].state.version && reqs@[jj].pressure
                    == regs2[i].state.pressure by {
                let i = sorted_seq[jj].region_index as int;
                assert(regs2[i].id == reqs@[jj].region_id);
                assert(spec_activated(regs2[i].state, cfg, regs2[i].kind@, now_ms as int));
                assert(reqs@[jj].pressure == sorted_seq[jj].pressure == regs2[i].state.pressure);
            }
            assert forall|jj: int, i: int|
                #![trigger reqs@[jj], regs2[i]]
                0 <= jj < reqs@.len() && 0 <= i < regs2.len() && regs2[i].id
                    == reqs@[jj].region_id implies regs2[i].state.inhibited_until_ms
                <= now_ms by {
                let t = sorted_seq[jj].region_index as int;
                assert(regs2[t].id == reqs@[jj].region_id);
                if i < t {
                    assert(regs2[i].id != regs2[t].id);
                } else if t < i {
                    assert(regs2[t].id != regs2[i].id);
                }
                assert(i == t);
                assert(spec_activated(regs2[t].state, cfg, regs2[t].kind@, now_ms as int));
                if cfg.activation.inhibit_ms == 0 {
                    assert(regs2[t].state.inhibited_until_ms == 0);
                }
            }
            if reqs@.len() < kk {
                assert forall|i: int|
                    #![trigger regs2[i]]
                    0 <= i < regs2.len() && spec_activated(
                        regs2[i].state,
                        cfg,
                        regs2[i].kind@,
                        now_ms as int,
                    ) implies req_selected(reqs@, regs2[i].id) by {
                    let p = choose|p: int|
                        #![auto]
                        0 <= p < sorted_seq.len() && sorted_seq[p].region_index == i;
                    assert(limit == sorted_seq.len());
                    assert(reqs@[p].region_id == sorted_seq[p].id);
                    assert(sorted_seq[p].id == regs2[i].id);
                }
            }
            if reqs@.len() > 0 {
                let i0 = sorted_seq[0].region_index as int;
                assert(spec_activated(regs2[i0].state, cfg, regs2[i0].kind@, now_ms as int));
            }
            assert forall|i: int, jj: int|
                #![trigger regs2[i], reqs@[jj]]
                0 <= i < regs2.len() && spec_activated(
                    regs2[i].state,
                    cfg,
                    regs2[i].kind@,
                    now_ms as int,
                ) && !req_selected(reqs@, regs2[i].id) && 0 <= jj < reqs@.len() implies (
            reqs@[jj].pressure > regs2[i].state.pressure || (reqs@[jj].pressure
                == regs2[i].state.pressure && reqs@[jj].region_id < regs2[i].id)) by {
                let p = choose|p: int|
                    #![auto]
                    0 <= p < sorted_seq.len() && sorted_seq[p].region_index == i;
                assert(sorted_seq[p].id == regs2[i].id);
                assert(sorted_seq[p].pressure == regs2[i].state.pressure);
                if p < limit {
                    assert(reqs@[p].region_id == sorted_seq[p].id);
                    assert(false);
                }
                assert(p >= limit);
                assert(jj < p);
                assert(!better(sorted_seq[p], sorted_seq[jj]));
                assert(reqs@[jj].region_id == sorted_seq[jj].id);
                if sorted_seq[jj].id == sorted_seq[p].id {
                    assert(req_selected(reqs@, regs2[i].id));
                    assert(false);
                }
            }
        }
        proof {
            assert(self.regions@ == regs2);
            assert forall|j2: int|
                #![trigger reqs@[j2]]
                0 <= j2 < reqs@.len() implies exists|i: int|
                #![auto]
                0 <= i < self.regions@.len() && self.regions@[i].id == reqs@[j2].region_id
                    && self.spec_region_activated(i, now_ms as int) && reqs@[j2].base_version
                    == self.regions@[i].state.version && reqs@[j2].pressure
                    == self.regions@[i].state.pressure by {
                let i = sorted_seq[j2].region_index as int;
                assert(spec_activated(regs2[i].state, cfg, regs2[i].kind@, now_ms as int));
                assert(self.spec_region_activated(i, now_ms as int));
                assert(self.regions@[i].id == reqs@[j2].region_id);
            }
            assert forall|j2: int, i: int|
                #![trigger reqs@[j2], self.regions@[i]]
                0 <= j2 < reqs@.len() && 0 <= i < self.regions@.len() && self.regions@[i].id
                    == reqs@[j2].region_id implies self.regions@[i].state.inhibited_until_ms
                <= now_ms by {
                assert(regs2[i].id == reqs@[j2].region_id);
            }
            if reqs@.len() < kk {
                assert forall|i: int|
                    #![trigger self.regions@[i]]
                    0 <= i < self.regions@.len() && self.spec_region_activated(
                        i,
                        now_ms as int,
                    ) implies req_selected(reqs@, self.regions@[i].id) by {
                    assert(spec_activated(regs2[i].state, cfg, regs2[i].kind@, now_ms as int));
                }
            }
            if reqs@.len() > 0 {
                let i0 = sorted_seq[0].region_index as int;
                assert(self.spec_region_activated(i0, now_ms as int));
            }
            assert forall|j1: int, j2: int|
                #![trigger reqs@[j1], reqs@[j2]]
                0 <= j1 < j2 < reqs@.len() implies (reqs@[j1].pressure > reqs@[j2].pressure || (
            reqs@[j1].pressure == reqs@[j2].pressure && reqs@[j1].region_id
                <= reqs@[j2].region_id)) by {
                assert(!better(sorted_seq[j2], sorted_seq[j1]));
                assert(reqs@[j1].region_id == sorted_seq[j1].id);
                assert(reqs@[j2].region_id == sorted_seq[j2].id);
            }
            assert forall|i: int, j2: int|
                #![trigger self.regions@[i], reqs@[j2]]
                0 <= i < self.regions@.len() && self.spec_region_activated(i, now_ms as int)
                    && !req_selected(reqs@, self.regions@[i].id) && 0 <= j2
                    < reqs@.len() implies (reqs@[j2].pressure > self.regions@[i].state.pressure
                || (reqs@[j2].pressure == self.regions@[i].state.pressure && reqs@[j2].region_id
                    < self.regions@[i].id)) by {
                assert(spec_activated(regs2[i].state, cfg, regs2[i].kind@, now_ms as int));
                assert(!req_selected(reqs@, regs2[i].id));
            }
        }
        reqs
    }
}

/// Whether a dispatched patch is a correct selection from one pending
/// entry: it targets that entry's region at its recorded base version,
/// clears the expected-improvement gate, and no qualifying candidate of
/// the entry scores higher.
pub open spec fn spec_dispatch_ok(
    d: RegionApplyPatch,
    pe: PendingPatches,
    regions: Seq<RegionSlot>,
    config: KernelConfig,
) -> bool {
    &&& pe.region_index < regions.len()
    &&& d.region_id == regions[pe.region_index as int].id
    &&& d.base_version == pe.base_version
    &&& d.patch.expected_delta.wf()
    &&& exists|t: int|
        #![auto]
        0 <= t < pe.patches@.len() && same_patch(d.patch, pe.patches@[t].patch)
            && spec_expected_improvement(
            config.pressure_axes@,
            regions[pe.region_index as int].kind@,
            pe.patches@[t].patch.expected_delta,
        ) >= config.selection.min_expected_improvement && (forall|t2: int|
            0 <= t2 < pe.patches@.len() && spec_expected_improvement(
                config.pressure_axes@,
                regions[pe.region_index as int].kind@,
                (#[trigger] pe.patches@[t2]).patch.expected_delta,
            ) >= config.selection.min_expected_improvement ==> pe.patches@[t2].score
                <= pe.patches@[t].score)
}

/// Whether a pending entry holds at least one candidate clearing the
/// expected-improvement gate.
pub open spec fn spec_has_qualifying(
    pe: PendingPatches,
    regions: Seq<RegionSlot>,
    config: KernelConfig,
) -> bool {
    exists|t: int|
        0 <= t < pe.patches@.len() && spec_expected_improvement(
            config.pressure_axes@,
            regions[pe.region_index as int].kind@,
            (#[trigger] pe.patches@[t]).patch.expected_delta,
        ) >= config.selection.min_expected_improvement
}

/// The saturating sum of the regions' cached pressures.
pub open spec fn sum_region_pressures(regions: Seq<RegionSlot>) -> int
    decreases regions.len(),
{
    if regions.len() == 0 {
        0
    } else {
        sadd(sum_region_pressures(regions.drop_last()), regions.last().state.pressure as int)
    }
}

/// The accepted patches of a record list, in order.
pub open spec fn applied_of(records: Seq<TickRecord>) -> Seq<AppliedRecord>
    decreases records.len(),
{
    if records.len() == 0 {
        Seq::empty()
    } else {
        let r = records.last();
        let prefix = applied_of(records.drop_last());
        if r.applied {
            prefix.push(
                AppliedRecord {
                    region_id: r.region_id,
                    old_pressure: r.old_pressure,
                    new_pressure: r.new_pressure,
                },
            )
        } else {
            prefix
        }
    }
}

/// The rejected patches of a record list, in order.
pub open spec fn rejected_of(records: Seq<TickRecord>) -> Seq<RejectedRecord>
    decreases records.len(),
{
    if records.len() == 0 {
        Seq::empty()
    } else {
        let r = records.last();
        let prefix = rejected_of(records.drop_last());
        if !r.applied {
            prefix.push(
                RejectedRecord {
                    region_id: r.region_id,
                    reason: (match r.reason {
                        Some(why) => why,
                        None => RejectReason::DidNotReduce,
                    }),
                    old_pressure: r.old_pressure,
                },
            )
        } else {
            prefix
        }
    }
}

/// Phase 5 helper — the best qualifying candidate: the highest score
/// among patches whose expected improvement reaches the selection gate.
#[verifier::loop_isolation(false)]
fn choose_best(
    patches: &Vec<ScoredPatch>,
    axes: &Vec<PressureAxisConfig>,
    kind: &String,
    min_improvement: i64,
) -> (r: Option<usize>)
    requires
        forall|t: int|
            0 <= t < patches@.len() ==> (#[trigger] patches@[t]).patch.expected_delta.wf(),
    ensures
        r is Some ==> {
            let b = r->Some_0 as int;
            &&& 0 <= b < patches@.len()
            &&& spec_expected_improvement(axes@, kind@, patches@[b].patch.expected_delta)
                >= min_improvement
            &&& forall|t: int|
                0 <= t < patches@.len() && spec_expected_improvement(
                    axes@,
                    kind@,
                    (#[trigger] patches@[t]).patch.expected_delta,
                ) >= min_improvement ==> patches@[t].score <= patches@[b].score
        },
        r is None ==> forall|t: int|
            0 <= t < patches@.len() ==> spec_expected_improvement(
                axes@,
                kind@,
                (#[trigger] patches@[t]).patch.expected_delta,
            ) < min_improvement,
{
    let n = patches.len();
    let mut best: Option<usize> = None;
    let mut t: usize = 0;
    while t < n
        invariant
            n == patches@.len(),
            0 <= t <= n,
            best is Some ==> {
                let b = best->Some_0 as int;
                &&& 0 <= b < t
                &&& spec_expected_improvement(axes@, kind@, patches@[b].patch.expected_delta)
                    >= min_improvement
                &&& forall|t2: int|
                    0 <= t2 < t && spec_expected_improvement(
                        axes@,
                        kind@,
                        (#[trigger] patches@[t2]).patch.expected_delta,
                    ) >= min_improvement ==> patches@[t2].score <= patches@[b].score
            },
            best is None ==> forall|t2: int|
                0 <= t2 < t ==> spec_expected_improvement(
                    axes@,
                    kind@,
                    (#[trigger] patches@[t2]).patch.expected_delta,
                ) < min_improvement,
        decreases n - t,
    {
        let imp = expected_improvement(axes, kind, &patches[t].patch.expected_delta);
        if imp >= min_improvement {
            match best {
                None => {
                    best = Some(t);
                },
                Some(b) => {
                    if patches[t].score > patches[b].score {
                        best = Some(t);
                    }
                },
            }
        }
        t = t + 1;
    }
    best
}

impl Kernel {
    /// Route one proposal reply.  A reply whose correlation id is not
    /// live is discarded with nothing changed; a live id is consumed and
    /// the returned candidates are queued for selection against the
    /// version recorded when the request was issued.
    #[verifier::loop_isolation(false)]
    pub fn ingest_proposal(&mut self, p: PatchProposal) -> (accepted: bool)
        requires
            old(self).wf(),
            forall|t: int|
                0 <= t < p.patches@.len() ==> (#[trigger] p.patches@[t]).patch.expected_delta.wf(),
        ensures
            final(self).wf(),
            !prop_has(old(self).proposals@, p.correlation_id) ==> *final(self) == *old(self)
                && !accepted,
            prop_has(old(self).proposals@, p.correlation_id) ==> {
                &&& accepted
                &&& final(self).proposals@.len() == old(self).proposals@.len() - 1
                &&& forall|id2: u128|
                    prop_has(final(self).proposals@, id2) <==> (prop_has(
                        old(self).proposals@,
                        id2,
                    ) && id2 != p.correlation_id)
                &&& final(self).pending@.len() == old(self).pending@.len() + 1
                &&& forall|t: int|
                    0 <= t < old(self).pending@.len() ==> final(self).pending@[t] == old(
                        self,
                    ).pending@[t]
                &&& final(self).pending@.last().patches == p.patches
                &&& exists|k: int|
                    #![auto]
                    0 <= k < old(self).proposals@.len() && old(self).proposals@[k].correlation_id
                        == p.correlation_id && final(self).pending@.last().region_index == old(
                        self,
                    ).proposals@[k].region_index && final(self).pending@.last().base_version
                        == old(self).proposals@[k].base_version
            },
            final(self).regions == old(self).regions,
            final(self).config == old(self).config,
            final(self).tick_id == old(self).tick_id,
            final(self).measurements == old(self).measurements,
            final(self).records == old(self).records,
            final(self).proposer_count == old(self).proposer_count,
            final(self).next_proposer == old(self).next_proposer,
    {
        let n = self.proposals.len();
        let mut j: usize = 0;
        while j < n
            invariant
                *self == *old(self),
                n == self.proposals@.len(),
                0 <= j <= n,
                forall|k: int|
                    0 <= k < j ==> (#[trigger] self.proposals@[k]).correlation_id
                        != p.correlation_id,
            decreases n - j,
        {
            if self.proposals[j].correlation_id == p.correlation_id {
                let ghost t0 = self.proposals@;
                let entry = self.proposals.remove(j);
                proof {
                    t0.remove_ensures(j as int);
                    assert forall|id2: u128| prop_has(self.proposals@, id2) implies prop_has(
                        t0,
                        id2,
                    ) && id2 != p.correlation_id by {
                        let k = choose|k: int|
                            0 <= k < self.proposals@.len() && (#[trigger] self.proposals@[k]).correlation_id
                                == id2;
                        if k < j {
                            assert(t0[k].correlation_id == id2);
                        } else {
                            assert(t0[k + 1].correlation_id == id2);
                        }
                    }
                    assert forall|id2: u128|
                        prop_has(t0, id2) && id2 != p.correlation_id implies prop_has(
                        self.proposals@,
                        id2,
                    ) by {
                        let k = choose|k: int|
                            0 <= k < t0.len() && (#[trigger] t0[k]).correlation_id == id2;
                        assert(k != j);
                        if k < j {
                            assert(self.proposals@[k].correlation_id == id2);
                        } else {
                            assert(self.proposals@[k - 1].correlation_id == id2);
                        }
                    }
                }
                let pending_entry = PendingPatches {
                    region_index: entry.region_index,
                    base_version: entry.base_version,
                    patches: p.patches,
                };
                self.pending.push(pending_entry);
                return true;
            }
            j = j + 1;
        }
        false
    }

    /// Phase 5 — for each region with returned candidates, dispatch the
    /// single highest-scoring patch that clears the expected-improvement
    /// gate; regions with no qualifying candidate are skipped.  The
    /// proposal table is purged (outstanding ids are abandoned at the
    /// phase deadline) and the pending queue is drained.
    #[verifier::loop_isolation(false)]
    #[verifier::rlimit(60)]
    pub fn dispatch_patches(&mut self) -> (dispatches: Vec<RegionApplyPatch>)
        requires
            old(self).wf(),
        ensures
            final(self).wf(),
            final(self).proposals@.len() == 0,
            final(self).pending@.len() == 0,
            dispatches@.len() <= old(self).pending@.len(),
            old(self).pending@.len() == 0 ==> dispatches@.len() == 0,
            forall|d: int|
                #![trigger dispatches@[d]]
                0 <= d < dispatches@.len() ==> exists|k: int|
                    #![auto]
                    0 <= k < old(self).pending@.len() && spec_dispatch_ok(
                        dispatches@[d],
                        old(self).pending@[k],
                        old(self).regions@,
                        old(self).config,
                    ) && dispatches@[d].tick_id == old(self).tick_id,
            forall|k: int|
                #![trigger old(self).pending@[k]]
                0 <= k < old(self).pending@.len() && spec_has_qualifying(
                    old(self).pending@[k],
                    old(self).regions@,
                    old(self).config,
                ) ==> exists|d: int|
                    #![auto]
                    0 <= d < dispatches@.len() && dispatches@[d].region_id == old(
                        self,
                    ).regions@[old(self).pending@[k].region_index as int].id
                        && dispatches@[d].base_version == old(self).pending@[k].base_version,
            final(self).regions == old(self).regions,
            final(self).config == old(self).config,
            final(self).tick_id == old(self).tick_id,
            final(self).measurements == old(self).measurements,
            final(self).records == old(self).records,
            final(self).proposer_count == old(self).proposer_count,
            final(self).next_proposer == old(self).next_proposer,
    {
        self.proposals.clear();
        let ghost pend0 = self.pending@;
        let mut dispatches: Vec<RegionApplyPatch> = Vec::new();
        let mut k: usize = 0;
        let n = self.pending.len();
        while k < n
            invariant
                n == pend0.len(),
                self.pending@ == pend0,
                0 <= k <= n,
                dispatches@.len() <= k,
                forall|d: int|
                    #![trigger dispatches@[d]]
                    0 <= d < dispatches@.len() ==> exists|k2: int|
                        #![auto]
                        0 <= k2 < pend0.len() && spec_dispatch_ok(
                            dispatches@[d],
                            pend0[k2],
                            self.regions@,
                            self.config,
                        ) && dispatches@[d].tick_id == self.tick_id,
                forall|k2: int|
                    #![trigger pend0[k2]]
                    0 <= k2 < k && spec_has_qualifying(
                        pend0[k2],
                        self.regions@,
                        self.config,
                    ) ==> exists|d: int|
                        #![auto]
                        0 <= d < dispatches@.len() && dispatches@[d].region_id
                            == self.regions@[pend0[k2].region_index as int].id
                            && dispatches@[d].base_version == pend0[k2].base_version,
            decreases n - k,
        {
            let pe = &self.pending[k];
            let kind = clone_string(&self.regions[pe.region_index].kind);
            let best = choose_best(
                &pe.patches,
                &self.config.pressure_axes,
                &kind,
                self.config.selection.min_expected_improvement,
            );
            match best {
                None => {},
                Some(b) => {
                    let d = RegionApplyPatch {
                        region_id: self.regions[pe.region_index].id,
                        base_version: pe.base_version,
                        patch: clone_patch(&pe.patches[b].patch),
                        tick_id: self.tick_id,
                    };
                    let ghost disp_pre = dispatches@;
                    dispatches.push(d);
                    proof {
                        assert(spec_dispatch_ok(
                            dispatches@.last(),
                            pend0[k as int],
                            self.regions@,
                            self.config,
                        ));
                        assert forall|k2: int|
                            #![trigger pend0[k2]]
                            0 <= k2 < k + 1 && spec_has_qualifying(
                                pend0[k2],
                                self.regions@,
                                self.config,
                            ) implies exists|d2: int|
                            #![auto]
                            0 <= d2 < dispatches@.len() && dispatches@[d2].region_id
                                == self.regions@[pend0[k2].region_index as int].id
                                && dispatches@[d2].base_version == pend0[k2].base_version by {
                            if k2 < k {
                                let d2 = choose|d2: int|
                                    #![auto]
                                    0 <= d2 < disp_pre.len() && disp_pre[d2].region_id
                                        == self.regions@[pend0[k2].region_index as int].id
                                        && disp_pre[d2].base_version == pend0[k2].base_version;
                                assert(dispatches@[d2] == disp_pre[d2]);
                            } else {
                                assert(dispatches@[disp_pre.len() as int] == d);
                            }
                        }
                    }
                },
            }
            k = k + 1;
        }
        self.pending.clear();
        dispatches
    }

    /// Phase 6 — validate and apply one dispatched patch on its owning
    /// region, with the artifact's verdict and the post-apply
    /// re-measurement passed in; the acceptance rule is the region state
    /// machine's.  The outcome is recorded for the tick report.
    #[verifier::loop_isolation(false)]
    pub fn apply_dispatch(
        &mut self,
        d: &RegionApplyPatch,
        artifact_ok: bool,
        post: Option<Signals>,
        now_ms: u64,
    ) -> (res: RegionPatchResult)
        requires
            old(self).wf(),
            d.patch.expected_delta.wf(),
            post is Some ==> post->Some_0.wf(),
        ensures
            final(self).wf(),
            final(self).regions@.len() == old(self).regions@.len(),
            (forall|i: int|
                0 <= i < old(self).regions@.len() ==> (#[trigger] old(self).regions@[i]).id
                    != d.region_id) ==> {
                &&& !res.applied
                &&& res.reason == Some(RejectReason::RegionMissing)
                &&& final(self).regions == old(self).regions
            },
            forall|i: int|
                #![trigger old(self).regions@[i]]
                0 <= i < old(self).regions@.len() && old(self).regions@[i].id == d.region_id
                    ==> {
                    let o = old(self).regions@[i];
                    let f = final(self).regions@[i];
                    &&& res.applied == spec_accepts(
                        o.state,
                        old(self).config,
                        o.kind@,
                        d.base_version,
                        d.patch.expected_delta,
                        artifact_ok,
                        post,
                    )
                    &&& res.old_pressure as int == spec_pressure(
                        old(self).config.pressure_axes@,
                        o.kind@,
                        o.state.signals,
                    )
                    &&& (res.applied ==> {
                        &&& res.new_pressure as int == spec_pressure(
                            old(self).config.pressure_axes@,
                            o.kind@,
                            post->Some_0,
                        )
                        &&& res.new_pressure < res.old_pressure - EPSILON
                        &&& f.state.version as int == (if o.state.version == u64::MAX {
                            u64::MAX as int
                        } else {
                            o.state.version + 1
                        })
                        &&& f.state.fitness as int == sadd(
                            o.state.fitness as int,
                            res.old_pressure - res.new_pressure,
                        )
                        &&& f.state.confidence as int == sadd(
                            o.state.confidence as int,
                            crate::fixed::SCALE as int,
                        )
                        &&& f.state.inhibited_until_ms as int == (if old(
                            self,
                        ).config.activation.inhibit_ms > 0 {
                            if now_ms + old(self).config.activation.inhibit_ms <= u64::MAX {
                                now_ms + old(self).config.activation.inhibit_ms
                            } else {
                                u64::MAX as int
                            }
                        } else {
                            o.state.inhibited_until_ms as int
                        })
                        &&& f.state.last_applied_ms == now_ms
                        &&& f.state.signals == post->Some_0
                        &&& f.state.pressure == res.new_pressure
                    })
                    &&& (!res.applied ==> f == o && res.reason == Some(
                        spec_reject_reason(o.state, d.base_version, artifact_ok),
                    ))
                    &&& forall|j: int|
                        0 <= j < old(self).regions@.len() && j != i ==> final(self).regions@[j]
                            == old(self).regions@[j]
                },
            forall|i: int|
                #![trigger final(self).regions@[i]]
                0 <= i < old(self).regions@.len() ==> final(self).regions@[i].state.version
                    >= old(self).regions@[i].state.version,
            final(self).records@.len() == old(self).records@.len() + 1,
            final(self).records@.last() == (TickRecord {
                region_id: d.region_id,
                applied: res.applied,
                old_pressure: res.old_pressure,
                new_pressure: res.new_pressure,
                reason: res.reason,
            }),
            forall|t: int|
                0 <= t < old(self).records@.len() ==> final(self).records@[t] == old(
                    self,
                ).records@[t],
            final(self).config == old(self).config,
            final(self).tick_id == old(self).tick_id,
            final(self).measurements == old(self).measurements,
            final(self).proposals == old(self).proposals,
            final(self).pending == old(self).pending,
            final(self).proposer_count == old(self).proposer_count,
            final(self).next_proposer == old(self).next_proposer,
    {
        let n = self.regions.len();
        let mut i: usize = 0;
        while i < n
            invariant
                *self == *old(self),
                n == self.regions@.len(),
                0 <= i <= n,
                forall|j: int| 0 <= j < i ==> (#[trigger] self.regions@[j]).id != d.region_id,
            decreases n - i,
        {
            if self.regions[i].id == d.region_id {
                let kind = clone_string(&self.regions[i].kind);
                let res = self.regions[i].state.apply_patch(
                    d.base_version,
                    &d.patch.expected_delta,
                    artifact_ok,
                    post,
                    &self.config,
                    &kind,
                    now_ms,
                );
                self.records.push(
                    TickRecord {
                        region_id: d.region_id,
                        applied: res.applied,
                        old_pressure: res.old_pressure,
                        new_pressure: res.new_pressure,
                        reason: res.reason,
                    },
                );
                return res;
            }
            i = i + 1;
        }
        // No region owns this id: reject without touching any state.
        let res = RegionPatchResult {
            applied: false,
            old_pressure: 0,
            new_pressure: 0,
            reason: Some(RejectReason::RegionMissing),
        };
        self.records.push(
            TickRecord {
                region_id: d.region_id,
                applied: false,
                old_pressure: 0,
                new_pressure: 0,
                reason: Some(RejectReason::RegionMissing),
            },
        );
        res
    }

    /// Phase 7 — emit the tick report: the tick number, the saturating
    /// sum of the regions' pressures (post-apply values for regions whose
    /// patch was accepted, queried values for the rest), and the applied
    /// and rejected outcomes of this tick.  It always emits.
    #[verifier::loop_isolation(false)]
    pub fn complete_tick(&mut self) -> (tc: TickComplete)
        requires
            old(self).wf(),
        ensures
            final(self).wf(),
            tc.tick_id == old(self).tick_id,
            tc.total_pressure as int == sum_region_pressures(old(self).regions@),
            tc.applied@ == applied_of(old(self).records@),
            tc.rejected@ == rejected_of(old(self).records@),
            old(self).records@.len() == 0 ==> tc.applied@.len() == 0,
            final(self).records@.len() == 0,
            final(self).regions == old(self).regions,
            final(self).config == old(self).config,
            final(self).tick_id == old(self).tick_id,
            final(self).measurements == old(self).measurements,
            final(self).proposals == old(self).proposals,
            final(self).pending == old(self).pending,
            final(self).proposer_count == old(self).proposer_count,
            final(self).next_proposer == old(self).next_proposer,
    {
        let n = self.regions.len();
        let mut total: i64 = 0;
        let mut i: usize = 0;
        while i < n
            invariant
                *self == *old(self),
                n == self.regions@.len(),
                0 <= i <= n,
                total as int == sum_region_pressures(self.regions@.take(i as int)),
            decreases n - i,
        {
            proof {
                assert(self.regions@.take(i + 1).drop_last() =~= self.regions@.take(i as int));
                assert(self.regions@.take(i + 1).last() == self.regions@[i as int]);
            }
            total = add_sat(total, self.regions[i].state.pressure);
            i = i + 1;
        }
        proof {
            assert(self.regions@.take(n as int) =~= self.regions@);
        }
        let m = self.records.len();
        let mut applied: Vec<AppliedRecord> = Vec::new();
        let mut rejected: Vec<RejectedRecord> = Vec::new();
        let mut t: usize = 0;
        while t < m
            invariant
                *self == *old(self),
                m == self.records@.len(),
                0 <= t <= m,
                applied@ == applied_of(self.records@.take(t as int)),
                rejected@ == rejected_of(self.records@.take(t as int)),
            decreases m - t,
        {
            proof {
                assert(self.records@.take(t + 1).drop_last() =~= self.records@.take(t as int));
                assert(self.records@.take(t + 1).last() == self.records@[t as int]);
            }
            let r = &self.records[t];
            if r.applied {
                applied.push(
                    AppliedRecord {
                        region_id: r.region_id,
                        old_pressure: r.old_pressure,
                        new_pressure: r.new_pressure,
                    },
                );
            } else {
                let why = match r.reason {
                    Some(why) => why,
                    None => RejectReason::DidNotReduce,
                };
                rejected.push(
                    RejectedRecord {
                        region_id: r.region_id,
                        reason: why,
                        old_pressure: r.old_pressure,
                    },
                );
            }
            t = t + 1;
        }
        proof {
            assert(self.records@.take(m as int) =~= self.records@);
        }
        let tick_id = self.tick_id;
        self.records.clear();
        TickComplete { tick_id, total_pressure: total, applied, rejected }
    }
}

/// Whether two patch values carry the same edit: same target region,
/// the same operation on the same bytes, the same rationale, and
/// expected-delta maps answering every lookup alike.
pub open spec fn same_patch(a: Patch, b: Patch) -> bool {
    &&& a.region == b.region
    &&& same_op(a.op, b.op)
    &&& a.rationale@ == b.rationale@
    &&& forall|n: Seq<char>|
        #![auto]
        a.expected_delta.spec_get(n) == b.expected_delta.spec_get(n)
}

/// Whether two patch operations are the same edit on the same bytes.
pub open spec fn same_op(a: PatchOp, b: PatchOp) -> bool {
    match (a, b) {
        (PatchOp::Replace(x), PatchOp::Replace(y)) => x@ == y@,
        (PatchOp::Delete, PatchOp::Delete) => true,
        (PatchOp::InsertAfter(x), PatchOp::InsertAfter(y)) => x@ == y@,
        _ => false,
    }
}

/// Copy a patch value field by field, preserving its meaning.
fn clone_patch(p: &Patch) -> (r: Patch)
    ensures
        r.region == p.region,
        same_op(r.op, p.op),
        r.rationale@ == p.rationale@,
        r.expected_delta.wf() <== p.expected_delta.wf(),
        forall|n: Seq<char>|
            #[trigger] r.expected_delta.spec_get(n) == p.expected_delta.spec_get(n),
{
    let op = match &p.op {
        PatchOp::Replace(bytes) => PatchOp::Replace(clone_bytes(bytes)),
        PatchOp::Delete => PatchOp::Delete,
        PatchOp::InsertAfter(bytes) => PatchOp::InsertAfter(clone_bytes(bytes)),
    };
    Patch {
        region: p.region,
        op,
        rationale: clone_string(&p.rationale),
        expected_delta: p.expected_delta.duplicate(),
    }
}

/// Copy a byte vector.
fn clone_bytes(b: &Vec<u8>) -> (r: Vec<u8>)
    ensures
        r@ == b@,
{
    let mut r: Vec<u8> = Vec::new();
    let n = b.len();
    let mut i: usize = 0;
    while i < n
        invariant
            n == b@.len(),
            0 <= i <= n,
            r@ == b@.take(i as int),
        decreases n - i,
    {
        r.push(b[i]);
        proof {
            assert(b@.take(i + 1) =~= b@.take(i as int).push(b@[i as int]));
        }
        i = i + 1;
    }
    proof {
        assert(b@.take(n as int) =~= b@);
    }
    r
}

} // verus!
