//! Typed message contracts between the coordinator, region actors,
//! sensors, proposers and the tick driver.
//!
//! Every request whose response is asynchronous carries a fresh 128-bit
//! correlation id; a response whose id is no longer live is discarded.

use vstd::prelude::*;

use crate::region::{Patch, RegionId, RejectReason};
use crate::signals::Signals;

verus! {

/// Ask a sensor to measure one region snapshot.
pub struct MeasureRegion {
    pub correlation_id: u128,
    pub region_id: RegionId,
    pub sensor_name: String,
}

/// A sensor's reply: the measured signal map for one region.
pub struct MeasurementResult {
    pub correlation_id: u128,
    pub region_id: RegionId,
    pub sensor_name: String,
    pub signals: Signals,
}

/// Ask a proposer to produce candidate patches for one region.
pub struct ProposeForRegion {
    pub correlation_id: u128,
    pub region_id: RegionId,
    /// Which proposer of the pool is addressed (round-robin).
    pub proposer_index: usize,
    /// The region's smoothed signals at selection time.
    pub signals: Signals,
    /// The region's pressure at selection time.
    pub pressure: i64,
    /// The region version the proposal will be validated against.
    pub base_version: u64,
}

/// One candidate patch with the proposer's ranking score.
pub struct ScoredPatch {
    pub score: i64,
    pub patch: Patch,
}

/// A proposer's reply: zero or more scored candidate patches.
pub struct PatchProposal {
    pub correlation_id: u128,
    pub actor_name: String,
    pub patches: Vec<ScoredPatch>,
}

/// Dispatch one selected patch to its region for validation and apply.
pub struct RegionApplyPatch {
    pub region_id: RegionId,
    /// The region version the proposal was made against.
    pub base_version: u64,
    pub patch: Patch,
    pub tick_id: u64,
}

/// One accepted patch in a tick report.
pub struct AppliedRecord {
    pub region_id: RegionId,
    pub old_pressure: i64,
    pub new_pressure: i64,
}

/// One rejected patch in a tick report.
pub struct RejectedRecord {
    pub region_id: RegionId,
    pub reason: RejectReason,
    pub old_pressure: i64,
}

/// The record emitted to the tick driver when a tick completes.  It always
/// emits; it never fails.
pub struct TickComplete {
    pub tick_id: u64,
    /// The sum of the per-region pressures as of the end of the tick:
    /// the value queried in the pressure phase, replaced by the post-apply
    /// pressure for regions whose patch was accepted.
    pub total_pressure: i64,
    pub applied: Vec<AppliedRecord>,
    pub rejected: Vec<RejectedRecord>,
}

} // verus!
