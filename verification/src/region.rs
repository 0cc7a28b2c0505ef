//! Regions, snapshots and patches.
//!
//! A region is identified by a stable 128-bit identifier; its contents are
//! an opaque byte range owned by the artifact.  Sensors and proposers see
//! regions only through read-only [`RegionView`] snapshots.

use vstd::prelude::*;

use crate::signals::Signals;

verus! {

/// Stable 128-bit region identifier; ties are broken by its numeric
/// (big-endian lexicographic) order.
pub type RegionId = u128;

/// A metadata value attached to a region snapshot.
pub enum MetaValue {
    Text(String),
    Bytes(Vec<u8>),
    Number(u64),
}

/// One key in a region snapshot's metadata mapping.
pub struct MetaEntry {
    pub key: String,
    pub value: MetaValue,
}

/// An edit operation on a region's content.
pub enum PatchOp {
    /// Replace the region's bytes.
    Replace(Vec<u8>),
    /// Remove the region's bytes.
    Delete,
    /// Append the given bytes after the region's bytes.
    InsertAfter(Vec<u8>),
}

/// A proposed edit: the target region, the operation, a human-readable
/// rationale, and the proposer's per-axis improvement hint (named by axis,
/// negative values promise a reduction of that axis's signal).
pub struct Patch {
    pub region: RegionId,
    pub op: PatchOp,
    pub rationale: String,
    pub expected_delta: Signals,
}

/// A read-only snapshot of a region, passed to sensors and proposers.
/// Staleness relative to the owning region's current state is detected by
/// version comparison at patch-apply time.
pub struct RegionView {
    pub id: RegionId,
    pub kind: String,
    pub content: Vec<u8>,
    pub metadata: Vec<MetaEntry>,
}

/// Why a patch was not applied.
#[derive(Clone, Copy, Debug, PartialEq, Eq, Structural)]
pub enum RejectReason {
    /// The post-apply measurement did not show a strict pressure
    /// reduction, or the expected-improvement hint was not acceptable.
    DidNotReduce,
    /// The patch was proposed against an older version of the region.
    StaleVersion,
    /// The artifact refused to parse or apply the patch.
    InvalidPatch,
    /// No region with the patch's identifier exists.
    RegionMissing,
}

impl RejectReason {
    /// A stable textual label for logs and reports.
    pub fn label(&self) -> (s: &'static str)
        ensures
            s@ == self.spec_label(),
    {
        match self {
            RejectReason::DidNotReduce => "did_not_reduce",
            RejectReason::StaleVersion => "stale_version",
            RejectReason::InvalidPatch => "invalid_patch",
            RejectReason::RegionMissing => "region_missing",
        }
    }

    /// The label as a sequence of characters.
    pub open spec fn spec_label(&self) -> Seq<char> {
        match self {
            RejectReason::DidNotReduce => "did_not_reduce"@,
            RejectReason::StaleVersion => "stale_version"@,
            RejectReason::InvalidPatch => "invalid_patch"@,
            RejectReason::RegionMissing => "region_missing"@,
        }
    }
}

} // verus!
