//! Baseline coordination strategies, for comparison with the pressure
//! field: round-robin, uniform random, and manager-ranked assignment.
//! All of them pick regions without the kernel's activation gate.

use vstd::prelude::*;

use rand::seq::SliceRandom;
use rand::RngExt;
use rand::SeedableRng;

use vstd::string::StringSliceAdditionalSpecFns;
use vstd::string::StrSliceExecFns;

use crate::pressure::ShellcheckPressure;
use crate::region::RegionId;
use crate::sensors::ShellcheckSensor;

verus! {

/// A coordination strategy an experiment can run under.
#[derive(Clone, Copy, Debug, PartialEq, Eq, Structural)]
pub enum CoordinationStrategy {
    /// Pressure-field gradient descent: the kernel's own selection.
    PressureField,
    /// A manager ranks regions and assigns them to workers.
    Hierarchical,
    /// Round-robin through the regions.
    Sequential,
    /// Uniform random selection.
    Random,
}

/// A byte, lower-cased when it is an upper-case letter.
pub open spec fn lower_byte(c: u8) -> u8 {
    if 65 <= c <= 90 {
        (c + 32) as u8
    } else {
        c
    }
}

/// A byte string, lower-cased bytewise.
pub open spec fn lowered(s: Seq<u8>) -> Seq<u8> {
    s.map_values(|c: u8| lower_byte(c))
}

/// The strategy a lower-cased name denotes, long names and short aliases
/// alike; earlier alias groups take precedence.
pub open spec fn spec_parse_strategy(low: Seq<u8>) -> Option<CoordinationStrategy> {
    if low == "pressure-field".spec_bytes() || low == "pressure".spec_bytes() || low
        == "pf".spec_bytes() {
        Some(CoordinationStrategy::PressureField)
    } else if low == "hierarchical".spec_bytes() || low == "hier".spec_bytes() || low
        == "h".spec_bytes() {
        Some(CoordinationStrategy::Hierarchical)
    } else if low == "sequential".spec_bytes() || low == "seq".spec_bytes() || low
        == "s".spec_bytes() {
        Some(CoordinationStrategy::Sequential)
    } else if low == "random".spec_bytes() || low == "rand".spec_bytes() || low
        == "r".spec_bytes() {
        Some(CoordinationStrategy::Random)
    } else {
        None
    }
}

impl CoordinationStrategy {
    /// Parse a strategy name, case-insensitively, accepting the short
    /// aliases; an unknown name yields nothing.
    #[verifier::loop_isolation(false)]
    pub fn parse_name(s: &str) -> (r: Option<CoordinationStrategy>)
        ensures
            r == spec_parse_strategy(lowered(s.spec_bytes())),
    {
        let low = to_lower_bytes(s);
        if eq_lit(&low, "pressure-field") || eq_lit(&low, "pressure") || eq_lit(&low, "pf") {
            Some(CoordinationStrategy::PressureField)
        } else if eq_lit(&low, "hierarchical") || eq_lit(&low, "hier") || eq_lit(&low, "h") {
            Some(CoordinationStrategy::Hierarchical)
        } else if eq_lit(&low, "sequential") || eq_lit(&low, "seq") || eq_lit(&low, "s") {
            Some(CoordinationStrategy::Sequential)
        } else if eq_lit(&low, "random") || eq_lit(&low, "rand") || eq_lit(&low, "r") {
            Some(CoordinationStrategy::Random)
        } else {
            None
        }
    }

    /// The canonical name of this strategy.
    pub fn label(&self) -> (s: &'static str)
        ensures
            s@ == self.spec_label(),
    {
        match self {
            CoordinationStrategy::PressureField => "pressure-field",
            CoordinationStrategy::Hierarchical => "hierarchical",
            CoordinationStrategy::Sequential => "sequential",
            CoordinationStrategy::Random => "random",
        }
    }

    /// The canonical name as characters.
    pub open spec fn spec_label(&self) -> Seq<char> {
        match self {
            CoordinationStrategy::PressureField => "pressure-field"@,
            CoordinationStrategy::Hierarchical => "hierarchical"@,
            CoordinationStrategy::Sequential => "sequential"@,
            CoordinationStrategy::Random => "random"@,
        }
    }
}

/// Lower-case the bytes of a name.
#[verifier::loop_isolation(false)]
fn to_lower_bytes(s: &str) -> (r: Vec<u8>)
    ensures
        r@ == lowered(s.spec_bytes()),
{
    let bytes = s.as_bytes_vec();
    let n = bytes.len();
    let mut r: Vec<u8> = Vec::new();
    let mut i: usize = 0;
    while i < n
        invariant
            n == bytes@.len(),
            bytes@ == s.spec_bytes(),
            0 <= i <= n,
            r@.len() == i,
            forall|j: int| 0 <= j < i ==> r@[j] == lower_byte(bytes@[j]),
        decreases n - i,
    {
        let c = bytes[i];
        if 65 <= c && c <= 90 {
            r.push(c + 32);
        } else {
            r.push(c);
        }
        i = i + 1;
    }
    proof {
        assert(r@ =~= lowered(s.spec_bytes()));
    }
    r
}

/// Compare a byte vector against a literal name.
fn eq_lit(v: &Vec<u8>, lit: &str) -> (r: bool)
    ensures
        r == (v@ == lit.spec_bytes()),
{
    let lb = lit.as_bytes_vec();
    crate::artifact::vec_bytes_equal(v, &lb)
}

/// Round-robin assignment through the regions, ignoring pressure.
pub struct SequentialStrategy {
    pub agent_count: usize,
    pub current_index: usize,
}

impl SequentialStrategy {
    /// A fresh strategy at the start of the sequence.
    pub fn new(agent_count: usize) -> (s: SequentialStrategy)
        ensures
            s.agent_count == agent_count,
            s.current_index == 0,
    {
        SequentialStrategy { agent_count, current_index: 0 }
    }

    /// Assign the next regions in sequence, one per agent, wrapping to
    /// the start once the end of the list is passed.
    #[verifier::loop_isolation(false)]
    pub fn select_next(&mut self, regions: &Vec<RegionId>) -> (assignments: Vec<(usize, RegionId)>)
        ensures
            final(self).agent_count == old(self).agent_count,
            assignments@.len() == (if old(self).current_index < regions@.len() {
                vstd::math::min(
                    old(self).agent_count as int,
                    regions@.len() - old(self).current_index,
                )
            } else {
                0int
            }),
            forall|j: int|
                0 <= j < assignments@.len() ==> #[trigger] assignments@[j] == (
                j as usize,
                regions@[old(self).current_index + j],
            ),
            final(self).current_index as int == (if old(self).current_index
                + assignments@.len() >= regions@.len() {
                0int
            } else {
                old(self).current_index + assignments@.len()
            }),
    {
        let mut assignments: Vec<(usize, RegionId)> = Vec::new();
        let n = regions.len();
        let ghost start = self.current_index as int;
        let mut agent_idx: usize = 0;
        while agent_idx < self.agent_count
            invariant
                self.agent_count == old(self).agent_count,
                n == regions@.len(),
                0 <= agent_idx <= self.agent_count,
                start == old(self).current_index,
                self.current_index as int == vstd::math::min(start + agent_idx, n as int)
                    || (start >= n && self.current_index == start),
                assignments@.len() == (if start < n {
                    vstd::math::min(agent_idx as int, n - start)
                } else {
                    0int
                }),
                forall|j: int|
                    0 <= j < assignments@.len() ==> #[trigger] assignments@[j] == (
                    j as usize,
                    regions@[start + j],
                ),
            decreases self.agent_count - agent_idx,
        {
            if self.current_index < n {
                assignments.push((agent_idx, regions[self.current_index]));
                self.current_index = self.current_index + 1;
            }
            agent_idx = agent_idx + 1;
        }
        if self.current_index >= n {
            self.current_index = 0;
        }
        assignments
    }

    /// Restart the sequence from the first region.
    pub fn reset(&mut self)
        ensures
            final(self).agent_count == old(self).agent_count,
            final(self).current_index == 0,
    {
        self.current_index = 0;
    }

    /// The number of agents.
    pub fn agent_count(&self) -> (n: usize)
        ensures
            n == self.agent_count,
    {
        self.agent_count
    }
}

/// Relies on `rand::rngs::StdRng`, the crate's seedable standard
/// generator; the kernel treats its values as opaque.
#[verifier::external_type_specification]
#[verifier::external_body]
pub struct ExStdRng(rand::rngs::StdRng);

/// Relies on `rand::SeedableRng::seed_from_u64`: builds a generator from
/// a seed.  Nothing is assumed about the stream it produces.
#[verifier::external_body]
pub(crate) fn rng_from_seed(seed: u64) -> rand::rngs::StdRng {
    rand::rngs::StdRng::seed_from_u64(seed)
}

/// Relies on `rand::SeedableRng::from_rng` and `rand::rng()`: a
/// generator seeded from the thread-local one.  Nothing is assumed about
/// the stream it produces.
#[verifier::external_body]
fn rng_from_entropy() -> rand::rngs::StdRng {
    rand::rngs::StdRng::from_rng(&mut rand::rng())
}

/// Relies on `rand::Rng::random_range` over `0..len`: a uniformly drawn
/// index strictly below `len` (the call panics on an empty range, which
/// the precondition excludes).
#[verifier::external_body]
fn draw_index(rng: &mut rand::rngs::StdRng, len: usize) -> (i: usize)
    requires
        len > 0,
    ensures
        i < len,
{
    rng.random_range(0..len)
}

/// Relies on `rand::Rng::random_range` over `lo..=hi`: a uniformly drawn
/// value in the inclusive range (never empty by the precondition).
#[verifier::external_body]
pub(crate) fn draw_inclusive(rng: &mut rand::rngs::StdRng, lo: usize, hi: usize) -> (v: usize)
    requires
        lo <= hi,
    ensures
        lo <= v <= hi,
{
    rng.random_range(lo..=hi)
}

/// Relies on `rand::seq::SliceRandom::shuffle` (Fisher-Yates): the slice
/// afterwards holds a permutation of the same elements.
#[verifier::external_body]
fn shuffle_ids(rng: &mut rand::rngs::StdRng, v: &mut Vec<RegionId>)
    ensures
        final(v)@.to_multiset() == old(v)@.to_multiset(),
        final(v)@.len() == old(v)@.len(),
{
    v.as_mut_slice().shuffle(rng)
}

/// Uniform random selection of regions, ignoring pressure.
pub struct RandomStrategy {
    pub agent_count: usize,
    pub rng: rand::rngs::StdRng,
}

impl RandomStrategy {
    /// A strategy with a fixed seed, for reproducible runs.
    pub fn new(agent_count: usize, seed: u64) -> (s: RandomStrategy)
        ensures
            s.agent_count == agent_count,
    {
        RandomStrategy { agent_count, rng: rng_from_seed(seed) }
    }

    /// A strategy seeded from the environment's generator.
    pub fn new_random(agent_count: usize) -> (s: RandomStrategy)
        ensures
            s.agent_count == agent_count,
    {
        RandomStrategy { agent_count, rng: rng_from_entropy() }
    }

    /// One uniformly drawn region per agent; the same region may serve
    /// several agents.  An empty region list yields no assignments.
    #[verifier::loop_isolation(false)]
    pub fn select_random(&mut self, regions: &Vec<RegionId>) -> (assignments: Vec<
        (usize, RegionId),
    >)
        ensures
            final(self).agent_count == old(self).agent_count,
            regions@.len() == 0 ==> assignments@.len() == 0,
            regions@.len() > 0 ==> assignments@.len() == old(self).agent_count,
            forall|j: int|
                0 <= j < assignments@.len() ==> (#[trigger] assignments@[j]).0 == j as usize
                    && regions@.contains(assignments@[j].1),
    {
        let mut assignments: Vec<(usize, RegionId)> = Vec::new();
        if regions.len() == 0 {
            return assignments;
        }
        let count = self.agent_count;
        let mut agent_idx: usize = 0;
        while agent_idx < count
            invariant
                self.agent_count == old(self).agent_count,
                count == old(self).agent_count,
                regions@.len() > 0,
                0 <= agent_idx <= count,
                assignments@.len() == agent_idx,
                forall|j: int|
                    0 <= j < assignments@.len() ==> (#[trigger] assignments@[j]).0 == j as usize
                        && regions@.contains(assignments@[j].1),
            decreases count - agent_idx,
        {
            let region_idx = draw_index(&mut self.rng, regions.len());
            assignments.push((agent_idx, regions[region_idx]));
            agent_idx = agent_idx + 1;
        }
        assignments
    }

    /// Random regions without replacement: a shuffled copy of the region
    /// list, its first entries assigned one per agent.  With pairwise
    /// distinct input regions no region serves two agents.
    #[verifier::loop_isolation(false)]
    pub fn select_unique(&mut self, regions: &Vec<RegionId>) -> (assignments: Vec<
        (usize, RegionId),
    >)
        ensures
            final(self).agent_count == old(self).agent_count,
            assignments@.len() == vstd::math::min(
                old(self).agent_count as int,
                regions@.len() as int,
            ),
            forall|j: int|
                0 <= j < assignments@.len() ==> (#[trigger] assignments@[j]).0 == j as usize
                    && regions@.contains(assignments@[j].1),
            regions@.no_duplicates() ==> forall|j1: int, j2: int|
                0 <= j1 < j2 < assignments@.len() ==> (#[trigger] assignments@[j1]).1 != (
                #[trigger] assignments@[j2]).1,
    {
        broadcast use vstd::seq_lib::group_to_multiset_ensures;

        let mut available: Vec<RegionId> = Vec::new();
        let n = regions.len();
        let mut i: usize = 0;
        while i < n
            invariant
                n == regions@.len(),
                0 <= i <= n,
                available@ == regions@.take(i as int),
            decreases n - i,
        {
            available.push(regions[i]);
            proof {
                assert(regions@.take(i + 1) =~= regions@.take(i as int).push(regions@[i as int]));
            }
            i = i + 1;
        }
        proof {
            assert(regions@.take(n as int) =~= regions@);
        }
        shuffle_ids(&mut self.rng, &mut available);
        proof {
            assert forall|k: int|
                0 <= k < available@.len() implies regions@.contains(
                #[trigger] available@[k],
            ) by {
                assert(available@.contains(available@[k]));
                assert(available@.to_multiset().count(available@[k]) > 0);
                assert(regions@.to_multiset().count(available@[k]) > 0);
            }
            if regions@.no_duplicates() {
                regions@.lemma_multiset_has_no_duplicates();
                available@.lemma_multiset_has_no_duplicates_conv();
                assert(available@.no_duplicates());
            }
        }
        let take = if self.agent_count < available.len() {
            self.agent_count
        } else {
            available.len()
        };
        let mut assignments: Vec<(usize, RegionId)> = Vec::new();
        let mut j: usize = 0;
        while j < take
            invariant
                self.agent_count == old(self).agent_count,
                take <= available@.len(),
                0 <= j <= take,
                assignments@.len() == j,
                forall|t: int|
                    0 <= t < assignments@.len() ==> (#[trigger] assignments@[t]).0 == t as usize
                        && assignments@[t].1 == available@[t] && regions@.contains(
                        assignments@[t].1,
                    ),
            decreases take - j,
        {
            assignments.push((j, available[j]));
            j = j + 1;
        }
        proof {
            if regions@.no_duplicates() {
                assert(available@.no_duplicates());
                assert forall|j1: int, j2: int|
                    0 <= j1 < j2 < assignments@.len() implies (#[trigger] assignments@[j1]).1 != (
                #[trigger] assignments@[j2]).1 by {
                    assert(assignments@[j1].1 == available@[j1]);
                    assert(assignments@[j2].1 == available@[j2]);
                }
            }
        }
        assignments
    }

    /// The number of agents.
    pub fn agent_count(&self) -> (n: usize)
        ensures
            n == self.agent_count,
    {
        self.agent_count
    }
}

/// Whether one dealt assignment carries the id and pressure of some
/// measured region.
pub open spec fn spec_measured_origin(measured: Seq<RankedAssignment>, a: RankedAssignment) -> bool {
    exists|k: int|
        #![trigger measured[k]]
        0 <= k < measured.len() && measured[k].id == a.id && measured[k].pressure == a.pressure
}

/// One assignment of a ranked region to a worker.
pub struct RankedAssignment {
    pub agent: usize,
    pub id: RegionId,
    pub pressure: i64,
}

/// Manager-style assignment: regions ranked by pressure, dealt to the
/// workers round-robin.  Measuring the regions is the caller's I/O; the
/// ranking and dealing are verified here.
pub struct HierarchicalStrategy {
    pub agent_count: usize,
    pub pressure: ShellcheckPressure,
    pub sensor: ShellcheckSensor,
}

impl HierarchicalStrategy {
    /// A manager over `agent_count` workers with default pressure
    /// weights and linter settings.
    pub fn new(agent_count: usize) -> (s: HierarchicalStrategy)
        ensures
            s.agent_count == agent_count,
            s.pressure.activation_threshold == 2 * crate::fixed::SCALE,
    {
        HierarchicalStrategy {
            agent_count,
            pressure: ShellcheckPressure::new(),
            sensor: ShellcheckSensor::new(),
        }
    }

    /// Rank the measured regions by pressure (descending, ties to the
    /// smaller id) and deal them to the workers round-robin.
    #[verifier::loop_isolation(false)]
    pub fn assign_by_pressure(&self, measured: &Vec<RankedAssignment>) -> (out: Vec<
        RankedAssignment,
    >)
        requires
            self.agent_count > 0,
        ensures
            out@.len() == measured@.len(),
            forall|p: int|
                0 <= p < out@.len() ==> (#[trigger] out@[p]).agent as int == p % (
                self.agent_count as int),
            forall|p1: int, p2: int|
                0 <= p1 < p2 < out@.len() ==> (#[trigger] out@[p1]).pressure >= (
                #[trigger] out@[p2]).pressure,
            forall|p: int|
                #![trigger out@[p]]
                0 <= p < out@.len() ==> spec_measured_origin(measured@, out@[p]),
    {
        broadcast use vstd::seq_lib::group_to_multiset_ensures;

        let n = measured.len();
        let mut items: Vec<crate::kernel::Activated> = Vec::new();
        let mut i: usize = 0;
        while i < n
            invariant
                n == measured@.len(),
                0 <= i <= n,
                items@.len() == i,
                forall|k: int|
                    0 <= k < i ==> (#[trigger] items@[k]).id == measured@[k].id
                        && items@[k].pressure == measured@[k].pressure,
                items@.map_values(|a: crate::kernel::Activated| (a.id, a.pressure))
                    =~= measured@.take(i as int).map_values(
                    |a: RankedAssignment| (a.id, a.pressure),
                ),
            decreases n - i,
        {
            items.push(
                crate::kernel::Activated {
                    region_index: i,
                    id: measured[i].id,
                    pressure: measured[i].pressure,
                },
            );
            proof {
                assert(measured@.take(i + 1) =~= measured@.take(i as int).push(
                    measured@[i as int],
                ));
                assert(items@.map_values(|a: crate::kernel::Activated| (a.id, a.pressure))
                    =~= measured@.take(i + 1).map_values(
                    |a: RankedAssignment| (a.id, a.pressure),
                ));
            }
            i = i + 1;
        }
        proof {
            assert(measured@.take(n as int) =~= measured@);
        }
        let ghost items_snap = items@;
        let sorted = crate::kernel::sort_by_priority_vec(items);
        let m = sorted.len();
        let mut out: Vec<RankedAssignment> = Vec::new();
        let mut p: usize = 0;
        while p < m
            invariant
                self.agent_count > 0,
                m == sorted@.len(),
                0 <= p <= m,
                out@.len() == p,
                forall|k: int|
                    0 <= k < p ==> (#[trigger] out@[k]).agent as int == k % (
                    self.agent_count as int) && out@[k].id == sorted@[k].id && out@[k].pressure
                        == sorted@[k].pressure,
                out@.map_values(|a: RankedAssignment| (a.id, a.pressure)) =~= sorted@.take(
                    p as int,
                ).map_values(|a: crate::kernel::Activated| (a.id, a.pressure)),
            decreases m - p,
        {
            let agent = p % self.agent_count;
            out.push(RankedAssignment { agent, id: sorted[p].id, pressure: sorted[p].pressure });
            proof {
                assert(sorted@.take(p + 1) =~= sorted@.take(p as int).push(sorted@[p as int]));
                assert(out@.map_values(|a: RankedAssignment| (a.id, a.pressure)) =~= sorted@.take(
                    p + 1,
                ).map_values(|a: crate::kernel::Activated| (a.id, a.pressure)));
            }
            p = p + 1;
        }
        proof {
            assert(sorted@.take(m as int) =~= sorted@);
            assert forall|p1: int, p2: int|
                0 <= p1 < p2 < out@.len() implies (#[trigger] out@[p1]).pressure >= (
            #[trigger] out@[p2]).pressure by {
                assert(!crate::kernel::better(sorted@[p2], sorted@[p1]));
            }
            assert forall|p2: int|
                #![trigger out@[p2]]
                0 <= p2 < out@.len() implies spec_measured_origin(measured@, out@[p2]) by {
                assert(sorted@.contains(sorted@[p2]));
                assert(sorted@.to_multiset().count(sorted@[p2]) > 0);
                assert(items_snap.to_multiset().count(sorted@[p2]) > 0);
                assert(items_snap.contains(sorted@[p2]));
                let k = choose|k: int| 0 <= k < items_snap.len() && items_snap[k] == sorted@[p2];
                assert(0 <= k < measured@.len());
                assert(items_snap[k].id == measured@[k].id && items_snap[k].pressure
                    == measured@[k].pressure);
                assert(out@[p2].id == sorted@[p2].id && out@[p2].pressure == sorted@[p2].pressure);
                assert(measured@[k].id == out@[p2].id && measured@[k].pressure
                    == out@[p2].pressure);
            }
        }
        out
    }

    /// The number of agents.
    pub fn agent_count(&self) -> (n: usize)
        ensures
            n == self.agent_count,
    {
        self.agent_count
    }
}


} // verus!
