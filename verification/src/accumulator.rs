//! The statistics of all targets, keyed by target name.
//!
//! A target's record comes into being, zeroed, with its first outcome. The
//! store has one way in, [`Accumulator::record`], which takes the store by
//! exclusive reference: two outcomes are never counted at once, so a record
//! is always the result of counting some outcomes one after the other.

use vstd::prelude::*;
use crate::stats::{lemma_replay, lift, replay, Sample, Stats, StatsModel};
use crate::text::views_of;

verus! {

/// One probe outcome on its way to the statistics.
#[derive(Clone, Debug)]
pub struct ProbeResult {
    pub target: String,
    pub success: bool,
    pub latency_us: Option<u64>,
}

/// Per-target statistics.
pub struct Accumulator {
    names: Vec<String>,
    records: Vec<Stats>,
}

/// The record of `name` in `map`, the zeroed record where it has none.
pub open spec fn record_in(map: Map<Seq<char>, StatsModel>, name: Seq<char>) -> StatsModel {
    if map.contains_key(name) {
        map[name]
    } else {
        StatsModel::empty()
    }
}

/// The outcome that `result` carries, as the statistics see it.
pub open spec fn sample_of(result: ProbeResult) -> Sample {
    Sample { success: result.success, latency_us: lift(result.latency_us) }
}

/// The records `map` after the outcomes `results` were counted, in order.
pub open spec fn absorbed(map: Map<Seq<char>, StatsModel>, results: Seq<ProbeResult>) -> Map<
    Seq<char>,
    StatsModel,
>
    decreases results.len(),
{
    if results.len() == 0 {
        map
    } else {
        let before = absorbed(map, results.drop_last());
        let last = results.last();
        before.insert(
            last.target@,
            record_in(before, last.target@).record(last.success, lift(last.latency_us)),
        )
    }
}

/// The outcomes among `results` that are about the target `name`, in order.
pub open spec fn history_of(results: Seq<ProbeResult>, name: Seq<char>) -> Seq<Sample>
    decreases results.len(),
{
    if results.len() == 0 {
        Seq::empty()
    } else {
        let before = history_of(results.drop_last(), name);
        if results.last().target@ == name {
            before.push(sample_of(results.last()))
        } else {
            before
        }
    }
}

impl View for Accumulator {
    type V = Map<Seq<char>, StatsModel>;

    closed spec fn view(&self) -> Map<Seq<char>, StatsModel> {
        Map::new(
            |name: Seq<char>| views_of(self.names@).contains(name),
            |name: Seq<char>| self.records@[views_of(self.names@).index_of(name)]@,
        )
    }
}

impl Accumulator {
    #[verifier::type_invariant]
    spec fn inv(self) -> bool {
        &&& self.names@.len() == self.records@.len()
        &&& views_of(self.names@).no_duplicates()
        &&& forall|i: int| 0 <= i < self.records@.len() ==> (#[trigger] self.records@[i])@.wf()
    }

    /// The record of `name`, the zeroed record where it has none yet.
    pub open spec fn stats_of(self, name: Seq<char>) -> StatsModel {
        record_in(self@, name)
    }

    /// The store without any record.
    pub fn new() -> (acc: Accumulator)
        ensures
            acc@ == Map::<Seq<char>, StatsModel>::empty(),
    {
        let acc = Accumulator { names: Vec::new(), records: Vec::new() };
        assert(acc@ =~= Map::<Seq<char>, StatsModel>::empty());
        acc
    }

    /// The place of `name` among the names, if it has one.
    fn find(&self, name: &String) -> (at: Option<usize>)
        ensures
            match at {
                Some(i) => i < self.names@.len() && self.names@[i as int]@ == name@,
                None => !views_of(self.names@).contains(name@),
            },
    {
        let mut i: usize = 0;
        while i < self.names.len()
            invariant
                i <= self.names@.len(),
                forall|j: int| 0 <= j < i ==> self.names@[j]@ != name@,
            decreases self.names@.len() - i,
        {
            if self.names[i] == *name {
                return Some(i);
            }
            i += 1;
        }
        assert forall|j: int| 0 <= j < views_of(self.names@).len() implies views_of(
            self.names@,
        )[j] != name@ by {
            assert(views_of(self.names@)[j] == self.names@[j]@);
        }
        None
    }

    /// A copy of the record of `target`, the zeroed record where it has none yet.
    pub fn get(&self, target: &str) -> (stats: Stats)
        ensures
            stats@ == self.stats_of(target@),
            stats@.wf(),
            stats@.success <= stats@.total,
    {
        proof {
            use_type_invariant(self);
        }
        let name: String = target.to_owned();
        match self.find(&name) {
            Some(i) => {
                proof {
                    let keys = views_of(self.names@);
                    assert(keys[i as int] == name@);
                    assert(keys.contains(name@));
                    assert(keys.index_of(name@) == i);
                }
                self.records[i]
            },
            None => Stats::new(),
        }
    }

    /// Whether one more outcome of `target` can be counted without leaving `u64`.
    pub fn has_room(&self, target: &str) -> (room: bool)
        ensures
            room == (self.stats_of(target@).total < u64::MAX),
            self.stats_of(target@).total <= u64::MAX,
    {
        self.get(target).has_room()
    }

    /// Counts one probe outcome for `target`. Other targets' records stay as
    /// they are.
    pub fn record(&mut self, target: &str, success: bool, latency_us: Option<u64>)
        requires
            old(self).stats_of(target@).total < u64::MAX,
        ensures
            final(self)@ == old(self)@.insert(
                target@,
                old(self).stats_of(target@).record(success, lift(latency_us)),
            ),
            all_wf(old(self)@),
            all_wf(final(self)@),
    {
        proof {
            use_type_invariant(&*self);
            self.lemma_all_wf();
        }
        let name: String = target.to_owned();
        let ghost keys = views_of(self.names@);
        let ghost before = self@;
        match self.find(&name) {
            Some(i) => {
                proof {
                    assert(keys[i as int] == name@);
                    assert(keys.contains(name@));
                    assert(keys.index_of(name@) == i);
                }
                let mut stats: Stats = self.records[i];
                stats.record(success, latency_us);
                let mut taken = Accumulator::new();
                core::mem::swap(self, &mut taken);
                let Accumulator { names, mut records } = taken;
                records.set(i, stats);
                *self = Accumulator { names, records };
                proof {
                    assert(views_of(self.names@) == keys);
                    assert forall|k: Seq<char>| keys.contains(k) implies #[trigger] self@[k]
                        == before.insert(name@, stats@)[k] by {
                        let j = keys.index_of(k);
                        if k != name@ {
                            assert(keys[j] == k);
                            assert(j != i);
                        }
                    }
                    assert(self@ =~= before.insert(name@, stats@));
                    self.lemma_all_wf();
                }
            },
            None => {
                let mut stats: Stats = Stats::new();
                stats.record(success, latency_us);
                let mut taken = Accumulator::new();
                core::mem::swap(self, &mut taken);
                let Accumulator { mut names, mut records } = taken;
                names.push(name);
                records.push(stats);
                proof {
                    let after = views_of(names@);
                    let n = keys.len() as int;
                    assert(after.len() == n + 1);
                    assert forall|j: int| 0 <= j < n implies #[trigger] after[j] == keys[j] by {}
                    assert(after[n] == target@);
                    assert(after.no_duplicates()) by {
                        assert forall|a: int, b: int|
                            0 <= a < after.len() && 0 <= b < after.len() && a != b implies after[a]
                            != after[b] by {
                            if a < n && b < n {
                                assert(keys[a] != keys[b]);
                            } else if a < n {
                                assert(keys[a] == after[a]);
                                assert(keys.contains(after[a]));
                            } else {
                                assert(keys[b] == after[b]);
                                assert(keys.contains(after[b]));
                            }
                        }
                    }
                }
                *self = Accumulator { names, records };
                proof {
                    let after = views_of(self.names@);
                    let n = keys.len() as int;
                    assert forall|k: Seq<char>| #[trigger]
                        after.contains(k) == (keys.contains(k) || k == target@) by {
                        if keys.contains(k) {
                            let j = keys.index_of(k);
                            assert(after[j] == k);
                        }
                        if k == target@ {
                            assert(after[n] == k);
                        }
                        if after.contains(k) {
                            let j = after.index_of(k);
                            if j < n {
                                assert(keys[j] == k);
                            }
                        }
                    }
                    assert forall|k: Seq<char>| after.contains(k) implies #[trigger] self@[k]
                        == before.insert(target@, stats@)[k] by {
                        let j = after.index_of(k);
                        if k == target@ {
                            assert(after[n] == k);
                            assert(j == n);
                        } else {
                            assert(keys.contains(k));
                            let i0 = keys.index_of(k);
                            assert(after[i0] == k);
                            assert(j == i0);
                        }
                    }
                    assert(self@ =~= before.insert(target@, stats@));
                    self.lemma_all_wf();
                }
            },
        }
    }

    /// Counts the outcomes `results` in order, as far as the counters have
    /// room, and says how many were counted: all of them, or all before the
    /// first whose target has as many probes as `u64` can hold.
    pub fn absorb(&mut self, results: &Vec<ProbeResult>) -> (counted: usize)
        ensures
            counted <= results@.len(),
            final(self)@ == absorbed(old(self)@, results@.take(counted as int)),
            counted < results@.len() ==> final(self).stats_of(
                results@[counted as int].target@,
            ).total == u64::MAX,
            all_wf(final(self)@),
    {
        proof {
            use_type_invariant(&*self);
            self.lemma_all_wf();
        }
        let mut i: usize = 0;
        assert(results@.take(0) =~= Seq::<ProbeResult>::empty());
        while i < results.len()
            invariant
                i <= results@.len(),
                self@ == absorbed(old(self)@, results@.take(i as int)),
                all_wf(self@),
            decreases results@.len() - i,
        {
            if !self.has_room(results[i].target.as_str()) {
                return i;
            }
            self.record_result(&results[i]);
            proof {
                let grown = results@.take(i + 1);
                assert(grown.drop_last() =~= results@.take(i as int));
                assert(grown.last() == results@[i as int]);
            }
            i += 1;
        }
        i
    }

    proof fn lemma_all_wf(&self)
        requires
            self.inv(),
        ensures
            all_wf(self@),
    {
        let keys = views_of(self.names@);
        assert forall|name: Seq<char>| self@.contains_key(name) implies (#[trigger] self@[name]).wf() by {
            let i = keys.index_of(name);
            assert(keys[i] == name);
            assert(self.records@[i]@.wf());
        }
    }

    /// Counts the outcome that `result` carries for its target.
    pub fn record_result(&mut self, result: &ProbeResult)
        requires
            old(self).stats_of(result.target@).total < u64::MAX,
        ensures
            final(self)@ == old(self)@.insert(
                result.target@,
                old(self).stats_of(result.target@).record(result.success, lift(result.latency_us)),
            ),
            all_wf(final(self)@),
    {
        self.record(result.target.as_str(), result.success, result.latency_us);
    }
}

/// However the outcomes of many targets follow one another, each target's
/// record is what its own outcomes give, counted in their order from the
/// zeroed record: well formed, with no more successes than probes.
pub proof fn lemma_absorbed_is_replay(results: Seq<ProbeResult>, name: Seq<char>)
    ensures
        record_in(absorbed(Map::empty(), results), name) == replay(history_of(results, name)),
        record_in(absorbed(Map::empty(), results), name).wf(),
        record_in(absorbed(Map::empty(), results), name).success <= record_in(
            absorbed(Map::empty(), results),
            name,
        ).total,
    decreases results.len(),
{
    lemma_replay(history_of(results, name));
    if results.len() > 0 {
        let earlier = results.drop_last();
        let last = results.last();
        lemma_absorbed_is_replay(earlier, name);
        if last.target@ == name {
            let grown = history_of(earlier, name).push(sample_of(last));
            assert(grown.drop_last() =~= history_of(earlier, name));
            assert(grown.last() == sample_of(last));
        }
    }
}

/// Counting an outcome for one target leaves every other target's record as it was.
pub proof fn lemma_record_is_per_target(
    before: Map<Seq<char>, StatsModel>,
    target: Seq<char>,
    updated: StatsModel,
    other: Seq<char>,
)
    requires
        other != target,
    ensures
        record_in(before.insert(target, updated), other) == record_in(before, other),
        record_in(before.insert(target, updated), target) == updated,
{
}

/// Whether every record of `map` is well formed.
pub open spec fn all_wf(map: Map<Seq<char>, StatsModel>) -> bool {
    forall|name: Seq<char>| map.contains_key(name) ==> (#[trigger] map[name]).wf()
}

/// Counting an outcome keeps every record well formed: in each, no more
/// successes than probes and no more samples than successes.
pub proof fn lemma_record_keeps_all_wf(
    before: Map<Seq<char>, StatsModel>,
    target: Seq<char>,
    success: bool,
    latency_us: Option<nat>,
)
    requires
        all_wf(before),
    ensures
        all_wf(before.insert(target, record_in(before, target).record(success, latency_us))),
        forall|name: Seq<char>|
            record_in(
                #[trigger] before.insert(
                    target,
                    record_in(before, target).record(success, latency_us),
                ),
                name,
            ).success <= record_in(
                before.insert(target, record_in(before, target).record(success, latency_us)),
                name,
            ).total,
{
    crate::stats::lemma_record_wf(record_in(before, target), success, latency_us);
    let after = before.insert(target, record_in(before, target).record(success, latency_us));
    assert forall|name: Seq<char>| after.contains_key(name) implies (#[trigger] after[name]).wf() by {
        if name != target {
            assert(before.contains_key(name));
            assert(before[name].wf());
        }
    }
}

} // verus!
