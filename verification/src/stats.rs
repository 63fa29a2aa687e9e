//! Running statistics of one target.
//!
//! Latencies are whole microseconds. A probe outcome counts towards
//! `total`; a successful one also towards `success`; a successful one that
//! carries a latency is a sample and enters `min`, `max` and `sum`.

use vstd::prelude::*;

verus! {

/// One probe outcome as the statistics see it.
pub struct Sample {
    pub success: bool,
    pub latency_us: Option<nat>,
}

impl Sample {
    /// Whether the outcome is a successful probe that reported a latency.
    pub open spec fn counted(self) -> bool {
        self.success && self.latency_us is Some
    }
}

/// The mathematical content of a [`Stats`] record.
pub struct StatsModel {
    pub success: nat,
    pub total: nat,
    pub min_us: Option<nat>,
    pub max_us: Option<nat>,
    pub sum_us: nat,
    pub samples: nat,
}

/// The lesser of two numbers.
pub open spec fn lesser(a: nat, b: nat) -> nat {
    if a <= b {
        a
    } else {
        b
    }
}

/// The greater of two numbers.
pub open spec fn greater(a: nat, b: nat) -> nat {
    if a >= b {
        a
    } else {
        b
    }
}

impl StatsModel {
    /// The record before any outcome.
    pub open spec fn empty() -> StatsModel {
        StatsModel { success: 0, total: 0, min_us: None, max_us: None, sum_us: 0, samples: 0 }
    }

    /// The invariants of a record.
    pub open spec fn wf(self) -> bool {
        &&& self.success <= self.total
        &&& self.samples <= self.success
        &&& self.samples == 0 ==> self.min_us is None && self.max_us is None && self.sum_us == 0
        &&& self.samples > 0 ==> {
            &&& self.min_us is Some
            &&& self.max_us is Some
            &&& self.min_us->0 <= self.max_us->0
            &&& self.min_us->0 * self.samples <= self.sum_us
            &&& self.sum_us <= self.max_us->0 * self.samples
        }
    }

    /// The record after one more outcome.
    pub open spec fn record(self, success: bool, latency_us: Option<nat>) -> StatsModel {
        if !success {
            StatsModel { total: self.total + 1, ..self }
        } else if latency_us is None {
            StatsModel { total: self.total + 1, success: self.success + 1, ..self }
        } else {
            let us = latency_us->0;
            StatsModel {
                total: self.total + 1,
                success: self.success + 1,
                min_us: Some(
                    match self.min_us {
                        Some(cur) => lesser(cur, us),
                        None => us,
                    },
                ),
                max_us: Some(
                    match self.max_us {
                        Some(cur) => greater(cur, us),
                        None => us,
                    },
                ),
                sum_us: self.sum_us + us,
                samples: self.samples + 1,
            }
        }
    }

    /// Mean latency, rounded down to a whole microsecond; `None` without samples.
    pub open spec fn avg_us(self) -> Option<nat> {
        if self.samples > 0 {
            Some(self.sum_us / self.samples)
        } else {
            None
        }
    }
}

/// The record reached from the empty one by the outcomes in `history`, in order.
pub open spec fn replay(history: Seq<Sample>) -> StatsModel
    decreases history.len(),
{
    if history.len() == 0 {
        StatsModel::empty()
    } else {
        replay(history.drop_last()).record(history.last().success, history.last().latency_us)
    }
}

/// Number of successful outcomes in `history`.
pub open spec fn success_count(history: Seq<Sample>) -> nat
    decreases history.len(),
{
    if history.len() == 0 {
        0
    } else {
        success_count(history.drop_last()) + if history.last().success {
            1nat
        } else {
            0nat
        }
    }
}

/// Number of samples in `history`.
pub open spec fn sample_count(history: Seq<Sample>) -> nat
    decreases history.len(),
{
    if history.len() == 0 {
        0
    } else {
        sample_count(history.drop_last()) + if history.last().counted() {
            1nat
        } else {
            0nat
        }
    }
}

/// Sum of the latencies of the samples in `history`.
pub open spec fn latency_sum(history: Seq<Sample>) -> nat
    decreases history.len(),
{
    if history.len() == 0 {
        0
    } else {
        latency_sum(history.drop_last()) + if history.last().counted() {
            history.last().latency_us->0
        } else {
            0nat
        }
    }
}

/// Recording one outcome keeps a record well formed.
pub proof fn lemma_record_wf(m: StatsModel, success: bool, latency_us: Option<nat>)
    requires
        m.wf(),
    ensures
        m.record(success, latency_us).wf(),
        m.record(success, latency_us).total == m.total + 1,
        m.record(success, latency_us).success >= m.success,
        m.record(success, latency_us).samples >= m.samples,
{
    if success && latency_us is Some {
        let us = latency_us->0;
        let r = m.record(success, latency_us);
        if m.samples > 0 {
            let lo = m.min_us->0;
            let hi = m.max_us->0;
            let n = m.samples;
            assert(r.min_us->0 * (n + 1) <= m.sum_us + us) by (nonlinear_arith)
                requires
                    r.min_us->0 <= lo,
                    r.min_us->0 <= us,
                    lo * n <= m.sum_us,
            ;
            assert(m.sum_us + us <= r.max_us->0 * (n + 1)) by (nonlinear_arith)
                requires
                    r.max_us->0 >= hi,
                    r.max_us->0 >= us,
                    m.sum_us <= hi * n,
            ;
        } else {
            assert(us * 1 == us) by (nonlinear_arith);
        }
    }
}

/// Counting one outcome never lets the successes exceed the probes: it
/// holds after the outcome if it held before, whatever the outcome is.
pub proof fn lemma_record_keeps_order(m: StatsModel, success: bool, latency_us: Option<nat>)
    requires
        m.success <= m.total,
    ensures
        m.record(success, latency_us).success <= m.record(success, latency_us).total,
{
}

/// In a well-formed record with samples, the mean is the sum over the sample
/// count and lies between the least and the greatest sample.
pub proof fn lemma_avg_between(m: StatsModel)
    requires
        m.wf(),
        m.samples > 0,
    ensures
        m.avg_us() == Some(m.sum_us / m.samples),
        m.min_us->0 <= m.avg_us()->0 <= m.max_us->0,
{
    let n = m.samples as int;
    let s = m.sum_us as int;
    let lo = m.min_us->0 as int;
    let hi = m.max_us->0 as int;
    assert(lo <= s / n <= hi) by (nonlinear_arith)
        requires
            n > 0,
            lo * n <= s,
            s <= hi * n,
    ;
}

/// After any sequence of outcomes the record is well formed and its counters
/// are the counts, and its sum the sum, over that sequence.
pub proof fn lemma_replay(history: Seq<Sample>)
    ensures
        replay(history).wf(),
        replay(history).total == history.len(),
        replay(history).success == success_count(history),
        replay(history).samples == sample_count(history),
        replay(history).sum_us == latency_sum(history),
        replay(history).success <= replay(history).total,
    decreases history.len(),
{
    if history.len() > 0 {
        lemma_replay(history.drop_last());
        lemma_record_wf(
            replay(history.drop_last()),
            history.last().success,
            history.last().latency_us,
        );
    }
}

/// After any sequence of outcomes with at least one sample, the mean is the
/// sum of the sampled latencies over their count, between `min` and `max`.
pub proof fn lemma_replay_avg(history: Seq<Sample>)
    requires
        sample_count(history) > 0,
    ensures
        replay(history).avg_us() == Some(latency_sum(history) / sample_count(history)),
        replay(history).min_us is Some,
        replay(history).max_us is Some,
        replay(history).min_us->0 <= replay(history).avg_us()->0 <= replay(history).max_us->0,
{
    lemma_replay(history);
    lemma_avg_between(replay(history));
}

/// `min` and `max` bound every sample of the history, and each is one of them.
pub proof fn lemma_replay_extremes(history: Seq<Sample>)
    requires
        sample_count(history) > 0,
    ensures
        forall|i: int|
            0 <= i < history.len() && (#[trigger] history[i]).counted() ==> replay(
                history,
            ).min_us->0 <= history[i].latency_us->0 <= replay(history).max_us->0,
        exists|i: int|
            0 <= i < history.len() && (#[trigger] history[i]).counted() && history[i].latency_us
                == replay(history).min_us,
        exists|i: int|
            0 <= i < history.len() && (#[trigger] history[i]).counted() && history[i].latency_us
                == replay(history).max_us,
    decreases history.len(),
{
    let prev = history.drop_last();
    let last = history.last();
    lemma_replay(prev);
    lemma_replay(history);
    if sample_count(prev) > 0 {
        lemma_replay_extremes(prev);
        let lo = choose|i: int|
            0 <= i < prev.len() && (#[trigger] prev[i]).counted() && prev[i].latency_us == replay(
                prev,
            ).min_us;
        let hi = choose|i: int|
            0 <= i < prev.len() && (#[trigger] prev[i]).counted() && prev[i].latency_us == replay(
                prev,
            ).max_us;
        assert(history[lo] == prev[lo]);
        assert(history[hi] == prev[hi]);
        assert forall|i: int| 0 <= i < history.len() && (#[trigger] history[i]).counted() implies replay(
            history,
        ).min_us->0 <= history[i].latency_us->0 <= replay(history).max_us->0 by {
            if i < prev.len() {
                assert(history[i] == prev[i]);
            }
        }
        if last.counted() {
            let at = history.len() - 1;
            assert(history[at] == last);
        }
    } else {
        assert(last.counted());
        let at = history.len() - 1;
        assert(history[at] == last);
        assert forall|i: int| 0 <= i < history.len() && (#[trigger] history[i]).counted() implies replay(
            history,
        ).min_us->0 <= history[i].latency_us->0 <= replay(history).max_us->0 by {
            if i < prev.len() {
                assert(history[i] == prev[i]);
                lemma_no_samples(prev, i);
            }
        }
    }
}

/// A history without samples has no counted outcome.
pub proof fn lemma_no_samples(history: Seq<Sample>, i: int)
    requires
        sample_count(history) == 0,
        0 <= i < history.len(),
    ensures
        !history[i].counted(),
    decreases history.len(),
{
    if i < history.len() - 1 {
        lemma_no_samples(history.drop_last(), i);
    }
}

/// Running statistics of one target.
#[derive(Clone, Copy, Debug)]
pub struct Stats {
    success: u64,
    total: u64,
    min_us: Option<u64>,
    max_us: Option<u64>,
    sum_us: u128,
    samples: u64,
}

/// A `u64` option as an option of naturals.
pub open spec fn lift(value: Option<u64>) -> Option<nat> {
    match value {
        Some(v) => Some(v as nat),
        None => None,
    }
}

impl View for Stats {
    type V = StatsModel;

    closed spec fn view(&self) -> StatsModel {
        StatsModel {
            success: self.success as nat,
            total: self.total as nat,
            min_us: lift(self.min_us),
            max_us: lift(self.max_us),
            sum_us: self.sum_us as nat,
            samples: self.samples as nat,
        }
    }
}

impl Stats {
    #[verifier::type_invariant]
    spec fn inv(self) -> bool {
        self@.wf()
    }

    /// The zeroed record.
    pub fn new() -> (stats: Stats)
        ensures
            stats@ == StatsModel::empty(),
    {
        Stats { success: 0, total: 0, min_us: None, max_us: None, sum_us: 0, samples: 0 }
    }

    /// Whether one more outcome can be counted without leaving `u64`.
    pub fn has_room(&self) -> (room: bool)
        ensures
            room == (self@.total < u64::MAX),
            self@.total <= u64::MAX,
    {
        self.total < u64::MAX
    }

    /// Counts one probe outcome. A latency on a failed probe is ignored.
    pub fn record(&mut self, success: bool, latency_us: Option<u64>)
        requires
            old(self)@.total < u64::MAX,
        ensures
            final(self)@ == old(self)@.record(success, lift(latency_us)),
            old(self)@.wf(),
            final(self)@.wf(),
    {
        proof {
            use_type_invariant(&*self);
            lemma_record_wf(self@, success, lift(latency_us));
        }
        let total: u64 = self.total + 1;
        if !success {
            *self = Stats { total, ..*self };
        } else {
            let successes: u64 = self.success + 1;
            match latency_us {
                None => {
                    *self = Stats { total, success: successes, ..*self };
                },
                Some(us) => {
                    let min_us: u64 = match self.min_us {
                        Some(cur) => if cur <= us {
                            cur
                        } else {
                            us
                        },
                        None => us,
                    };
                    let max_us: u64 = match self.max_us {
                        Some(cur) => if cur >= us {
                            cur
                        } else {
                            us
                        },
                        None => us,
                    };
                    proof {
                        let n = self.samples as int;
                        let s = self.sum_us as int;
                        if n > 0 {
                            let hi = self.max_us->0 as int;
                            assert(s + us <= 0xffff_ffff_ffff_ffff * 0x1_0000_0000_0000_0000)
                                by (nonlinear_arith)
                                requires
                                    s <= hi * n,
                                    0 <= hi <= 0xffff_ffff_ffff_ffff,
                                    0 < n <= 0xffff_ffff_ffff_ffff,
                                    0 <= us <= 0xffff_ffff_ffff_ffff,
                            ;
                        }
                    }
                    *self = Stats {
                        total,
                        success: successes,
                        min_us: Some(min_us),
                        max_us: Some(max_us),
                        sum_us: self.sum_us + us as u128,
                        samples: self.samples + 1,
                    };
                },
            }
        }
    }

    /// Counts one probe outcome if the counter of probes has room, and says
    /// whether it did. Either way the successes do not exceed the probes.
    pub fn try_record(&mut self, success: bool, latency_us: Option<u64>) -> (counted: bool)
        ensures
            counted == (old(self)@.total < u64::MAX),
            counted ==> final(self)@ == old(self)@.record(success, lift(latency_us)),
            !counted ==> final(self)@ == old(self)@,
            final(self)@.wf(),
            final(self)@.success <= final(self)@.total,
    {
        if self.has_room() {
            self.record(success, latency_us);
            true
        } else {
            proof {
                use_type_invariant(&*self);
            }
            false
        }
    }

    /// Mean latency in microseconds, rounded down; `None` without samples.
    pub fn avg_us(&self) -> (avg: Option<u64>)
        ensures
            lift(avg) == self@.avg_us(),
            self@.wf(),
            avg is Some ==> self@.min_us->0 <= avg->0 <= self@.max_us->0,
    {
        proof {
            use_type_invariant(self);
        }
        if self.samples > 0 {
            proof {
                lemma_avg_between(self@);
            }
            Some((self.sum_us / self.samples as u128) as u64)
        } else {
            None
        }
    }

    /// Number of successful probes.
    pub fn success(&self) -> (n: u64)
        ensures
            n == self@.success,
    {
        self.success
    }

    /// Number of probes.
    pub fn total(&self) -> (n: u64)
        ensures
            n == self@.total,
    {
        self.total
    }

    /// Least sampled latency in microseconds.
    pub fn min_us(&self) -> (v: Option<u64>)
        ensures
            lift(v) == self@.min_us,
    {
        self.min_us
    }

    /// Greatest sampled latency in microseconds.
    pub fn max_us(&self) -> (v: Option<u64>)
        ensures
            lift(v) == self@.max_us,
    {
        self.max_us
    }

    /// Sum of the sampled latencies in microseconds.
    pub fn sum_us(&self) -> (v: u128)
        ensures
            v == self@.sum_us,
    {
        self.sum_us
    }

    /// Number of samples.
    pub fn samples(&self) -> (n: u64)
        ensures
            n == self@.samples,
    {
        self.samples
    }
}

impl Default for Stats {
    fn default() -> (stats: Stats)
        ensures
            stats@ == StatsModel::empty(),
    {
        Stats::new()
    }
}

} // verus!
