//! The render cycle: one table line per target, and the targets that went
//! unreachable since the cycle before.
//!
//! A target went unreachable in a cycle when, since the cycle before, its
//! number of probes grew and its number of successes did not. The counts of
//! the cycle before are the monitor's own; they start at zero and are
//! replaced by the counts seen in each cycle. A name that stands more than
//! once in the target list shares one record and one pair of counts: it can
//! be reported at its first place only.

use vstd::prelude::*;
use crate::accumulator::{record_in, Accumulator};
use crate::stats::StatsModel;
use crate::table::{format_row, header_line, header_text, row_text};
use crate::text::views_of;

verus! {

/// The counts of one target as the last render cycle saw them.
#[derive(Clone, Copy, Debug, PartialEq, Eq, Structural)]
pub struct PreviousSnapshot {
    pub prior_total: u64,
    pub prior_success: u64,
}

/// What one render cycle hands to the screen and the log.
#[derive(Debug)]
pub struct CycleReport {
    /// The header and one row per target, in the order of the target list.
    pub lines: Vec<String>,
    /// The targets that went unreachable, in the order of the target list.
    pub unreachable: Vec<String>,
}

/// By how much a count grew from `before` to `now`; zero if it did not grow.
pub open spec fn growth(now: nat, before: nat) -> nat {
    if now > before {
        (now - before) as nat
    } else {
        0
    }
}

/// Whether a target with `total` probes and `success` successes went
/// unreachable since `previous` was taken.
pub open spec fn went_unreachable(previous: PreviousSnapshot, total: nat, success: nat) -> bool {
    total > previous.prior_total && success <= previous.prior_success
}

/// The counts of `stats`, as a snapshot.
pub open spec fn snapshot_of(stats: StatsModel) -> PreviousSnapshot {
    PreviousSnapshot { prior_total: stats.total as u64, prior_success: stats.success as u64 }
}

/// Whether the name at place `i` of `targets` stands at an earlier place too.
pub open spec fn is_repeat(targets: Seq<Seq<char>>, i: int) -> bool {
    exists|j: int| 0 <= j < i && targets[j] == targets[i]
}

/// Whether the target at place `i` is reported unreachable in a cycle that
/// starts from the counts `previous` and sees the records `stats`.
pub open spec fn reported_at(
    targets: Seq<Seq<char>>,
    previous: Seq<PreviousSnapshot>,
    stats: Map<Seq<char>, StatsModel>,
    i: int,
) -> bool {
    &&& !is_repeat(targets, i)
    &&& went_unreachable(
        previous[i],
        record_in(stats, targets[i]).total,
        record_in(stats, targets[i]).success,
    )
}

/// The targets among the first `n` that are reported unreachable, in order.
pub open spec fn unreachable_among(
    targets: Seq<Seq<char>>,
    previous: Seq<PreviousSnapshot>,
    stats: Map<Seq<char>, StatsModel>,
    n: int,
) -> Seq<Seq<char>>
    decreases n,
{
    if n <= 0 {
        Seq::empty()
    } else {
        let before = unreachable_among(targets, previous, stats, n - 1);
        if reported_at(targets, previous, stats, n - 1) {
            before.push(targets[n - 1])
        } else {
            before
        }
    }
}

/// The header and the rows of `targets` with the records `stats`.
pub open spec fn table_lines(targets: Seq<Seq<char>>, stats: Map<Seq<char>, StatsModel>) -> Seq<
    Seq<char>,
> {
    Seq::new(
        targets.len() + 1,
        |i: int|
            if i == 0 {
                header_text()
            } else {
                row_text(targets[i - 1], record_in(stats, targets[i - 1]))
            },
    )
}

/// The counts of each of `targets` in `stats`.
pub open spec fn observed(targets: Seq<Seq<char>>, stats: Map<Seq<char>, StatsModel>) -> Seq<
    PreviousSnapshot,
> {
    Seq::new(targets.len(), |i: int| snapshot_of(record_in(stats, targets[i])))
}

/// The mathematical content of a [`Monitor`].
pub struct MonitorModel {
    /// The target names, in their fixed order.
    pub targets: Seq<Seq<char>>,
    /// For each place of the target list, the counts seen in the last cycle.
    pub previous: Seq<PreviousSnapshot>,
    /// The lines of the last cycle; empty before the first.
    pub last_display: Seq<Seq<char>>,
}

/// The state of the render loop.
pub struct Monitor {
    targets: Vec<String>,
    previous: Vec<PreviousSnapshot>,
    last_display: Vec<String>,
}

impl View for Monitor {
    type V = MonitorModel;

    closed spec fn view(&self) -> MonitorModel {
        MonitorModel {
            targets: views_of(self.targets@),
            previous: self.previous@,
            last_display: views_of(self.last_display@),
        }
    }
}

/// Decides whether a target went unreachable since `previous` was taken:
/// its probes grew and its successes did not. Counts that fell behind the
/// snapshot count as not grown.
pub fn became_unreachable(previous: PreviousSnapshot, total: u64, success: u64) -> (flag: bool)
    ensures
        flag == went_unreachable(previous, total as nat, success as nat),
        flag == (total > previous.prior_total && success <= previous.prior_success),
        flag == (growth(total as nat, previous.prior_total as nat) > 0 && growth(
            success as nat,
            previous.prior_success as nat,
        ) == 0),
{
    let total_diff: u64 = total.saturating_sub(previous.prior_total);
    let success_diff: u64 = success.saturating_sub(previous.prior_success);
    total_diff > 0 && success_diff == 0
}

/// Whether the name at place `i` stands at an earlier place too.
fn occurs_before(targets: &Vec<String>, i: usize) -> (repeat: bool)
    requires
        i < targets@.len(),
    ensures
        repeat == is_repeat(views_of(targets@), i as int),
{
    let mut j: usize = 0;
    while j < i
        invariant
            j <= i,
            i < targets@.len(),
            forall|k: int| 0 <= k < j ==> views_of(targets@)[k] != views_of(targets@)[i as int],
        decreases i - j,
    {
        if targets[j] == targets[i] {
            assert(views_of(targets@)[j as int] == views_of(targets@)[i as int]);
            return true;
        }
        j += 1;
    }
    false
}

/// A copy of `lines`.
fn copy_lines(lines: &Vec<String>) -> (copy: Vec<String>)
    ensures
        views_of(copy@) == views_of(lines@),
{
    let mut copy: Vec<String> = Vec::new();
    let mut i: usize = 0;
    while i < lines.len()
        invariant
            i <= lines@.len(),
            copy@.len() == i,
            forall|j: int| 0 <= j < i ==> copy@[j]@ == lines@[j]@,
        decreases lines@.len() - i,
    {
        copy.push(lines[i].clone());
        i += 1;
    }
    assert(views_of(copy@) =~= views_of(lines@));
    copy
}

impl Monitor {
    #[verifier::type_invariant]
    spec fn inv(self) -> bool {
        self.previous@.len() == self.targets@.len()
    }

    /// The monitor of `targets` before its first cycle: all counts zero,
    /// nothing displayed.
    pub fn new(targets: Vec<String>) -> (monitor: Monitor)
        ensures
            monitor@.targets == views_of(targets@),
            monitor@.previous == Seq::new(
                targets@.len(),
                |i: int| PreviousSnapshot { prior_total: 0, prior_success: 0 },
            ),
            monitor@.last_display == Seq::<Seq<char>>::empty(),
    {
        let mut previous: Vec<PreviousSnapshot> = Vec::new();
        let mut i: usize = 0;
        while i < targets.len()
            invariant
                i <= targets@.len(),
                previous@.len() == i,
                forall|j: int|
                    0 <= j < i ==> previous@[j] == (PreviousSnapshot {
                        prior_total: 0,
                        prior_success: 0,
                    }),
            decreases targets@.len() - i,
        {
            previous.push(PreviousSnapshot { prior_total: 0, prior_success: 0 });
            i += 1;
        }
        let monitor = Monitor { targets, previous, last_display: Vec::new() };
        assert(monitor@.previous =~= Seq::new(
            targets@.len(),
            |i: int| PreviousSnapshot { prior_total: 0, prior_success: 0 },
        ));
        assert(monitor@.last_display =~= Seq::<Seq<char>>::empty());
        monitor
    }

    /// The number of targets.
    pub fn target_count(&self) -> (n: usize)
        ensures
            n == self@.targets.len(),
    {
        self.targets.len()
    }

    /// A copy of the lines of the last cycle; empty before the first.
    pub fn last_display(&self) -> (lines: Vec<String>)
        ensures
            views_of(lines@) == self@.last_display,
    {
        copy_lines(&self.last_display)
    }

    /// Runs one render cycle over the records `acc`.
    ///
    /// The report holds the table and the targets that went unreachable
    /// since the last cycle. The counts seen now replace the remembered
    /// ones for every target, reported or not, and the table is kept as the
    /// last display.
    pub fn render_cycle(&mut self, acc: &Accumulator) -> (report: CycleReport)
        ensures
            final(self)@.targets == old(self)@.targets,
            final(self)@.previous == observed(old(self)@.targets, acc@),
            final(self)@.last_display == table_lines(old(self)@.targets, acc@),
            views_of(report.lines@) == table_lines(old(self)@.targets, acc@),
            views_of(report.unreachable@) == unreachable_among(
                old(self)@.targets,
                old(self)@.previous,
                acc@,
                old(self)@.targets.len() as int,
            ),
    {
        proof {
            use_type_invariant(&*self);
        }
        let ghost names = views_of(self.targets@);
        let ghost before = self.previous@;
        let n: usize = self.targets.len();
        let mut lines: Vec<String> = Vec::new();
        lines.push(header_line());
        let mut unreachable: Vec<String> = Vec::new();
        let mut fresh: Vec<PreviousSnapshot> = Vec::new();
        let mut i: usize = 0;
        assert(views_of(unreachable@) =~= unreachable_among(names, before, acc@, 0));
        while i < n
            invariant
                i <= n,
                n == self.targets@.len(),
                n == self.previous@.len(),
                names == views_of(self.targets@),
                before == self.previous@,
                lines@.len() == i + 1,
                lines@[0]@ == header_text(),
                forall|j: int|
                    0 <= j < i ==> (#[trigger] lines@[j + 1])@ == row_text(
                        names[j],
                        record_in(acc@, names[j]),
                    ),
                fresh@.len() == i,
                forall|j: int|
                    0 <= j < i ==> #[trigger] fresh@[j] == snapshot_of(record_in(acc@, names[j])),
                views_of(unreachable@) == unreachable_among(names, before, acc@, i as int),
            decreases n - i,
        {
            let stats = acc.get(self.targets[i].as_str());
            assert(names[i as int] == self.targets@[i as int]@);
            lines.push(format_row(self.targets[i].as_str(), &stats));
            let repeat: bool = occurs_before(&self.targets, i);
            let flag: bool = !repeat && became_unreachable(
                self.previous[i],
                stats.total(),
                stats.success(),
            );
            assert(flag == reported_at(names, before, acc@, i as int));
            if flag {
                let ghost listed = views_of(unreachable@);
                unreachable.push(self.targets[i].clone());
                assert(views_of(unreachable@) =~= listed.push(names[i as int]));
            }
            fresh.push(
                PreviousSnapshot { prior_total: stats.total(), prior_success: stats.success() },
            );
            i += 1;
        }
        let display = copy_lines(&lines);
        let mut taken = Monitor {
            targets: Vec::new(),
            previous: Vec::new(),
            last_display: Vec::new(),
        };
        core::mem::swap(self, &mut taken);
        let Monitor { targets, previous: _, last_display: _ } = taken;
        *self = Monitor { targets, previous: fresh, last_display: display };
        proof {
            assert(views_of(lines@) =~= table_lines(names, acc@)) by {
                assert forall|j: int| 0 <= j < lines@.len() implies views_of(lines@)[j]
                    == table_lines(names, acc@)[j] by {
                    if j > 0 {
                        assert(lines@[(j - 1) + 1]@ == row_text(
                            names[j - 1],
                            record_in(acc@, names[j - 1]),
                        ));
                    }
                }
            }
            assert(self@.previous =~= observed(names, acc@));
        }
        CycleReport { lines, unreachable }
    }
}

/// A target is reported exactly when its probes grew since the cycle before
/// and its successes did not, at the first place of its name.
pub proof fn lemma_reported_iff(
    targets: Seq<Seq<char>>,
    previous: Seq<PreviousSnapshot>,
    stats: Map<Seq<char>, StatsModel>,
    i: int,
)
    requires
        0 <= i < targets.len(),
        previous.len() == targets.len(),
    ensures
        unreachable_among(targets, previous, stats, targets.len() as int).contains(targets[i])
            <==> exists|j: int|
            0 <= j < targets.len() && targets[j] == targets[i] && #[trigger] reported_at(
                targets,
                previous,
                stats,
                j,
            ),
{
    lemma_unreachable_among(targets, previous, stats, targets.len() as int, targets[i]);
}

/// The names listed among the first `n` targets are those reported at a
/// place below `n`.
pub proof fn lemma_unreachable_among(
    targets: Seq<Seq<char>>,
    previous: Seq<PreviousSnapshot>,
    stats: Map<Seq<char>, StatsModel>,
    n: int,
    name: Seq<char>,
)
    requires
        0 <= n <= targets.len(),
    ensures
        unreachable_among(targets, previous, stats, n).contains(name) <==> exists|j: int|
            0 <= j < n && targets[j] == name && #[trigger] reported_at(
                targets,
                previous,
                stats,
                j,
            ),
    decreases n,
{
    if n > 0 {
        lemma_unreachable_among(targets, previous, stats, n - 1, name);
        let rest = unreachable_among(targets, previous, stats, n - 1);
        let all = unreachable_among(targets, previous, stats, n);
        if reported_at(targets, previous, stats, n - 1) {
            assert(all == rest.push(targets[n - 1]));
            if rest.contains(name) {
                let k = choose|k: int| 0 <= k < rest.len() && rest[k] == name;
                assert(all[k] == name);
            }
            if targets[n - 1] == name {
                assert(all[rest.len() as int] == name);
            }
            if all.contains(name) {
                let k = choose|k: int| 0 <= k < all.len() && all[k] == name;
                if k < rest.len() {
                    assert(rest[k] == name);
                }
            }
        }
    }
}

/// Across two cycles, a target that stands once in the list is reported in
/// the later one exactly when its probes grew between the two and its
/// successes did not.
pub proof fn lemma_reported_between_cycles(
    targets: Seq<Seq<char>>,
    earlier: Map<Seq<char>, StatsModel>,
    later: Map<Seq<char>, StatsModel>,
    i: int,
)
    requires
        0 <= i < targets.len(),
        !is_repeat(targets, i),
        record_in(earlier, targets[i]).total <= u64::MAX,
        record_in(earlier, targets[i]).success <= u64::MAX,
    ensures
        reported_at(targets, observed(targets, earlier), later, i) <==> {
            &&& record_in(later, targets[i]).total > record_in(earlier, targets[i]).total
            &&& record_in(later, targets[i]).success <= record_in(earlier, targets[i]).success
        },
{
}

/// A target whose probes did not grow, or whose successes grew, since the
/// cycle before is not reported.
pub proof fn lemma_not_reported(
    targets: Seq<Seq<char>>,
    previous: Seq<PreviousSnapshot>,
    stats: Map<Seq<char>, StatsModel>,
    i: int,
)
    requires
        0 <= i < targets.len(),
        previous.len() == targets.len(),
        record_in(stats, targets[i]).total <= previous[i].prior_total || record_in(
            stats,
            targets[i],
        ).success > previous[i].prior_success,
    ensures
        !reported_at(targets, previous, stats, i),
{
}

} // verus!
