//! The shared two-second cadence.
//!
//! Monotonic time is a `u64` count of nanoseconds since an anchor that the
//! caller fixes once per process. A wall-clock reading is a [`WallClock`]:
//! whole seconds and nanoseconds since the Unix epoch, or by which the
//! reading precedes it.

use vstd::prelude::*;

verus! {

/// Nanoseconds in one second.
pub const NANOS_PER_SEC: u64 = 1_000_000_000;

/// Distance between two ticks of the cadence, in nanoseconds.
pub const INTERVAL_NANOS: u64 = 2_000_000_000;

/// One reading of the wall clock, relative to the Unix epoch.
#[derive(Clone, Copy, Debug, PartialEq, Eq, Structural)]
pub enum WallClock {
    /// At or after the epoch: whole seconds since it, and nanoseconds into
    /// the current second.
    SinceEpoch { secs: u64, subsec_nanos: u32 },
    /// Before the epoch: the whole seconds and the nanoseconds by which the
    /// reading precedes it.
    BeforeEpoch { secs: u64, subsec_nanos: u32 },
}

impl WallClock {
    /// Whether the nanoseconds stay below one second.
    pub open spec fn valid(self) -> bool {
        match self {
            WallClock::SinceEpoch { subsec_nanos, .. } => subsec_nanos < NANOS_PER_SEC,
            WallClock::BeforeEpoch { subsec_nanos, .. } => subsec_nanos < NANOS_PER_SEC,
        }
    }

    /// Nanoseconds from the epoch to the reading; negative before the epoch.
    pub open spec fn unix_nanos(self) -> int {
        match self {
            WallClock::SinceEpoch { secs, subsec_nanos } => secs * NANOS_PER_SEC + subsec_nanos,
            WallClock::BeforeEpoch { secs, subsec_nanos } => -(secs * NANOS_PER_SEC
                + subsec_nanos),
        }
    }

    /// Whole seconds from the epoch to the reading, rounded down; negative
    /// before the epoch.
    pub open spec fn unix_seconds(self) -> int {
        match self {
            WallClock::SinceEpoch { secs, .. } => secs as int,
            WallClock::BeforeEpoch { secs, subsec_nanos } => if subsec_nanos == 0 {
                -(secs as int)
            } else {
                -(secs as int) - 1
            },
        }
    }
}

/// Whole seconds from the start of second `secs` to the next even second
/// strictly after it.
pub open spec fn seconds_to_even(secs: nat) -> nat {
    if secs % 2 == 0 {
        2
    } else {
        1
    }
}

/// Nanoseconds from the reading `wall` to the boundary that the first tick
/// falls on.
///
/// At or after the epoch, that is the next even number of seconds since the
/// epoch, strictly after the reading. A reading before the epoch counts as
/// second zero: its boundary is two seconds past the epoch.
pub open spec fn delay_to_even_second(wall: WallClock) -> int {
    match wall {
        WallClock::SinceEpoch { secs, subsec_nanos } => seconds_to_even(secs as nat)
            * NANOS_PER_SEC - subsec_nanos,
        WallClock::BeforeEpoch { secs, subsec_nanos } => INTERVAL_NANOS + secs * NANOS_PER_SEC
            + subsec_nanos,
    }
}

/// Whether the first tick after the readings `now` and `wall` is an instant
/// that the monotonic clock can hold.
pub open spec fn first_tick_fits(now: u64, wall: WallClock) -> bool {
    wall.valid() && now + delay_to_even_second(wall) <= u64::MAX
}

/// Whether [`align_to_even_second`] may be called with these readings.
pub fn can_align(now: u64, wall: WallClock) -> (ok: bool)
    ensures
        ok == first_tick_fits(now, wall),
{
    match wall {
        WallClock::SinceEpoch { secs, subsec_nanos } => {
            if subsec_nanos as u64 >= NANOS_PER_SEC {
                false
            } else {
                let whole: u64 = if secs % 2 == 0 {
                    2
                } else {
                    1
                };
                let delay: u64 = whole * NANOS_PER_SEC - subsec_nanos as u64;
                now <= u64::MAX - delay
            }
        },
        WallClock::BeforeEpoch { secs, subsec_nanos } => {
            if subsec_nanos as u64 >= NANOS_PER_SEC {
                false
            } else {
                let span: u128 = secs as u128 * 1_000_000_000;
                let delay: u128 = INTERVAL_NANOS as u128 + span + subsec_nanos as u128;
                now as u128 + delay <= u64::MAX as u128
            }
        },
    }
}

/// The monotonic instant of the first tick, from the monotonic reading `now`
/// and the wall-clock reading `wall` taken together with it.
///
/// The tick falls on a wall-clock boundary at an even number of seconds
/// since the Unix epoch: the next one strictly after a reading at or after
/// the epoch, and two seconds past the epoch for a reading before it.
pub fn align_to_even_second(now: u64, wall: WallClock) -> (first_tick: u64)
    requires
        first_tick_fits(now, wall),
    ensures
        first_tick == now + delay_to_even_second(wall),
        now < first_tick,
        wall is SinceEpoch ==> first_tick <= now + INTERVAL_NANOS,
        (wall.unix_nanos() + (first_tick - now)) % (INTERVAL_NANOS as int) == 0,
{
    proof {
        lemma_aligned(wall);
    }
    let delay: u64 = match wall {
        WallClock::SinceEpoch { secs, subsec_nanos } => {
            let whole: u64 = if secs % 2 == 0 {
                2
            } else {
                1
            };
            whole * NANOS_PER_SEC - subsec_nanos as u64
        },
        WallClock::BeforeEpoch { secs, subsec_nanos } => {
            INTERVAL_NANOS + secs * NANOS_PER_SEC + subsec_nanos as u64
        },
    };
    now + delay
}

/// The boundary reached after `delay_to_even_second` is a multiple of two
/// seconds since the epoch, and lies after the reading: at most two seconds
/// after a reading at or after the epoch.
pub proof fn lemma_aligned(wall: WallClock)
    requires
        wall.valid(),
    ensures
        0 < delay_to_even_second(wall),
        wall is SinceEpoch ==> delay_to_even_second(wall) <= INTERVAL_NANOS,
        wall is BeforeEpoch ==> wall.unix_nanos() + delay_to_even_second(wall) == INTERVAL_NANOS,
        (wall.unix_nanos() + delay_to_even_second(wall)) % (INTERVAL_NANOS as int) == 0,
{
    match wall {
        WallClock::SinceEpoch { secs, subsec_nanos } => {
            let k = secs as int / 2;
            let reached = wall.unix_nanos() + delay_to_even_second(wall);
            if secs % 2 == 0 {
                assert(reached == (k + 1) * 2_000_000_000) by (nonlinear_arith)
                    requires
                        secs == 2 * k,
                        reached == secs * 1_000_000_000 + subsec_nanos + (2 * 1_000_000_000
                            - subsec_nanos),
                ;
            } else {
                assert(reached == (k + 1) * 2_000_000_000) by (nonlinear_arith)
                    requires
                        secs == 2 * k + 1,
                        reached == secs * 1_000_000_000 + subsec_nanos + (1_000_000_000
                            - subsec_nanos),
                ;
            }
            assert(((k + 1) * 2_000_000_000) % 2_000_000_000 == 0) by (nonlinear_arith);
        },
        WallClock::BeforeEpoch { secs, subsec_nanos } => {},
    }
}

/// The `k`-th tick of the cadence that starts at `first_tick`.
pub open spec fn tick(first_tick: u64, k: nat) -> int {
    first_tick + k * INTERVAL_NANOS
}

/// The end of a run of `run_for_secs` seconds that starts at `first_tick`;
/// `None` for a run without end.
pub fn deadline_after(first_tick: u64, run_for_secs: Option<u64>) -> (deadline: Option<u64>)
    requires
        run_for_secs is Some ==> first_tick + run_for_secs->0 * NANOS_PER_SEC <= u64::MAX,
    ensures
        run_for_secs is None ==> deadline is None,
        run_for_secs is Some ==> deadline == Some(
            (first_tick + run_for_secs->0 * NANOS_PER_SEC) as u64,
        ),
{
    match run_for_secs {
        Some(secs) => Some(first_tick + secs * NANOS_PER_SEC),
        None => None,
    }
}

/// What a loop does before its next tick.
#[derive(Clone, Copy, Debug, PartialEq, Eq, Structural)]
pub enum Wait {
    /// The deadline has passed: end the loop at once.
    Stop,
    /// Sleep `nanos` nanoseconds, which ends exactly at the deadline, and end the loop.
    SleepToDeadline { nanos: u64 },
    /// Sleep `nanos` nanoseconds, which ends exactly at the tick.
    SleepToTick { nanos: u64 },
    /// The tick is due or overdue: go on without sleeping.
    Due,
}

/// A loop's place on the cadence: its next scheduled tick and the deadline of the run.
#[derive(Clone, Copy, Debug, PartialEq, Eq, Structural)]
pub struct Cadence {
    pub next_tick: u64,
    pub deadline: Option<u64>,
}

impl Cadence {
    /// Whether the deadline has been reached at `now`.
    pub open spec fn expired_at(self, now: u64) -> bool {
        self.deadline is Some && now >= self.deadline->0
    }

    /// Whether the next tick lies at or past the deadline.
    pub open spec fn tick_beyond_deadline(self) -> bool {
        self.deadline is Some && self.next_tick >= self.deadline->0
    }

    /// The wait that is due at `now`.
    pub open spec fn plan_at(self, now: u64) -> Wait {
        if self.expired_at(now) {
            Wait::Stop
        } else if now < self.next_tick {
            if self.tick_beyond_deadline() {
                Wait::SleepToDeadline { nanos: (self.deadline->0 - now) as u64 }
            } else {
                Wait::SleepToTick { nanos: (self.next_tick - now) as u64 }
            }
        } else {
            Wait::Due
        }
    }

    /// Whether the next tick after `next_tick` is representable.
    pub open spec fn can_advance(self) -> bool {
        self.next_tick + INTERVAL_NANOS <= u64::MAX
    }

    /// Whether a turn at `now` can be taken: a turn that does not end the
    /// loop moves to the following tick, which must be representable.
    pub open spec fn can_pace(self, now: u64) -> bool {
        self.plan_at(now) is SleepToTick || self.plan_at(now) is Due ==> self.can_advance()
    }

    /// The cadence one tick later.
    pub open spec fn advanced(self) -> Cadence {
        Cadence { next_tick: (self.next_tick + INTERVAL_NANOS) as u64, ..self }
    }

    /// The cadence whose next tick is `first_tick`.
    pub fn new(first_tick: u64, deadline: Option<u64>) -> (cadence: Cadence)
        ensures
            cadence == (Cadence { next_tick: first_tick, deadline }),
    {
        Cadence { next_tick: first_tick, deadline }
    }

    /// Decides the wait before the next tick from the clock reading `now`.
    pub fn plan(&self, now: u64) -> (wait: Wait)
        ensures
            wait == self.plan_at(now),
    {
        let expired: bool = match self.deadline {
            Some(end) => now >= end,
            None => false,
        };
        if expired {
            Wait::Stop
        } else if now < self.next_tick {
            match self.deadline {
                Some(end) => if self.next_tick >= end {
                    Wait::SleepToDeadline { nanos: end - now }
                } else {
                    Wait::SleepToTick { nanos: self.next_tick - now }
                },
                None => Wait::SleepToTick { nanos: self.next_tick - now },
            }
        } else {
            Wait::Due
        }
    }

    /// Whether [`Cadence::advance`] may be called.
    pub fn has_next(&self) -> (ok: bool)
        ensures
            ok == self.can_advance(),
    {
        self.next_tick <= u64::MAX - INTERVAL_NANOS
    }

    /// Moves to the following tick: one interval after the scheduled one,
    /// whatever the clock reads.
    pub fn advance(&mut self)
        requires
            old(self).can_advance(),
        ensures
            *final(self) == old(self).advanced(),
    {
        self.next_tick = self.next_tick + INTERVAL_NANOS;
    }

    /// Whether [`Cadence::pace`] may be called at `now`.
    pub fn paces(&self, now: u64) -> (ok: bool)
        ensures
            ok == self.can_pace(now),
    {
        match self.plan(now) {
            Wait::SleepToTick { .. } | Wait::Due => self.has_next(),
            _ => true,
        }
    }

    /// One turn of a loop that works first and waits after: decides the wait
    /// at `now` and, unless the loop ends, moves to the following tick.
    pub fn pace(&mut self, now: u64) -> (wait: Wait)
        requires
            old(self).can_pace(now),
        ensures
            wait == old(self).plan_at(now),
            wait is SleepToTick || wait is Due ==> *final(self) == old(self).advanced(),
            wait is Stop || wait is SleepToDeadline ==> *final(self) == *old(self),
    {
        let wait = self.plan(now);
        match wait {
            Wait::SleepToTick { .. } | Wait::Due => {
                self.advance();
            },
            _ => {},
        }
        wait
    }
}

/// No wait crosses the deadline: a sleep to the tick ends at the tick and
/// before the deadline, a sleep to the deadline ends exactly there, and a
/// loop goes on without sleeping only before the deadline.
pub proof fn lemma_wait_within_deadline(cadence: Cadence, now: u64)
    ensures
        match cadence.plan_at(now) {
            Wait::Stop => cadence.expired_at(now),
            Wait::SleepToDeadline { nanos } => {
                &&& now + nanos == cadence.deadline->0
                &&& now < cadence.deadline->0 <= cadence.next_tick
            },
            Wait::SleepToTick { nanos } => {
                &&& now + nanos == cadence.next_tick
                &&& nanos > 0
                &&& cadence.deadline is Some ==> cadence.next_tick < cadence.deadline->0
            },
            Wait::Due => now >= cadence.next_tick && !cadence.expired_at(now),
        },
{
}

/// Ticks do not drift: `k` steps from the tick `first_tick` lead to
/// `first_tick + k * INTERVAL_NANOS`, whatever the clock read on the way.
pub open spec fn advanced_by(cadence: Cadence, k: nat) -> Cadence
    decreases k,
{
    if k == 0 {
        cadence
    } else {
        advanced_by(cadence, (k - 1) as nat).advanced()
    }
}

pub proof fn lemma_ticks_do_not_drift(cadence: Cadence, k: nat)
    requires
        tick(cadence.next_tick, k) <= u64::MAX,
    ensures
        advanced_by(cadence, k).next_tick == tick(cadence.next_tick, k),
        advanced_by(cadence, k).deadline == cadence.deadline,
    decreases k,
{
    if k > 0 {
        assert((k - 1) * INTERVAL_NANOS + INTERVAL_NANOS == k * INTERVAL_NANOS)
            by (nonlinear_arith);
        lemma_ticks_do_not_drift(cadence, (k - 1) as nat);
    }
}

/// The states of a probing worker.
#[derive(Clone, Copy, Debug, PartialEq, Eq, Structural)]
pub enum WorkerState {
    /// Waiting for the next tick; the worker wants a clock reading.
    WaitForTick,
    /// A probe is to be made.
    Probe,
    /// The probe's result is to be handed to the statistics.
    Record,
    /// The worker has ended.
    Stopped,
}

/// What happened since the worker's last action.
#[derive(Clone, Copy, Debug, PartialEq, Eq, Structural)]
pub enum WorkerEvent {
    /// The monotonic clock reads `now`.
    Clock { now: u64 },
    /// The probe has returned.
    Probed,
    /// The result was handed over; `accepted` is false when the receiving
    /// side is closed.
    Recorded { accepted: bool },
}

/// What the worker is to do next.
#[derive(Clone, Copy, Debug, PartialEq, Eq, Structural)]
pub enum WorkerAction {
    /// Read the clock and report it.
    ReadClock,
    /// Sleep `nanos` nanoseconds, read the clock and report it.
    Sleep { nanos: u64 },
    /// Sleep `nanos` nanoseconds and end.
    SleepAndStop { nanos: u64 },
    /// Probe the target and report that the probe returned.
    Probe,
    /// Hand the result over and report whether it was accepted.
    Record,
    /// End.
    Stop,
}

/// One target's probing worker: where it stands in its cycle, and on the cadence.
#[derive(Clone, Copy, Debug, PartialEq, Eq, Structural)]
pub struct Worker {
    pub state: WorkerState,
    pub cadence: Cadence,
}

/// The action that a worker in `state` is waiting to have carried out.
pub open spec fn awaited(state: WorkerState) -> WorkerAction {
    match state {
        WorkerState::WaitForTick => WorkerAction::ReadClock,
        WorkerState::Probe => WorkerAction::Probe,
        WorkerState::Record => WorkerAction::Record,
        WorkerState::Stopped => WorkerAction::Stop,
    }
}

impl Worker {
    /// Whether `event` is the one that the worker's state waits for.
    pub open spec fn expects(self, event: WorkerEvent) -> bool {
        match self.state {
            WorkerState::WaitForTick => event is Clock,
            WorkerState::Probe => event is Probed,
            WorkerState::Record => event is Recorded,
            WorkerState::Stopped => false,
        }
    }

    /// The worker after `event`.
    pub open spec fn next(self, event: WorkerEvent) -> Worker {
        if !self.expects(event) {
            self
        } else {
            match event {
                WorkerEvent::Clock { now } => match self.cadence.plan_at(now) {
                    Wait::Stop | Wait::SleepToDeadline { .. } => Worker {
                        state: WorkerState::Stopped,
                        ..self
                    },
                    Wait::SleepToTick { .. } => self,
                    Wait::Due => Worker { state: WorkerState::Probe, ..self },
                },
                WorkerEvent::Probed => Worker { state: WorkerState::Record, ..self },
                WorkerEvent::Recorded { accepted } => if accepted {
                    Worker { state: WorkerState::WaitForTick, cadence: self.cadence.advanced() }
                } else {
                    Worker { state: WorkerState::Stopped, ..self }
                },
            }
        }
    }

    /// The action that `event` calls for. An event out of turn changes
    /// nothing and calls again for what the state waits for.
    pub open spec fn action(self, event: WorkerEvent) -> WorkerAction {
        if !self.expects(event) {
            awaited(self.state)
        } else {
            match event {
                WorkerEvent::Clock { now } => match self.cadence.plan_at(now) {
                    Wait::Stop => WorkerAction::Stop,
                    Wait::SleepToDeadline { nanos } => WorkerAction::SleepAndStop { nanos },
                    Wait::SleepToTick { nanos } => WorkerAction::Sleep { nanos },
                    Wait::Due => WorkerAction::Probe,
                },
                WorkerEvent::Probed => WorkerAction::Record,
                WorkerEvent::Recorded { accepted } => if accepted {
                    WorkerAction::ReadClock
                } else {
                    WorkerAction::Stop
                },
            }
        }
    }

    /// Whether `event` can be taken: an accepted result moves to the
    /// following tick, which must be representable.
    pub open spec fn can_step(self, event: WorkerEvent) -> bool {
        self.state is Record && event == (WorkerEvent::Recorded { accepted: true })
            ==> self.cadence.can_advance()
    }

    /// A worker that waits for `first_tick`.
    pub fn new(first_tick: u64, deadline: Option<u64>) -> (worker: Worker)
        ensures
            worker == (Worker {
                state: WorkerState::WaitForTick,
                cadence: Cadence { next_tick: first_tick, deadline },
            }),
    {
        Worker { state: WorkerState::WaitForTick, cadence: Cadence::new(first_tick, deadline) }
    }

    /// Whether [`Worker::step`] may be called with `event`.
    pub fn accepts(&self, event: WorkerEvent) -> (ok: bool)
        ensures
            ok == self.can_step(event),
    {
        match (self.state, event) {
            (WorkerState::Record, WorkerEvent::Recorded { accepted }) => !accepted
                || self.cadence.has_next(),
            _ => true,
        }
    }

    /// Takes `event` and says what to do next.
    pub fn step(&mut self, event: WorkerEvent) -> (action: WorkerAction)
        requires
            old(self).can_step(event),
        ensures
            *final(self) == old(self).next(event),
            action == old(self).action(event),
    {
        match (self.state, event) {
            (WorkerState::WaitForTick, WorkerEvent::Clock { now }) => {
                match self.cadence.plan(now) {
                    Wait::Stop => {
                        self.state = WorkerState::Stopped;
                        WorkerAction::Stop
                    },
                    Wait::SleepToDeadline { nanos } => {
                        self.state = WorkerState::Stopped;
                        WorkerAction::SleepAndStop { nanos }
                    },
                    Wait::SleepToTick { nanos } => WorkerAction::Sleep { nanos },
                    Wait::Due => {
                        self.state = WorkerState::Probe;
                        WorkerAction::Probe
                    },
                }
            },
            (WorkerState::Probe, WorkerEvent::Probed) => {
                self.state = WorkerState::Record;
                WorkerAction::Record
            },
            (WorkerState::Record, WorkerEvent::Recorded { accepted }) => {
                if accepted {
                    self.cadence.advance();
                    self.state = WorkerState::WaitForTick;
                    WorkerAction::ReadClock
                } else {
                    self.state = WorkerState::Stopped;
                    WorkerAction::Stop
                }
            },
            (WorkerState::WaitForTick, _) => WorkerAction::ReadClock,
            (WorkerState::Probe, _) => WorkerAction::Probe,
            (WorkerState::Record, _) => WorkerAction::Record,
            (WorkerState::Stopped, _) => WorkerAction::Stop,
        }
    }
}

/// A stopped worker stays stopped, whatever is reported to it.
pub proof fn lemma_stopped_is_final(worker: Worker, event: WorkerEvent)
    requires
        worker.state is Stopped,
    ensures
        worker.next(event) == worker,
        worker.action(event) == WorkerAction::Stop,
{
}

/// A worker probes only on a due tick and before the deadline, and its
/// schedule moves only by one interval, after a result was accepted.
pub proof fn lemma_worker_keeps_cadence(worker: Worker, event: WorkerEvent)
    ensures
        worker.action(event) is Probe && worker.state is WaitForTick ==> {
            &&& event is Clock
            &&& event->now >= worker.cadence.next_tick
            &&& !worker.cadence.expired_at(event->now)
        },
        worker.next(event).cadence == worker.cadence || (worker.state is Record && event
            == (WorkerEvent::Recorded { accepted: true }) && worker.next(event).cadence
            == worker.cadence.advanced()),
        worker.next(event).cadence.deadline == worker.cadence.deadline,
{
}

} // verus!
