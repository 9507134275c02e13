//! The pacer: one step per interval, never two within one.
use vstd::prelude::*;

verus! {

/// Interval between steps, in nanoseconds.
pub const SEQUENCE_INTERVAL_NANOS: u64 = 200_000_000;

/// How long each note sounds, in nanoseconds.
pub const NOTE_DURATION_NANOS: u64 = 250_000_000;

/// How long a trail marker stays visible, in nanoseconds.
pub const TRAIL_LIFETIME_NANOS: u64 = 10_000_000_000;

/// The two states of the pacer.
#[derive(Clone, Copy, Debug, PartialEq, Eq, Structural)]
pub enum MainState {
    /// The next tick takes a step.
    ReadyToAddNote,
    /// A step was taken; waiting for the interval to elapse.
    PlayingNote,
}

/// The interval timer that paces the steps: elapsed time accumulates while a
/// note plays, and the timer restarts from zero when the interval is reached,
/// so a long gap between ticks is not made up for with extra steps.
pub struct SequenceTimer {
    elapsed: u64,
    interval: u64,
}

/// A one-shot timer for how long a trail marker lives.
pub struct PointTimer {
    elapsed: u64,
    lifetime: u64,
}

/// The timer after a tick of `delta`: whether it reached the interval, and the
/// time it then holds.
pub open spec fn timer_next(elapsed: nat, interval: nat, delta: nat) -> (bool, nat) {
    if elapsed + delta >= interval {
        (true, 0)
    } else {
        (false, elapsed + delta)
    }
}

/// One tick of the pacer from `state` with the timer at `elapsed`: the next
/// state, the timer's time, whether a step is taken, and whether an interval
/// ended (the pacer went from `PlayingNote` back to `ReadyToAddNote`).
pub open spec fn pacer_next(state: MainState, elapsed: nat, interval: nat, delta: nat) -> (
    MainState,
    nat,
    bool,
    bool,
) {
    match state {
        MainState::ReadyToAddNote => (MainState::PlayingNote, elapsed, true, false),
        MainState::PlayingNote => {
            let (done, e) = timer_next(elapsed, interval, delta);
            if done {
                (MainState::ReadyToAddNote, e, false, true)
            } else {
                (MainState::PlayingNote, e, false, false)
            }
        },
    }
}

/// A run of the pacer over the tick durations `deltas`: the final state, the
/// timer's time, the number of steps taken and the number of intervals ended.
pub open spec fn pacer_run(state: MainState, elapsed: nat, interval: nat, deltas: Seq<nat>) -> (
    MainState,
    nat,
    nat,
    nat,
)
    decreases deltas.len(),
{
    if deltas.len() == 0 {
        (state, elapsed, 0, 0)
    } else {
        let (s1, e1, fired, ended) = pacer_next(state, elapsed, interval, deltas[0]);
        let (s, e, steps, intervals) = pacer_run(s1, e1, interval, deltas.drop_first());
        (
            s,
            e,
            steps + if fired {
                1nat
            } else {
                0nat
            },
            intervals + if ended {
                1nat
            } else {
                0nat
            },
        )
    }
}

pub open spec fn total(deltas: Seq<nat>) -> nat
    decreases deltas.len(),
{
    if deltas.len() == 0 {
        0
    } else {
        deltas[0] + total(deltas.drop_first())
    }
}

pub open spec fn is_ready(s: MainState) -> int {
    if s == MainState::ReadyToAddNote {
        1
    } else {
        0
    }
}

/// Steps and intervals alternate: over any run of ticks, the steps taken equal
/// the intervals ended, plus one if the run starts ready, minus one if it ends
/// ready.
pub proof fn lemma_steps_match_intervals(
    state: MainState,
    elapsed: nat,
    interval: nat,
    deltas: Seq<nat>,
)
    ensures
        ({
            let (s, _e, steps, intervals) = pacer_run(state, elapsed, interval, deltas);
            steps as int == intervals as int + is_ready(state) - is_ready(s)
        }),
    decreases deltas.len(),
{
    if deltas.len() > 0 {
        let (s1, e1, _f, _d) = pacer_next(state, elapsed, interval, deltas[0]);
        lemma_steps_match_intervals(s1, e1, interval, deltas.drop_first());
    }
}

/// No two steps without a full interval between them: while a note plays,
/// ticks that together stay below the rest of the interval take no step.
pub proof fn lemma_no_step_within_interval(
    elapsed: nat,
    interval: nat,
    deltas: Seq<nat>,
)
    requires
        elapsed + total(deltas) < interval,
    ensures
        pacer_run(MainState::PlayingNote, elapsed, interval, deltas) == (
            MainState::PlayingNote,
            elapsed + total(deltas),
            0nat,
            0nat,
        ),
    decreases deltas.len(),
{
    if deltas.len() > 0 {
        lemma_no_step_within_interval(elapsed + deltas[0], interval, deltas.drop_first());
    }
}

impl SequenceTimer {
    pub closed spec fn elapsed_spec(&self) -> nat {
        self.elapsed as nat
    }

    pub closed spec fn interval_spec(&self) -> nat {
        self.interval as nat
    }

    /// A positive interval, not yet reached.
    pub open spec fn wf(&self) -> bool {
        0 < self.interval_spec() && self.elapsed_spec() < self.interval_spec()
    }

    /// A timer with the given interval, at zero.
    pub fn new(interval: u64) -> (r: SequenceTimer)
        requires
            interval > 0,
        ensures
            r.wf(),
            r.elapsed_spec() == 0,
            r.interval_spec() == interval,
    {
        SequenceTimer { elapsed: 0, interval }
    }

    /// Time accumulated toward the interval, in nanoseconds.
    pub fn elapsed(&self) -> (r: u64)
        ensures
            r == self.elapsed_spec(),
    {
        self.elapsed
    }

    /// The interval, in nanoseconds.
    pub fn interval(&self) -> (r: u64)
        ensures
            r == self.interval_spec(),
    {
        self.interval
    }

    /// Adds `delta` nanoseconds; returns whether the interval was reached,
    /// in which case the timer restarts from zero.
    pub fn tick(&mut self, delta: u64) -> (r: bool)
        requires
            old(self).wf(),
        ensures
            final(self).wf(),
            final(self).interval_spec() == old(self).interval_spec(),
            (r, final(self).elapsed_spec()) == timer_next(
                old(self).elapsed_spec(),
                old(self).interval_spec(),
                delta as nat,
            ),
    {
        if delta >= self.interval - self.elapsed {
            self.elapsed = 0;
            true
        } else {
            self.elapsed = self.elapsed + delta;
            false
        }
    }
}

impl MainState {
    /// One tick of the pacer: returns whether a step is taken now. A ready pacer
    /// always takes one and starts waiting; a waiting pacer only advances its
    /// timer, and becomes ready when the interval is reached.
    pub fn advance(&mut self, timer: &mut SequenceTimer, delta: u64) -> (r: bool)
        requires
            old(timer).wf(),
        ensures
            final(timer).wf(),
            final(timer).interval_spec() == old(timer).interval_spec(),
            ({
                let (s, e, fired, _ended) = pacer_next(
                    *old(self),
                    old(timer).elapsed_spec(),
                    old(timer).interval_spec(),
                    delta as nat,
                );
                *final(self) == s && final(timer).elapsed_spec() == e && r == fired
            }),
    {
        match *self {
            MainState::ReadyToAddNote => {
                *self = MainState::PlayingNote;
                true
            },
            MainState::PlayingNote => {
                if timer.tick(delta) {
                    *self = MainState::ReadyToAddNote;
                }
                false
            },
        }
    }
}

impl PointTimer {
    pub closed spec fn elapsed_spec(&self) -> nat {
        self.elapsed as nat
    }

    pub closed spec fn lifetime_spec(&self) -> nat {
        self.lifetime as nat
    }

    /// A timer that expires after `lifetime` nanoseconds.
    pub fn new(lifetime: u64) -> (r: PointTimer)
        ensures
            r.elapsed_spec() == 0,
            r.lifetime_spec() == lifetime,
    {
        PointTimer { elapsed: 0, lifetime }
    }

    /// Adds `delta` nanoseconds (stopping at the lifetime); returns whether
    /// the lifetime has been reached.
    pub fn tick(&mut self, delta: u64) -> (r: bool)
        ensures
            final(self).lifetime_spec() == old(self).lifetime_spec(),
            final(self).elapsed_spec() as int == if old(self).elapsed_spec() + delta
                >= old(self).lifetime_spec() {
                old(self).lifetime_spec() as int
            } else {
                old(self).elapsed_spec() + delta
            },
            r == (old(self).elapsed_spec() + delta >= old(self).lifetime_spec()),
    {
        if self.elapsed >= self.lifetime || delta >= self.lifetime - self.elapsed {
            self.elapsed = self.lifetime;
            true
        } else {
            self.elapsed = self.elapsed + delta;
            false
        }
    }
}

} // verus!
