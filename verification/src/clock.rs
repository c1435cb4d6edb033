//! The simulated clock and the cadence at which stars are emitted.
//!
//! The clock counts simulated time only: it moves by one fixed tick whenever
//! it is told to, however long the host took to ask.
use vstd::prelude::*;
use crate::units::{STAR_DELAY_NANOS, TICKS_PER_STAR, TICK_NANOS};

verus! {

/// The simulated clock: the time since the start and the time at which the
/// last star was emitted, both in nanoseconds.
#[derive(Clone, Copy, Debug)]
pub struct Clock {
    now: u64,
    last_star: u64,
}

/// What a clock stands for.
pub struct ClockModel {
    /// Simulated time since the start, in nanoseconds.
    pub now: nat,
    /// Simulated time at which the last star was emitted.
    pub last_star: nat,
}

impl ClockModel {
    /// No star was emitted in the future.
    pub open spec fn wf(self) -> bool {
        self.last_star <= self.now
    }

    /// The clock at the start of the simulation.
    pub open spec fn start() -> ClockModel {
        ClockModel { now: 0, last_star: 0 }
    }

    /// Whether the next tick emits a star: at its end the delay has passed
    /// since the last one.
    pub open spec fn star_due(self) -> bool {
        self.now + TICK_NANOS - self.last_star >= STAR_DELAY_NANOS
    }

    /// The clock one tick later.
    pub open spec fn ticked(self) -> ClockModel {
        let now = self.now + TICK_NANOS as nat;
        ClockModel {
            now,
            last_star: if self.star_due() {
                now
            } else {
                self.last_star
            },
        }
    }

    /// The clock `k` ticks later.
    pub open spec fn after(self, k: nat) -> ClockModel
        decreases k,
    {
        if k == 0 {
            self
        } else {
            self.after((k - 1) as nat).ticked()
        }
    }

    /// The number of stars emitted by the next `k` ticks.
    pub open spec fn stars_within(self, k: nat) -> nat
        decreases k,
    {
        if k == 0 {
            0
        } else {
            let earlier = self.stars_within((k - 1) as nat);
            if self.after((k - 1) as nat).star_due() {
                earlier + 1
            } else {
                earlier
            }
        }
    }
}

impl View for Clock {
    type V = ClockModel;

    closed spec fn view(&self) -> ClockModel {
        ClockModel { now: self.now as nat, last_star: self.last_star as nat }
    }
}

impl Clock {
    /// A clock at the start of the simulation.
    pub fn new() -> (c: Clock)
        ensures
            c@ == ClockModel::start(),
            c@.wf(),
    {
        Clock { now: 0, last_star: 0 }
    }

    /// Simulated time since the start, in nanoseconds.
    pub fn now(&self) -> (t: u64)
        ensures
            t == self@.now,
    {
        self.now
    }

    /// Simulated time at which the last star was emitted, in nanoseconds.
    pub fn last_star(&self) -> (t: u64)
        ensures
            t == self@.last_star,
    {
        self.last_star
    }

    /// Whether the clock can take one more tick without leaving the range of
    /// its counter.
    pub fn can_tick(&self) -> (ok: bool)
        ensures
            ok == (self@.now + TICK_NANOS <= u64::MAX),
    {
        self.now <= u64::MAX - TICK_NANOS
    }

    /// Moves the clock by one tick and says whether a star is to be emitted
    /// at the new time.
    pub fn tick(&mut self) -> (due: bool)
        requires
            old(self)@.wf(),
            old(self)@.now + TICK_NANOS <= u64::MAX,
        ensures
            final(self)@ == old(self)@.ticked(),
            due == old(self)@.star_due(),
            final(self)@.wf(),
    {
        self.now = self.now + TICK_NANOS;
        let due: bool = self.now - self.last_star >= STAR_DELAY_NANOS;
        if due {
            self.last_star = self.now;
        }
        due
    }
}

/// A clock stays well formed however long it runs.
pub proof fn lemma_clock_stays_wf(c: ClockModel, k: nat)
    requires
        c.wf(),
    ensures
        c.after(k).wf(),
    decreases k,
{
    if k > 0 {
        lemma_clock_stays_wf(c, (k - 1) as nat);
    }
}

/// Simulated time is exact: `k` ticks add `k` tick durations to the clock,
/// neither more nor less.
pub proof fn lemma_time_after_ticks(c: ClockModel, k: nat)
    ensures
        c.after(k).now == c.now + k * TICK_NANOS,
        ClockModel::start().after(k).now == k * TICK_NANOS,
    decreases k,
{
    if k > 0 {
        lemma_time_after_ticks(c, (k - 1) as nat);
        lemma_time_after_ticks(ClockModel::start(), (k - 1) as nat);
    }
}

/// From the start, one star is emitted at every seventh tick: after `k`
/// ticks there have been `k / 7` of them, the last at the latest multiple of
/// seven ticks.
pub proof fn lemma_stars_after_ticks(k: nat)
    ensures
        ClockModel::start().stars_within(k) == k / (TICKS_PER_STAR as nat),
        ClockModel::start().after(k).now == k * TICK_NANOS,
        ClockModel::start().after(k).last_star == (k - k % (TICKS_PER_STAR as nat)) * TICK_NANOS,
    decreases k,
{
    if k > 0 {
        lemma_stars_after_ticks((k - 1) as nat);
    }
}

/// While the ticks that the cadence rounds up have not yet added up to a
/// whole delay, the number of stars emitted by simulated time `T` is
/// `T / delay`, rounded down.
pub proof fn lemma_stars_per_delay(k: nat)
    requires
        k * TICK_NANOS < (k / (TICKS_PER_STAR as nat) + 1) * STAR_DELAY_NANOS,
    ensures
        ClockModel::start().stars_within(k) == (ClockModel::start().after(k).now
            / (STAR_DELAY_NANOS as nat)),
{
    lemma_stars_after_ticks(k);
}

/// Once the ticks that the cadence rounds up have added up to a whole
/// delay, fewer stars have been emitted by simulated time `T` than
/// `T / delay`.
pub proof fn lemma_stars_behind_delay(k: nat)
    requires
        k * TICK_NANOS >= (k / (TICKS_PER_STAR as nat) + 1) * STAR_DELAY_NANOS,
    ensures
        ClockModel::start().stars_within(k) < (ClockModel::start().after(k).now
            / (STAR_DELAY_NANOS as nat)),
{
    lemma_stars_after_ticks(k);
}

/// The number of stars emitted never runs ahead of simulated time: it is at
/// most `T / delay`.
pub proof fn lemma_stars_at_most_per_delay(k: nat)
    ensures
        ClockModel::start().stars_within(k) <= (ClockModel::start().after(k).now
            / (STAR_DELAY_NANOS as nat)),
{
    lemma_stars_after_ticks(k);
}

} // verus!
