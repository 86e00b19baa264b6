use vstd::prelude::*;

verus! {

/// Which part of a pomodoro the plugin is in.
#[derive(PartialEq, Eq, Structural, Debug, Clone, Copy)]
pub enum Phase {
    Work,
    Break,
    Finished,
}

impl Default for Phase {
    /// A fresh plugin starts in the work phase.
    fn default() -> (phase: Self)
        ensures
            phase == Phase::Work,
    {
        Phase::Work
    }
}

/// Milliseconds in one second: the unit of every `now` handed to a [`Countdown`].
pub const MILLIS_PER_SEC: u64 = 1000;

/// Whole seconds from `now` until `deadline` (both in milliseconds), rounded up,
/// zero once the deadline is reached, and capped at `usize::MAX`.
pub open spec fn seconds_left(deadline: int, now: int) -> int {
    if deadline <= now {
        0
    } else {
        let whole = (deadline - now + MILLIS_PER_SEC - 1) / MILLIS_PER_SEC as int;
        if whole > usize::MAX {
            usize::MAX as int
        } else {
            whole
        }
    }
}

/// A countdown anchored to a wall-clock deadline. Remaining time is
/// recomputed from `now` on every tick, so duplicate or missed timer
/// events cannot change the pace.
///
/// Times are milliseconds since the Unix epoch.
pub struct Countdown {
    pub seconds_remaining: usize,
    pub running: bool,
    /// The instant, in milliseconds, at which the countdown reaches zero.
    pub deadline: u128,
}

impl Countdown {
    /// The countdown after `begin(secs, now)`.
    pub open spec fn begun(self, secs: usize, now: u64) -> Countdown {
        Countdown {
            seconds_remaining: secs,
            running: true,
            deadline: (now + secs * MILLIS_PER_SEC) as u128,
        }
    }

    /// The countdown after `pause()`.
    pub open spec fn paused(self) -> Countdown {
        Countdown { running: false, ..self }
    }

    /// The countdown after `tick(now)`: a stopped one is left alone; a running
    /// one shows the seconds left until its deadline and stops at zero.
    pub open spec fn ticked(self, now: u64) -> Countdown {
        if !self.running {
            self
        } else {
            let left = seconds_left(self.deadline as int, now as int) as usize;
            Countdown { seconds_remaining: left, running: left != 0, deadline: self.deadline }
        }
    }

    /// Whether `tick(now)` reports that the countdown just reached zero.
    pub open spec fn fires(self, now: u64) -> bool {
        self.running && seconds_left(self.deadline as int, now as int) == 0
    }

    /// Starts counting `secs` seconds down from `now`.
    pub fn begin(&mut self, secs: usize, now: u64)
        ensures
            *final(self) == old(self).begun(secs, now),
    {
        self.seconds_remaining = secs;
        let unit = MILLIS_PER_SEC as u128;
        assert(unit == 1000);
        self.deadline = now as u128 + secs as u128 * unit;
        self.running = true;
    }

    /// Stops the countdown where it stands.
    pub fn pause(&mut self)
        ensures
            *final(self) == old(self).paused(),
    {
        self.running = false;
    }

    /// Recomputes the remaining seconds; returns true when the countdown
    /// just reached zero.
    pub fn tick(&mut self, now: u64) -> (fired: bool)
        ensures
            *final(self) == old(self).ticked(now),
            fired == old(self).fires(now),
    {
        if !self.running {
            return false;
        }
        let now = now as u128;
        let unit = MILLIS_PER_SEC as u128;
        let whole: u128 = if self.deadline <= now {
            0
        } else {
            let diff = self.deadline - now;
            let rounded_up: u128 = if diff % unit == 0 {
                0
            } else {
                1
            };
            diff / unit + rounded_up
        };
        self.seconds_remaining = if whole > usize::MAX as u128 {
            usize::MAX
        } else {
            whole as usize
        };
        if self.seconds_remaining == 0 {
            self.running = false;
            true
        } else {
            false
        }
    }
}

impl Default for Countdown {
    /// A stopped countdown with nothing left on it.
    fn default() -> (c: Self)
        ensures
            c == (Countdown { seconds_remaining: 0, running: false, deadline: 0 }),
    {
        Countdown { seconds_remaining: 0, running: false, deadline: 0 }
    }
}

/// A second tick at the same instant changes nothing and reports nothing:
/// a timer event delivered twice cannot speed the countdown up.
pub proof fn lemma_repeated_tick_changes_nothing(c: Countdown, now: u64)
    ensures
        c.ticked(now).ticked(now) == c.ticked(now),
        !c.ticked(now).fires(now),
{
}

/// What a tick at `t2` leaves does not depend on whether a tick at `t1` came
/// before it, unless that earlier tick ended the countdown: missed or extra
/// timer events do not change the pace.
pub proof fn lemma_intermediate_tick_is_invisible(c: Countdown, t1: u64, t2: u64)
    requires
        !c.fires(t1),
    ensures
        c.ticked(t1).ticked(t2) == c.ticked(t2),
        c.ticked(t1).fires(t2) == c.fires(t2),
{
}

/// A countdown reports reaching zero once: the tick that fires leaves it
/// stopped at zero, and every later tick leaves it as it is and reports nothing.
pub proof fn lemma_finishes_once(c: Countdown, t1: u64, t2: u64)
    requires
        c.fires(t1),
    ensures
        c.ticked(t1).seconds_remaining == 0,
        !c.ticked(t1).running,
        c.ticked(t1).ticked(t2) == c.ticked(t1),
        !c.ticked(t1).fires(t2),
{
}

/// After `begin(secs, t0)`, a tick at `t0 + e` shows the seconds not yet
/// fully elapsed, `secs - e / 1000` (so a tick less than a second early drops
/// no second), and it fires exactly when `e` has reached `secs` seconds, in
/// which case it shows zero however late it comes.
pub proof fn lemma_counts_real_seconds(c: Countdown, secs: usize, t0: u64, t: u64)
    requires
        t0 <= t,
    ensures
        c.begun(secs, t0).fires(t) == (t - t0 >= secs * MILLIS_PER_SEC),
        c.begun(secs, t0).ticked(t).seconds_remaining == if t - t0 >= secs * MILLIS_PER_SEC {
            0
        } else {
            secs - (t - t0) / MILLIS_PER_SEC as int
        },
{
    let e = t - t0;
    if e < secs * MILLIS_PER_SEC {
        let q = e / 1000;
        let r = e % 1000;
        assert(e == q * 1000 + r && 0 <= r < 1000) by (nonlinear_arith)
            requires
                q == e / 1000,
                r == e % 1000,
        ;
        let d = secs * 1000 - e + 999;
        assert(d == (secs - q) * 1000 + (999 - r));
        assert(d / 1000 == secs - q) by (nonlinear_arith)
            requires
                d == (secs - q) * 1000 + (999 - r),
                0 <= 999 - r < 1000,
        ;
    }
}

/// Pausing freezes the countdown: while paused, ticks change nothing and
/// report nothing.
pub proof fn lemma_pause_freezes(c: Countdown, now: u64)
    ensures
        c.paused().ticked(now) == c.paused(),
        c.paused().seconds_remaining == c.seconds_remaining,
        !c.paused().fires(now),
{
}

/// The remaining time never goes up as the clock moves forward.
pub proof fn lemma_later_tick_shows_no_more(c: Countdown, t1: u64, t2: u64)
    requires
        c.running,
        t1 <= t2,
    ensures
        c.ticked(t2).seconds_remaining <= c.ticked(t1).seconds_remaining,
{
    let d = c.deadline as int;
    if t2 < d {
        let x = d - t2 + 999;
        let y = d - t1 + 999;
        assert(x / 1000 <= y / 1000) by (nonlinear_arith)
            requires
                0 <= x <= y,
        ;
    }
}

/// Beginning shows the full length, runs, and sets the deadline that many
/// seconds after `now`; pausing stops the countdown without touching what it
/// shows or its deadline.
pub proof fn lemma_begin_and_pause(c: Countdown, secs: usize, now: u64)
    ensures
        c.begun(secs, now).seconds_remaining == secs,
        c.begun(secs, now).running,
        c.begun(secs, now).deadline == now + secs * 1000,
        !c.paused().running,
        c.paused().seconds_remaining == c.seconds_remaining,
        c.paused().deadline == c.deadline,
{
}

} // verus!
