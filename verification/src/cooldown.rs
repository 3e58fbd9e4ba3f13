//! Countdown timers. A `Cooldown` holds a `bevy::time::Timer` that counts once
//! to its duration and is never paused; everything the simulation knows of a
//! timer is its view.

use bevy::time::Timer;
use bevy::time::TimerMode;
use std::time::Duration;
use vstd::prelude::*;

verus! {

/// `bevy::time::Timer`, carried as an opaque value.
#[verifier::external_type_specification]
#[verifier::external_body]
pub struct ExTimer(Timer);

/// The whole nanoseconds of `Timer::elapsed`.
pub uninterp spec fn timer_elapsed_nanos(t: Timer) -> nat;

/// The whole nanoseconds of `Timer::duration`.
pub uninterp spec fn timer_duration_nanos(t: Timer) -> nat;

/// What `Timer::finished` returns.
pub uninterp spec fn timer_finished(t: Timer) -> bool;

/// What `Timer::paused` returns.
pub uninterp spec fn timer_paused(t: Timer) -> bool;

/// Whether `Timer::mode` returns `TimerMode::Repeating`.
pub uninterp spec fn timer_repeating(t: Timer) -> bool;

/// The nanoseconds in a millisecond.
pub const NANOS_PER_MILLI: u64 = 1_000_000;

/// Calls `Timer::new` with `Duration::from_millis(millis)` and
/// `TimerMode::Once`. The new timer has run for no time, has the given
/// duration, and is neither finished, paused nor repeating.
#[verifier::external_body]
fn timer_new(millis: u64) -> (t: Timer)
    ensures
        timer_elapsed_nanos(t) == 0,
        timer_duration_nanos(t) == millis * NANOS_PER_MILLI,
        !timer_finished(t),
        !timer_paused(t),
        !timer_repeating(t),
{
    Timer::new(Duration::from_millis(millis), TimerMode::Once)
}

/// Calls `Timer::tick` with `Duration::from_millis(millis)` on a timer that
/// counts once and is not paused. A finished timer keeps its time. One that
/// is not finished adds the time, finishes if that reaches its duration, and
/// then stands at exactly its duration. `Timer::tick` adds with the `+=` of
/// `Duration`, which panics past `Duration::MAX`: the sum must stay below
/// `u64::MAX` seconds.
#[verifier::external_body]
fn timer_tick(t: &mut Timer, millis: u64)
    requires
        !timer_paused(*old(t)),
        !timer_repeating(*old(t)),
        timer_elapsed_nanos(*old(t)) + millis * NANOS_PER_MILLI <= u64::MAX * 1_000_000_000,
    ensures
        timer_duration_nanos(*final(t)) == timer_duration_nanos(*old(t)),
        !timer_paused(*final(t)),
        !timer_repeating(*final(t)),
        timer_finished(*final(t)) == (timer_finished(*old(t)) || timer_elapsed_nanos(*old(t))
            + millis * NANOS_PER_MILLI >= timer_duration_nanos(*old(t))),
        timer_elapsed_nanos(*final(t)) == (if timer_finished(*old(t)) {
            timer_elapsed_nanos(*old(t))
        } else if timer_elapsed_nanos(*old(t)) + millis * NANOS_PER_MILLI >= timer_duration_nanos(
            *old(t),
        ) {
            timer_duration_nanos(*old(t))
        } else {
            (timer_elapsed_nanos(*old(t)) + millis * NANOS_PER_MILLI) as nat
        }),
    no_unwind
{
    t.tick(Duration::from_millis(millis));
}

/// Calls `Timer::reset`, which sets the elapsed time to zero and clears
/// `finished`; duration, mode and pause are left as they were.
#[verifier::external_body]
fn timer_reset(t: &mut Timer)
    ensures
        timer_elapsed_nanos(*final(t)) == 0,
        !timer_finished(*final(t)),
        timer_duration_nanos(*final(t)) == timer_duration_nanos(*old(t)),
        timer_paused(*final(t)) == timer_paused(*old(t)),
        timer_repeating(*final(t)) == timer_repeating(*old(t)),
    no_unwind
{
    t.reset();
}

/// Calls `Timer::finished`.
#[verifier::external_body]
fn timer_is_finished(t: &Timer) -> (r: bool)
    ensures
        r == timer_finished(*t),
{
    t.finished()
}

/// Calls `Timer::elapsed` and returns its whole nanoseconds.
#[verifier::external_body]
fn timer_elapsed(t: &Timer) -> (r: u128)
    ensures
        r == timer_elapsed_nanos(*t),
{
    t.elapsed().as_nanos()
}

/// Calls `Timer::duration` and returns its whole nanoseconds.
#[verifier::external_body]
fn timer_duration(t: &Timer) -> (r: u128)
    ensures
        r == timer_duration_nanos(*t),
{
    t.duration().as_nanos()
}

/// What the simulation knows of a countdown: the time it has run and the
/// time it runs for, both in nanoseconds, and whether it has finished.
pub struct CooldownView {
    pub elapsed: nat,
    pub duration: nat,
    pub finished: bool,
}

impl CooldownView {
    /// A countdown of `millis` milliseconds that has not started.
    pub open spec fn fresh(millis: nat) -> CooldownView {
        CooldownView { elapsed: 0, duration: (millis * NANOS_PER_MILLI) as nat, finished: false }
    }

    /// A countdown of `millis` milliseconds that has already finished.
    pub open spec fn ready(millis: nat) -> CooldownView {
        CooldownView {
            elapsed: (millis * NANOS_PER_MILLI) as nat,
            duration: (millis * NANOS_PER_MILLI) as nat,
            finished: true,
        }
    }

    /// The countdown after `dt_ms` more milliseconds. A finished countdown
    /// stays as it is; one that reaches its duration finishes and stops
    /// there.
    pub open spec fn ticked(self, dt_ms: nat) -> CooldownView {
        if self.finished {
            self
        } else if self.elapsed + dt_ms * NANOS_PER_MILLI >= self.duration {
            CooldownView { elapsed: self.duration, duration: self.duration, finished: true }
        } else {
            CooldownView {
                elapsed: (self.elapsed + dt_ms * NANOS_PER_MILLI) as nat,
                duration: self.duration,
                finished: false,
            }
        }
    }

    /// The countdown started over.
    pub open spec fn restarted(self) -> CooldownView {
        CooldownView { elapsed: 0, duration: self.duration, finished: false }
    }

    /// What holds of the view of every countdown: it has not run past its
    /// duration, and once finished it stands at its duration.
    pub open spec fn wf(self) -> bool {
        self.elapsed <= self.duration && (self.finished ==> self.elapsed == self.duration)
    }

    /// The part of the countdown that has run, in thousandths; a countdown
    /// of no duration has run in full.
    pub open spec fn permille(self) -> nat {
        if self.duration == 0 {
            1000
        } else {
            (self.elapsed * 1000 / self.duration) as nat
        }
    }

}

/// A countdown that runs on stays as every countdown is, and the time it has
/// run is the smaller of its duration and the time it had run plus the time
/// that passed, unless it had finished before. Started over, it has run for
/// no time.
pub proof fn lemma_cooldown_runs_to_its_duration(v: CooldownView, dt_ms: nat)
    requires
        v.wf(),
    ensures
        v.ticked(dt_ms).wf(),
        v.restarted().wf(),
        v.ticked(dt_ms).duration == v.duration,
        v.ticked(dt_ms).elapsed == (if v.elapsed + dt_ms * NANOS_PER_MILLI <= v.duration {
            (v.elapsed + dt_ms * NANOS_PER_MILLI) as nat
        } else {
            v.duration
        }),
        v.ticked(dt_ms).finished == (v.finished || v.elapsed + dt_ms * NANOS_PER_MILLI
            >= v.duration),
{
    assert(dt_ms * NANOS_PER_MILLI >= 0) by (nonlinear_arith)
        requires
            NANOS_PER_MILLI == 1_000_000,
    ;
}

/// A countdown that counts once to its duration.
pub struct Cooldown {
    timer: Timer,
}

impl View for Cooldown {
    type V = CooldownView;

    closed spec fn view(&self) -> CooldownView {
        CooldownView {
            elapsed: timer_elapsed_nanos(self.timer),
            duration: timer_duration_nanos(self.timer),
            finished: timer_finished(self.timer),
        }
    }
}

impl Cooldown {
    /// The timer counts once, is not paused, has not run past its
    /// duration, stands at its duration once finished, and its duration is
    /// no longer than the longest that `from_millis` can give.
    #[verifier::type_invariant]
    spec fn well_formed(self) -> bool {
        &&& !timer_paused(self.timer)
        &&& !timer_repeating(self.timer)
        &&& timer_elapsed_nanos(self.timer) <= timer_duration_nanos(self.timer)
        &&& timer_duration_nanos(self.timer) <= u64::MAX * NANOS_PER_MILLI
        &&& timer_finished(self.timer) ==> timer_elapsed_nanos(self.timer) == timer_duration_nanos(
            self.timer,
        )
    }

    /// States what holds of every countdown; does nothing when run.
    pub fn well_formed_view(&self)
        ensures
            self@.wf(),
    {
        proof {
            use_type_invariant(self);
        }
    }

    /// A countdown of `millis` milliseconds that has not started.
    pub fn from_millis(millis: u64) -> (c: Cooldown)
        ensures
            c@ == CooldownView::fresh(millis as nat),
            c@.wf(),
    {
        Cooldown { timer: timer_new(millis) }
    }

    /// A countdown of `millis` milliseconds that has already finished, as
    /// the countdown between the shots of a unit that may fire at once.
    pub fn ready(millis: u64) -> (c: Cooldown)
        ensures
            c@ == CooldownView::ready(millis as nat),
            c@.wf(),
    {
        let mut timer = timer_new(millis);
        assert(millis * NANOS_PER_MILLI + millis * NANOS_PER_MILLI <= u64::MAX * 1_000_000_000)
            by (nonlinear_arith)
            requires
                millis <= u64::MAX,
                NANOS_PER_MILLI == 1_000_000,
        ;
        timer_tick(&mut timer, millis);
        Cooldown { timer }
    }

    /// Lets `dt_ms` milliseconds pass.
    pub fn tick(&mut self, dt_ms: u32)
        ensures
            final(self)@ == old(self)@.ticked(dt_ms as nat),
            old(self)@.wf(),
            final(self)@.wf(),
    {
        proof {
            use_type_invariant(&*self);
            assert(u64::MAX * NANOS_PER_MILLI + dt_ms * NANOS_PER_MILLI <= u64::MAX
                * 1_000_000_000) by (nonlinear_arith)
                requires
                    dt_ms <= u32::MAX,
                    NANOS_PER_MILLI == 1_000_000,
            ;
        }
        timer_tick(&mut self.timer, dt_ms as u64);
    }

    /// Whether the countdown has finished.
    pub fn finished(&self) -> (r: bool)
        ensures
            r == self@.finished,
    {
        timer_is_finished(&self.timer)
    }

    /// Starts the countdown over.
    pub fn reset(&mut self)
        ensures
            final(self)@ == old(self)@.restarted(),
            final(self)@.wf(),
    {
        proof {
            use_type_invariant(&*self);
        }
        timer_reset(&mut self.timer);
    }

    /// The part of the countdown that has run, in thousandths.
    pub fn fraction_permille(&self) -> (r: u32)
        ensures
            r == self@.permille(),
            r <= 1000,
    {
        proof {
            use_type_invariant(self);
        }
        let elapsed = timer_elapsed(&self.timer);
        let duration = timer_duration(&self.timer);
        if duration == 0 {
            1000
        } else {
            assert((elapsed * 1000) / (duration as int) <= 1000 && elapsed * 1000 <= u128::MAX)
                by (nonlinear_arith)
                requires
                    elapsed <= duration,
                    0 < duration <= u64::MAX * 1_000_000,
            ;
            (elapsed * 1000 / duration) as u32
        }
    }

    /// The whole milliseconds the countdown has run.
    pub fn elapsed_millis(&self) -> (r: u64)
        ensures
            r == self@.elapsed / (NANOS_PER_MILLI as nat),
    {
        proof {
            use_type_invariant(self);
        }
        let nanos = timer_elapsed(&self.timer);
        (nanos / (NANOS_PER_MILLI as u128)) as u64
    }

    /// The whole milliseconds the countdown runs for.
    pub fn duration_millis(&self) -> (r: u64)
        ensures
            r == self@.duration / (NANOS_PER_MILLI as nat),
    {
        proof {
            use_type_invariant(self);
        }
        let nanos = timer_duration(&self.timer);
        (nanos / (NANOS_PER_MILLI as u128)) as u64
    }

}

} // verus!
