use vstd::prelude::*;

verus! {

/// Default rate of the instruction clock.
pub const INSTRUCTION_HZ: u64 = 600;

/// Rate of the timer clock.
pub const TIMER_HZ: u64 = 60;

/// Microseconds in a second.
pub const MICROS: u64 = 1_000_000;

/// Microseconds from `last` to `now`; zero if `now` lies before `last`.
pub open spec fn elapsed(last: u64, now: u64) -> int {
    if now >= last {
        now - last
    } else {
        0
    }
}

/// What the host loop should do on this poll.
#[derive(Clone, Copy, Debug, PartialEq, Eq, Structural)]
pub struct ClockAction {
    /// Run one processor step.
    pub step: bool,
    /// Decrement the timers once.
    pub tick_timers: bool,
}

/// Two independent periodic triggers over wall-clock microseconds: one for
/// processor steps and one, at 60 Hz, for the timers. Each fires at most once
/// per poll, so a stall is never made up for with a burst.
pub struct Clock {
    pub step_period: u64,
    pub timer_period: u64,
    pub last_step: u64,
    pub last_timer: u64,
}

impl Clock {
    /// A clock that steps the processor `instruction_hz` times a second,
    /// both triggers counting from `now`.
    pub fn new(instruction_hz: u64, now: u64) -> (r: Clock)
        requires
            instruction_hz > 0,
        ensures
            r.step_period == MICROS / instruction_hz,
            r.timer_period == MICROS / TIMER_HZ,
            r.last_step == now,
            r.last_timer == now,
    {
        Clock {
            step_period: MICROS / instruction_hz,
            timer_period: MICROS / TIMER_HZ,
            last_step: now,
            last_timer: now,
        }
    }

    /// Decides, at time `now`, whether each trigger fires: it fires when more
    /// than its period has passed since it last fired, and then counts from `now`.
    pub fn poll(&mut self, now: u64) -> (r: ClockAction)
        ensures
            r.step == (elapsed(old(self).last_step, now) > old(self).step_period),
            r.tick_timers == (elapsed(old(self).last_timer, now) > old(self).timer_period),
            final(self).last_step == if r.step { now } else { old(self).last_step },
            final(self).last_timer == if r.tick_timers { now } else { old(self).last_timer },
            final(self).step_period == old(self).step_period,
            final(self).timer_period == old(self).timer_period,
    {
        let since_step = if now >= self.last_step { now - self.last_step } else { 0 };
        let since_timer = if now >= self.last_timer { now - self.last_timer } else { 0 };
        let step = since_step > self.step_period;
        let tick_timers = since_timer > self.timer_period;
        if step {
            self.last_step = now;
        }
        if tick_timers {
            self.last_timer = now;
        }
        ClockAction { step, tick_timers }
    }
}

} // verus!
