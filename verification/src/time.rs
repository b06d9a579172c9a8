//! Frame timing over a monotonic performance counter.
//!
//! The counter itself belongs to the platform: callers read it and hand the
//! raw readings in, and this module turns them into nanosecond spans, a
//! fixed-point frame delta, and a once-per-second flag.

use vstd::prelude::*;

verus! {

/// Nanoseconds covered by a counter difference `diff` at `freq` ticks per
/// second.
pub open spec fn spec_tick_ns(diff: int, freq: int) -> int {
    (diff * 1_000_000_000) / freq
}

/// Accumulated frame timing: counter readings, nanoseconds since the start,
/// and the flag that marks each completed second.
pub struct Time {
    pub last_frame_ticks: u64,
    pub since_start_ns: u64,
    pub last_frame_ns: u64,
    pub performance_counter: u64,
    pub performance_frequency: u64,
    pub seconds_timer_ns: u64,
    pub second_flag: bool,
}

impl Time {
    /// Fresh timing state anchored at the given first counter reading.
    pub fn new(start_ticks: u64) -> (r: Time)
        ensures
            r.last_frame_ticks == start_ticks,
            r.since_start_ns == 0,
            r.last_frame_ns == 0,
            r.performance_counter == 0,
            r.performance_frequency == 0,
            r.seconds_timer_ns == 0,
            !r.second_flag,
    {
        Time {
            last_frame_ticks: start_ticks,
            since_start_ns: 0,
            last_frame_ns: 0,
            performance_counter: 0,
            performance_frequency: 0,
            seconds_timer_ns: 0,
            second_flag: false,
        }
    }

    /// Folds one pair of counter readings into the timing state: the ticks
    /// since the last frame become nanoseconds, the running totals advance,
    /// and crossing a whole second raises the flag and restarts the second
    /// timer.
    pub fn update(&mut self, counter: u64, frequency: u64)
        requires
            counter >= old(self).last_frame_ticks,
            frequency >= 1,
            (counter - old(self).last_frame_ticks) * 1_000_000_000 <= u64::MAX,
            old(self).since_start_ns + spec_tick_ns(
                counter - old(self).last_frame_ticks,
                frequency as int,
            ) <= u64::MAX,
            old(self).seconds_timer_ns + spec_tick_ns(
                counter - old(self).last_frame_ticks,
                frequency as int,
            ) <= u64::MAX,
        ensures
            final(self).performance_counter == counter,
            final(self).performance_frequency == frequency,
            final(self).last_frame_ticks == counter,
            final(self).last_frame_ns == old(self).since_start_ns,
            final(self).since_start_ns == old(self).since_start_ns + spec_tick_ns(
                counter - old(self).last_frame_ticks,
                frequency as int,
            ),
            old(self).seconds_timer_ns + spec_tick_ns(
                counter - old(self).last_frame_ticks,
                frequency as int,
            ) >= 1_000_000_000 ==> final(self).seconds_timer_ns == 0 && final(self).second_flag,
            old(self).seconds_timer_ns + spec_tick_ns(
                counter - old(self).last_frame_ticks,
                frequency as int,
            ) < 1_000_000_000 ==> final(self).seconds_timer_ns == old(self).seconds_timer_ns
                + spec_tick_ns(counter - old(self).last_frame_ticks, frequency as int)
                && final(self).second_flag == old(self).second_flag,
    {
        self.performance_counter = counter;
        self.performance_frequency = frequency;

        let diff = counter - self.last_frame_ticks;
        self.last_frame_ticks = counter;

        let ns = diff * 1_000_000_000 / frequency;

        self.last_frame_ns = self.since_start_ns;
        self.since_start_ns = self.since_start_ns + ns;

        self.seconds_timer_ns = self.seconds_timer_ns + ns;
        if self.seconds_timer_ns >= 1_000_000_000 {
            self.seconds_timer_ns = 0;
            self.second_flag = true;
        }
    }

    /// The last frame's span as a fixed-point scalar in seconds: thousandths
    /// of a second, rounded down.
    pub fn delta(&self) -> (r: i64)
        requires
            self.since_start_ns >= self.last_frame_ns,
        ensures
            r == (self.since_start_ns - self.last_frame_ns) / 1_000_000,
    {
        ((self.since_start_ns - self.last_frame_ns) / 1_000_000) as i64
    }

    /// Whether a whole second has finished since this was last asked; asking
    /// lowers the flag, so each second is reported once.
    pub fn second_elapsed(&mut self) -> (r: bool)
        ensures
            r == old(self).second_flag,
            !final(self).second_flag,
            final(self).last_frame_ticks == old(self).last_frame_ticks,
            final(self).since_start_ns == old(self).since_start_ns,
            final(self).last_frame_ns == old(self).last_frame_ns,
            final(self).performance_counter == old(self).performance_counter,
            final(self).performance_frequency == old(self).performance_frequency,
            final(self).seconds_timer_ns == old(self).seconds_timer_ns,
    {
        if self.second_flag {
            self.second_flag = false;
            return true;
        }
        false
    }
}

} // verus!
