//! Steady ticks.

use vstd::prelude::*;

verus! {

/// A ticker that fires once every `duration` ticks of the system clock and
/// does not drift: each tick is due one period after the one before, not
/// one period after it was noticed. A ticker that has fallen behind by more
/// than a period starts anew from the present.
#[derive(Clone, Copy, Debug)]
pub struct Ticker {
    last_tick: u64,
    duration: u64,
}

/// The time of the last tick after the ticker was asked for the next one at
/// time `now`.
pub open spec fn next_tick(last_tick: u64, duration: u64, now: u64) -> int {
    if now > last_tick && now - last_tick > duration {
        now as int
    } else {
        last_tick + duration
    }
}

impl Ticker {
    /// The time of the last tick.
    pub closed spec fn last(&self) -> u64 {
        self.last_tick
    }

    /// The period.
    pub closed spec fn period(&self) -> u64 {
        self.duration
    }

    /// A ticker with the given period that starts at `now`.
    pub fn every(duration: u64, now: u64) -> (r: Self)
        ensures
            r.last() == now,
            r.period() == duration,
    {
        Ticker { last_tick: now, duration }
    }

    /// Asks for the next tick at time `now`. Returns the time to wait for,
    /// or nothing when the tick is due at once because the ticker has
    /// fallen behind. Either way the tick counts as taken.
    pub fn next(&mut self, now: u64) -> (wait_until: Option<u64>)
        requires
            old(self).last() + old(self).period() <= u64::MAX,
        ensures
            final(self).period() == old(self).period(),
            final(self).last() == next_tick(old(self).last(), old(self).period(), now),
            wait_until == (if now > old(self).last() && now - old(self).last() > old(self).period() {
                None
            } else {
                Some((old(self).last() + old(self).period()) as u64)
            }),
    {
        if now.saturating_sub(self.last_tick) > self.duration {
            self.last_tick = now;
            return None;
        }
        let next: u64 = self.last_tick + self.duration;
        self.last_tick = next;
        Some(next)
    }

    /// Asks for the next tick at time `now`, if the clock has room for it:
    /// a ticker whose next tick lies beyond the end of the clock stays as it
    /// is and gives nothing.
    pub fn try_next(&mut self, now: u64) -> (wait_until: Option<Option<u64>>)
        ensures
            wait_until is Some <==> old(self).last() + old(self).period() <= u64::MAX,
            wait_until is None ==> *final(self) == *old(self),
            wait_until is Some ==> final(self).period() == old(self).period() && final(self).last() == next_tick(old(self).last(), old(self).period(), now),
    {
        if self.duration > u64::MAX - self.last_tick {
            return None;
        }
        Some(self.next(now))
    }
}

/// Ticks do not drift: as long as the ticker is asked in time, the `n`-th
/// tick is due exactly `n` periods after the start.
pub proof fn lemma_ticks_do_not_drift(start: u64, duration: u64, now: u64)
    requires
        start + duration <= u64::MAX,
        now <= start + duration,
    ensures
        next_tick(start, duration, now) == start + duration,
{
}

} // verus!
