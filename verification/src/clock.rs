//! The clock of a session: it counts microseconds from an origin that a
//! pause moves.

use vstd::prelude::*;

verus! {

/// The time elapsed on a session clock at the reading `now` of the
/// monotonic clock, where the session clock read zero at the reading
/// `epoch`: never negative, and never more than 64 bits hold.
pub open spec fn elapsed(epoch: int, now: u64) -> int {
    if now - epoch < 0 {
        0
    } else if now - epoch > u64::MAX {
        u64::MAX as int
    } else {
        now - epoch
    }
}

/// A session clock. It holds one reading of its own together with the
/// reading of the monotonic clock at that moment.
#[derive(Clone, Copy, Debug)]
pub struct Clock {
    base: u64,
    mark: u64,
}

impl Clock {
    /// The reading of the monotonic clock at which this clock read zero. It
    /// is negative where the clock was set to a time that the monotonic
    /// clock has not reached.
    pub closed spec fn epoch(self) -> int {
        self.mark - self.base
    }

    /// The clock that reads `time` when the monotonic clock reads `now`.
    pub fn reading(time: u64, now: u64) -> (clock: Clock)
        ensures
            clock.epoch() == now - time,
    {
        Clock { base: time, mark: now }
    }

    /// What this clock reads when the monotonic clock reads `now`.
    pub fn elapsed(&self, now: u64) -> (time: u64)
        ensures
            time == elapsed(self.epoch(), now),
    {
        if now >= self.mark {
            (now - self.mark).saturating_add(self.base)
        } else {
            let behind: u64 = self.mark - now;
            if self.base >= behind {
                self.base - behind
            } else {
                0
            }
        }
    }
}

/// A pause takes no time on a session clock: set to the time at which it
/// was stopped, it reads that time again.
pub proof fn lemma_resume_keeps_time(at: u64, now: u64)
    ensures
        elapsed(now - at, now) == at,
{
}

/// A session clock never runs backwards while the monotonic clock does not.
pub proof fn lemma_elapsed_monotonic(epoch: int, earlier: u64, later: u64)
    requires
        earlier <= later,
    ensures
        0 <= elapsed(epoch, earlier) <= elapsed(epoch, later) <= u64::MAX,
{
}

} // verus!
