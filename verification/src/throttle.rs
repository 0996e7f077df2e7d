//! The rate limit of a connection: no more than a given number of frames in
//! any window of time. A frame that comes too early is not dropped; it is
//! told when its time has come.

use std::collections::VecDeque;
use vstd::prelude::*;

verus! {

/// The length of the window in which frames are counted, in milliseconds.
pub const WINDOW_MS: u64 = 1000;

/// Whether the times `times` keep the limit: they do not go back, and of
/// any `limit + 1` in a row the last is at least `window` after the first.
pub open spec fn paced(times: Seq<u64>, limit: nat, window: nat) -> bool {
    &&& forall|i: int, j: int| 0 <= i <= j < times.len() ==> times[i] <= times[j]
    &&& forall|i: int|
        0 <= i && i + limit < times.len() ==> times[i] + window <= #[trigger] times[i + limit]
}

/// The time at which a frame that comes at `now` is let through, after the
/// frames that were let through at `times`: not before `now`, not before the
/// frame before it, and, where `limit` frames went before, not before the
/// window has passed since the first of the last `limit`.
pub open spec fn pass_time(times: Seq<u64>, limit: nat, window: nat, now: u64) -> int {
    let after_last = if times.len() > 0 && times.last() > now {
        times.last() as int
    } else {
        now as int
    };
    if times.len() >= limit && times[times.len() - limit] + window > after_last {
        times[times.len() - limit] + window
    } else {
        after_last
    }
}

/// The rate limiter of one connection.
pub struct Throttle {
    limit: usize,
    window: u64,
    recent: VecDeque<u64>,
    times: Ghost<Seq<u64>>,
}

impl Throttle {
    /// The rule that every limiter keeps: it remembers the last `limit`
    /// times, and all times it has given out keep the limit.
    #[verifier::type_invariant]
    pub closed spec fn wf(&self) -> bool {
        &&& paced(self.times@, self.limit as nat, self.window as nat)
        &&& self.recent@.len() <= self.limit
        &&& self.recent@.len() <= self.times@.len()
        &&& (self.recent@.len() == self.limit || self.recent@.len() == self.times@.len())
        &&& self.recent@ == self.times@.subrange(
            self.times@.len() - self.recent@.len(),
            self.times@.len() as int,
        )
    }

    /// The times at which frames were let through so far.
    pub closed spec fn times(&self) -> Seq<u64> {
        self.times@
    }

    /// The number of frames allowed in a window.
    pub closed spec fn limit(&self) -> nat {
        self.limit as nat
    }

    /// The length of the window.
    pub closed spec fn window(&self) -> nat {
        self.window as nat
    }

    /// A limiter that lets `limit` frames through in any window of `window`
    /// milliseconds.
    pub fn new(limit: usize, window: u64) -> (t: Throttle)
        ensures
            t.limit() == limit,
            t.window() == window,
            t.times().len() == 0,
    {
        let recent: VecDeque<u64> = VecDeque::new();
        let times: Ghost<Seq<u64>> = Ghost(Seq::empty());
        proof {
            assert(recent@ =~= times@.subrange(0, 0));
        }
        Throttle { limit, window, recent, times }
    }

    /// Says when a frame that comes at `now` is let through, and takes note
    /// of that time. `None` where no frame is ever let through, because the
    /// limit is zero, or where the time cannot be told, because it lies
    /// beyond the largest number; nothing is noted then.
    pub fn pass(&mut self, now: u64) -> (at: Option<u64>)
        ensures
            final(self).limit() == old(self).limit(),
            final(self).window() == old(self).window(),
            paced(final(self).times(), final(self).limit(), final(self).window()),
            match at {
                Some(t) => {
                    &&& old(self).limit() > 0
                    &&& t == pass_time(old(self).times(), old(self).limit(), old(self).window(), now)
                    &&& t >= now
                    &&& final(self).times() == old(self).times().push(t)
                },
                None => {
                    &&& final(self).times() == old(self).times()
                    &&& (old(self).limit() == 0 || pass_time(
                        old(self).times(),
                        old(self).limit(),
                        old(self).window(),
                        now,
                    ) > u64::MAX)
                },
            },
    {
        proof {
            use_type_invariant(&*self);
        }
        if self.limit == 0 {
            return None;
        }
        let ghost times = self.times@;
        let n = self.recent.len();
        let after_last = if n > 0 && self.recent[n - 1] > now {
            self.recent[n - 1]
        } else {
            now
        };
        let full = n == self.limit;
        let at = if full {
            match self.recent[0].checked_add(self.window) {
                Some(earliest) => if earliest > after_last {
                    earliest
                } else {
                    after_last
                },
                None => {
                    return None;
                },
            }
        } else {
            after_last
        };
        proof {
            assert(at == pass_time(times, self.limit as nat, self.window as nat, now));
        }
        let mut taken = Throttle::new(self.limit, self.window);
        core::mem::swap(self, &mut taken);
        let Throttle { limit, window, mut recent, times: _ } = taken;
        if full {
            recent.pop_front();
        }
        recent.push_back(at);
        proof {
            let after = times.push(at);
            assert(recent@ =~= after.subrange(after.len() - recent@.len(), after.len() as int));
            assert forall|i: int, j: int| 0 <= i <= j < after.len() implies after[i] <= after[j] by {
                if j == times.len() && i < times.len() {
                    assert(times[i] <= times.last());
                }
            }
            assert forall|i: int| 0 <= i && i + limit < after.len() implies after[i] + window
                <= #[trigger] after[i + limit] by {
                if i + limit == times.len() {
                    assert(times[i] == times[times.len() - limit]);
                } else {
                    assert(times[i] + window <= times[i + limit]);
                }
            }
        }
        *self = Throttle { limit, window, recent, times: Ghost(times.push(at)) };
        Some(at)
    }
}

/// Times that keep the limit hold no more than `limit` frames in any window:
/// the frame that comes `limit` frames after another lies outside the
/// window that the other opens.
pub proof fn window_holds_at_most_limit(times: Seq<u64>, limit: nat, window: nat, i: int, j: int)
    requires
        paced(times, limit, window),
        0 <= i <= j < times.len(),
        times[j] < times[i] + window,
    ensures
        j - i < limit,
{
    if j - i >= limit {
        assert(times[i] + window <= times[i + limit]);
        assert(times[i + limit] <= times[j]);
    }
}

} // verus!
