//! The per-device rate limiter: a keyed token bucket with a fixed burst
//! per one-minute window. A device's first request in a window opens the
//! bucket; once the burst is used up, further requests in the same
//! window are refused without touching any other state.

use vstd::prelude::*;
use crate::{DeviceId, RATELIMIT_BURST_PER_MIN, RATELIMIT_WINDOW_SECS};

verus! {

/// One device's bucket: how many requests it has used since its window
/// opened.
#[derive(Clone, Copy, PartialEq, Eq, Structural, Debug)]
pub struct Bucket {
    pub device: DeviceId,
    pub used: u32,
    pub window_start: u64,
}

/// The keyed rate limiter.
pub struct RateLimiter {
    pub burst: u32,
    pub buckets: Vec<Bucket>,
}

/// A request at `now` against this bucket is allowed when the bucket's
/// window has elapsed or its burst is not yet used up.
pub open spec fn bucket_allows(b: Bucket, burst: u32, now: u64) -> bool {
    now >= b.window_start + RATELIMIT_WINDOW_SECS || b.used < burst
}

impl RateLimiter {
    /// No device holds two buckets.
    pub open spec fn wf(self) -> bool {
        forall|i: int, j: int|
            0 <= i < j < self.buckets@.len() ==> (#[trigger] self.buckets@[i]).device != (
            #[trigger] self.buckets@[j]).device
    }

    /// A fresh limiter with the configured burst; rebuilt periodically
    /// to bound memory.
    pub fn new() -> (r: RateLimiter)
        ensures
            r.wf(),
            r.burst == RATELIMIT_BURST_PER_MIN,
            r.buckets@.len() == 0,
    {
        RateLimiter { burst: RATELIMIT_BURST_PER_MIN, buckets: Vec::new() }
    }

    /// Index of this device's bucket, if any.
    pub(crate) fn find_bucket(&self, device: DeviceId) -> (r: Option<usize>)
        ensures
            r matches Some(i) ==> i < self.buckets@.len() && self.buckets@[i as int].device
                == device,
            r is None ==> forall|j: int|
                0 <= j < self.buckets@.len() ==> (#[trigger] self.buckets@[j]).device != device,
    {
        let mut i: usize = 0;
        while i < self.buckets.len()
            invariant
                i <= self.buckets@.len(),
                forall|j: int| 0 <= j < i ==> (#[trigger] self.buckets@[j]).device != device,
            decreases self.buckets@.len() - i,
        {
            if self.buckets[i].device == device {
                return Some(i);
            }
            i = i + 1;
        }
        None
    }

    /// Takes one token for a request of this device at time `now`.
    /// Allowed exactly when the device has no bucket yet, its window has
    /// elapsed, or its burst is not used up; a refused request changes
    /// nothing.
    #[verifier::rlimit(30)]
    pub fn check(&mut self, device: DeviceId, now: u64) -> (r: bool)
        requires
            old(self).wf(),
        ensures
            final(self).wf(),
            final(self).burst == old(self).burst,
            r <==> (forall|i: int|
                0 <= i < old(self).buckets@.len() ==> (#[trigger] old(self).buckets@[i]).device
                    != device || bucket_allows(old(self).buckets@[i], old(self).burst, now)),
            !r ==> *final(self) == *old(self),
            r ==> exists|i: int|
                0 <= i < final(self).buckets@.len() && (#[trigger] final(self).buckets@[i]).device
                    == device && final(self).buckets@[i].used >= 1,
    {
        match self.find_bucket(device) {
            Some(i) => {
                let b = self.buckets[i];
                if now >= b.window_start && now - b.window_start >= RATELIMIT_WINDOW_SECS {
                    // the window has elapsed: open a fresh one
                    self.buckets.set(
                        i,
                        Bucket { device, used: 1, window_start: now },
                    );
                    proof {
                        assert forall|a: int, c: int|
                            0 <= a < c < self.buckets@.len() implies (
                        #[trigger] self.buckets@[a]).device != (#[trigger] self.buckets@[c]).device by {
                            assert(old(self).buckets@[a].device != old(self).buckets@[c].device);
                        }
                        assert(self.buckets@[i as int].device == device);
                        assert forall|k: int|
                            0 <= k < old(self).buckets@.len() implies (
                        #[trigger] old(self).buckets@[k]).device != device || bucket_allows(
                            old(self).buckets@[k],
                            old(self).burst,
                            now,
                        ) by {
                            if k != i && old(self).buckets@[k].device == device {
                                if k < i {
                                    assert(old(self).buckets@[k].device != old(
                                        self,
                                    ).buckets@[i as int].device);
                                } else {
                                    assert(old(self).buckets@[i as int].device != old(
                                        self,
                                    ).buckets@[k].device);
                                }
                            }
                        }
                    }
                    true
                } else if b.used < self.burst {
                    self.buckets.set(
                        i,
                        Bucket { device, used: b.used + 1, window_start: b.window_start },
                    );
                    proof {
                        assert forall|a: int, c: int|
                            0 <= a < c < self.buckets@.len() implies (
                        #[trigger] self.buckets@[a]).device != (#[trigger] self.buckets@[c]).device by {
                            assert(old(self).buckets@[a].device != old(self).buckets@[c].device);
                        }
                        assert(self.buckets@[i as int].device == device);
                        assert forall|k: int|
                            0 <= k < old(self).buckets@.len() implies (
                        #[trigger] old(self).buckets@[k]).device != device || bucket_allows(
                            old(self).buckets@[k],
                            old(self).burst,
                            now,
                        ) by {
                            if k != i && old(self).buckets@[k].device == device {
                                if k < i {
                                    assert(old(self).buckets@[k].device != old(
                                        self,
                                    ).buckets@[i as int].device);
                                } else {
                                    assert(old(self).buckets@[i as int].device != old(
                                        self,
                                    ).buckets@[k].device);
                                }
                            }
                        }
                    }
                    true
                } else {
                    proof {
                        assert(!bucket_allows(old(self).buckets@[i as int], old(self).burst, now));
                    }
                    false
                }
            },
            None => {
                self.buckets.push(Bucket { device, used: 1, window_start: now });
                proof {
                    assert(self.buckets@[old(self).buckets@.len() as int].device == device);
                }
                true
            },
        }
    }
}

} // verus!
