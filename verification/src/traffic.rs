use vstd::prelude::*;

verus! {

/// Service tiers, in strictly decreasing priority.
#[derive(Clone, Copy, Debug, PartialEq, Eq, Structural)]
pub enum Tier {
    Sovereign,
    Enterprise,
    Starter,
}

/// A rate limiter with one queue per tier and a concurrency cap:
/// requests leave strictly by tier priority, first in first out
/// within a tier, and only while capacity remains.
#[derive(Debug)]
pub struct TieredRateLimiter {
    pub sovereign: Vec<String>,
    pub enterprise: Vec<String>,
    pub starter: Vec<String>,
    pub max_concurrency: usize,
    pub active_requests: usize,
}

impl TieredRateLimiter {
    /// An empty limiter with the given concurrency cap.
    pub fn new(max_concurrency: usize) -> (r: TieredRateLimiter)
        ensures
            r.sovereign@.len() == 0,
            r.enterprise@.len() == 0,
            r.starter@.len() == 0,
            r.max_concurrency == max_concurrency,
            r.active_requests == 0,
    {
        TieredRateLimiter {
            sovereign: Vec::new(),
            enterprise: Vec::new(),
            starter: Vec::new(),
            max_concurrency,
            active_requests: 0,
        }
    }

    /// Appends a request at the back of its tier's queue; the other
    /// queues and the counters are untouched.
    pub fn enqueue(&mut self, request_id: String, tier: Tier)
        ensures
            tier is Sovereign ==> final(self).sovereign@ == old(self).sovereign@.push(request_id)
                && final(self).enterprise@ == old(self).enterprise@ && final(self).starter@ == old(self).starter@,
            tier is Enterprise ==> final(self).enterprise@ == old(self).enterprise@.push(
                request_id,
            ) && final(self).sovereign@ == old(self).sovereign@ && final(self).starter@ == old(self).starter@,
            tier is Starter ==> final(self).starter@ == old(self).starter@.push(request_id)
                && final(self).sovereign@ == old(self).sovereign@ && final(self).enterprise@ == old(self).enterprise@,
            final(self).active_requests == old(self).active_requests,
            final(self).max_concurrency == old(self).max_concurrency,
    {
        match tier {
            Tier::Sovereign => self.sovereign.push(request_id),
            Tier::Enterprise => self.enterprise.push(request_id),
            Tier::Starter => self.starter.push(request_id),
        }
    }

    /// Hands out the next request id, strictly by tier priority:
    /// nothing while the grid is saturated, else the front of the
    /// highest-priority nonempty queue, counting one more active
    /// request.
    pub fn next(&mut self) -> (r: Option<String>)
        ensures
            old(self).active_requests >= old(self).max_concurrency ==> r is None && *final(self)
                == *old(self),
            old(self).active_requests < old(self).max_concurrency ==> {
                if old(self).sovereign@.len() > 0 {
                    &&& r == Some(old(self).sovereign@[0])
                    &&& final(self).sovereign@ == old(self).sovereign@.drop_first()
                    &&& final(self).enterprise@ == old(self).enterprise@
                    &&& final(self).starter@ == old(self).starter@
                    &&& final(self).active_requests == old(self).active_requests + 1
                } else if old(self).enterprise@.len() > 0 {
                    &&& r == Some(old(self).enterprise@[0])
                    &&& final(self).enterprise@ == old(self).enterprise@.drop_first()
                    &&& final(self).sovereign@ == old(self).sovereign@
                    &&& final(self).starter@ == old(self).starter@
                    &&& final(self).active_requests == old(self).active_requests + 1
                } else if old(self).starter@.len() > 0 {
                    &&& r == Some(old(self).starter@[0])
                    &&& final(self).starter@ == old(self).starter@.drop_first()
                    &&& final(self).sovereign@ == old(self).sovereign@
                    &&& final(self).enterprise@ == old(self).enterprise@
                    &&& final(self).active_requests == old(self).active_requests + 1
                } else {
                    r is None && *final(self) == *old(self)
                }
            },
            final(self).max_concurrency == old(self).max_concurrency,
    {
        if self.active_requests >= self.max_concurrency {
            return None;
        }
        if self.sovereign.len() > 0 {
            let req = self.sovereign.remove(0);
            self.active_requests = self.active_requests + 1;
            proof {
                assert(self.sovereign@ =~= old(self).sovereign@.drop_first());
            }
            return Some(req);
        }
        if self.enterprise.len() > 0 {
            let req = self.enterprise.remove(0);
            self.active_requests = self.active_requests + 1;
            proof {
                assert(self.enterprise@ =~= old(self).enterprise@.drop_first());
            }
            return Some(req);
        }
        if self.starter.len() > 0 {
            let req = self.starter.remove(0);
            self.active_requests = self.active_requests + 1;
            proof {
                assert(self.starter@ =~= old(self).starter@.drop_first());
            }
            return Some(req);
        }
        None
    }

    /// Returns one unit of capacity; never drops below zero.
    pub fn release(&mut self)
        ensures
            old(self).active_requests > 0 ==> final(self).active_requests == old(self).active_requests - 1,
            old(self).active_requests == 0 ==> final(self).active_requests == 0,
            final(self).sovereign@ == old(self).sovereign@,
            final(self).enterprise@ == old(self).enterprise@,
            final(self).starter@ == old(self).starter@,
            final(self).max_concurrency == old(self).max_concurrency,
    {
        if self.active_requests > 0 {
            self.active_requests = self.active_requests - 1;
        }
    }
}

} // verus!
