//! How many echo probes a link health check sends, and when it concludes.
use vstd::prelude::*;

verus! {

/// What a health check knows after a probe.
#[derive(Debug, Clone, Copy, PartialEq, Eq)]
pub enum ProbeVerdict {
    /// A probe was answered: the link is healthy.
    Healthy,
    /// Every allowed probe failed: the link is down.
    Unhealthy,
    /// The probe failed and another one is allowed.
    ProbeAgain,
}

/// Progress of one health check: probes sent so far and how many are allowed.
#[derive(Debug, Clone, Copy, PartialEq, Eq)]
pub struct ProbeSchedule {
    pub attempts: u32,
    pub limit: u32,
}

/// At least one probe is always sent.
pub open spec fn probe_limit_for(count: u32) -> u32 {
    if count == 0 {
        1
    } else {
        count
    }
}

/// The probe limit is `max(count, 1)`: the smallest number that is at least `count` and
/// at least one.
pub proof fn lemma_probe_limit_is_count_at_least_one(count: u32)
    ensures
        probe_limit_for(count) >= 1,
        probe_limit_for(count) >= count,
        probe_limit_for(count) == count || probe_limit_for(count) == 1,
{
}

impl ProbeSchedule {
    /// A check of `count` probes, or one when `count` is zero.
    pub fn new(count: u32) -> (s: ProbeSchedule)
        ensures
            s.attempts == 0,
            s.limit == probe_limit_for(count),
            count > 0 ==> s.limit == count,
            count == 0 ==> s.limit == 1,
    {
        let limit: u32 = if count == 0 {
            1
        } else {
            count
        };
        ProbeSchedule { attempts: 0, limit }
    }

    /// Whether another probe may be sent.
    pub fn has_probes_left(&self) -> (r: bool)
        ensures
            r == (self.attempts < self.limit),
    {
        self.attempts < self.limit
    }

    /// Records the outcome of the next probe and tells whether the check is over.
    pub fn record(&mut self, succeeded: bool) -> (v: ProbeVerdict)
        requires
            old(self).attempts < old(self).limit,
        ensures
            final(self).attempts == old(self).attempts + 1,
            final(self).limit == old(self).limit,
            v == (if succeeded {
                ProbeVerdict::Healthy
            } else if final(self).attempts == final(self).limit {
                ProbeVerdict::Unhealthy
            } else {
                ProbeVerdict::ProbeAgain
            }),
    {
        self.attempts = self.attempts + 1;
        if succeeded {
            ProbeVerdict::Healthy
        } else if self.attempts == self.limit {
            ProbeVerdict::Unhealthy
        } else {
            ProbeVerdict::ProbeAgain
        }
    }
}

} // verus!
