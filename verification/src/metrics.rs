//! Request counters of the gateway.

use vstd::prelude::*;

verus! {

/// Counters kept by the gateway. Every counter wraps around on overflow.
pub struct GatewayMetrics {
    /// Requests received.
    pub total_requests: usize,
    /// Requests being handled right now.
    pub active_requests: usize,
    /// Requests answered with an error the gateway counts.
    pub total_errors: usize,
    /// Chat requests answered from the semantic cache.
    pub ai_cache_hits: usize,
    /// Chat requests the semantic cache could not answer.
    pub ai_cache_misses: usize,
}

/// A copy of the counters at one moment.
pub struct MetricsSnapshot {
    pub total_requests: usize,
    pub active_requests: usize,
    pub total_errors: usize,
    pub ai_cache_hits: usize,
    pub ai_cache_misses: usize,
}

/// Stands for one request counted as active; handing it back to
/// `release_active_request` ends that count.
pub struct ActiveRequestGuard {
    _held: (),
}

/// `m1` is `m0` with the chosen counters advanced by one each.
pub open spec fn advanced(
    m0: GatewayMetrics,
    m1: GatewayMetrics,
    request: bool,
    error: bool,
    hit: bool,
    miss: bool,
) -> bool {
    &&& m1.total_requests == (if request {
        m0.total_requests.wrapping_add(1)
    } else {
        m0.total_requests
    })
    &&& m1.active_requests == m0.active_requests
    &&& m1.total_errors == (if error {
        m0.total_errors.wrapping_add(1)
    } else {
        m0.total_errors
    })
    &&& m1.ai_cache_hits == (if hit {
        m0.ai_cache_hits.wrapping_add(1)
    } else {
        m0.ai_cache_hits
    })
    &&& m1.ai_cache_misses == (if miss {
        m0.ai_cache_misses.wrapping_add(1)
    } else {
        m0.ai_cache_misses
    })
}

impl GatewayMetrics {
    /// All counters at zero.
    pub fn new() -> (m: GatewayMetrics)
        ensures
            m.total_requests == 0,
            m.active_requests == 0,
            m.total_errors == 0,
            m.ai_cache_hits == 0,
            m.ai_cache_misses == 0,
    {
        GatewayMetrics {
            total_requests: 0,
            active_requests: 0,
            total_errors: 0,
            ai_cache_hits: 0,
            ai_cache_misses: 0,
        }
    }

    /// The counters, copied.
    pub fn get_snapshot(&self) -> (snap: MetricsSnapshot)
        ensures
            snap.total_requests == self.total_requests,
            snap.active_requests == self.active_requests,
            snap.total_errors == self.total_errors,
            snap.ai_cache_hits == self.ai_cache_hits,
            snap.ai_cache_misses == self.ai_cache_misses,
    {
        MetricsSnapshot {
            total_requests: self.total_requests,
            active_requests: self.active_requests,
            total_errors: self.total_errors,
            ai_cache_hits: self.ai_cache_hits,
            ai_cache_misses: self.ai_cache_misses,
        }
    }

    /// Counts one more request in flight.
    pub fn record_active_request(&mut self) -> (guard: ActiveRequestGuard)
        ensures
            final(self).active_requests == old(self).active_requests.wrapping_add(1),
            final(self).total_requests == old(self).total_requests,
            final(self).total_errors == old(self).total_errors,
            final(self).ai_cache_hits == old(self).ai_cache_hits,
            final(self).ai_cache_misses == old(self).ai_cache_misses,
    {
        self.active_requests = self.active_requests.wrapping_add(1);
        ActiveRequestGuard { _held: () }
    }

    /// Ends the count of the request `guard` stands for.
    pub fn release_active_request(&mut self, guard: ActiveRequestGuard)
        ensures
            final(self).active_requests == old(self).active_requests.wrapping_sub(1),
            final(self).total_requests == old(self).total_requests,
            final(self).total_errors == old(self).total_errors,
            final(self).ai_cache_hits == old(self).ai_cache_hits,
            final(self).ai_cache_misses == old(self).ai_cache_misses,
    {
        self.active_requests = self.active_requests.wrapping_sub(1);
    }

    /// Counts one more request received.
    pub fn record_request(&mut self)
        ensures
            advanced(*old(self), *final(self), true, false, false, false),
    {
        self.total_requests = self.total_requests.wrapping_add(1);
    }

    /// Counts one more error.
    pub fn record_error(&mut self)
        ensures
            advanced(*old(self), *final(self), false, true, false, false),
    {
        self.total_errors = self.total_errors.wrapping_add(1);
    }

    /// Counts one more cache hit.
    pub fn record_cache_hit(&mut self)
        ensures
            advanced(*old(self), *final(self), false, false, true, false),
    {
        self.ai_cache_hits = self.ai_cache_hits.wrapping_add(1);
    }

    /// Counts one more cache miss.
    pub fn record_cache_miss(&mut self)
        ensures
            advanced(*old(self), *final(self), false, false, false, true),
    {
        self.ai_cache_misses = self.ai_cache_misses.wrapping_add(1);
    }
}

impl Default for GatewayMetrics {
    fn default() -> (m: GatewayMetrics)
        ensures
            m.total_requests == 0,
            m.active_requests == 0,
            m.total_errors == 0,
            m.ai_cache_hits == 0,
            m.ai_cache_misses == 0,
    {
        GatewayMetrics::new()
    }
}

/// The active-request count after a run of operations that starts at
/// `active`: each `true` counts one more request as active
/// (`record_active_request`), each `false` hands a guard back
/// (`release_active_request`).
pub open spec fn active_after(active: usize, ops: Seq<bool>) -> usize
    decreases ops.len(),
{
    if ops.len() == 0 {
        active
    } else {
        let before = active_after(active, ops.drop_last());
        if ops.last() {
            before.wrapping_add(1)
        } else {
            before.wrapping_sub(1)
        }
    }
}

/// The number of guards a run of operations handed out and did not take back.
pub open spec fn outstanding(ops: Seq<bool>) -> int
    decreases ops.len(),
{
    if ops.len() == 0 {
        0
    } else {
        outstanding(ops.drop_last()) + if ops.last() {
            1int
        } else {
            -1int
        }
    }
}

/// Every guard handed back was handed out before: no beginning of the run
/// releases more requests than it counted.
pub open spec fn releases_follow_counts(ops: Seq<bool>) -> bool {
    forall|i: int| 0 <= i <= ops.len() ==> outstanding(#[trigger] ops.take(i)) >= 0
}

/// In every state, the number of active requests is the number it started
/// from plus the guards handed out and not yet released (while that number
/// fits a `usize`).
pub proof fn law_active_count_is_outstanding_guards(active: usize, ops: Seq<bool>)
    requires
        releases_follow_counts(ops),
        forall|i: int| 0 <= i <= ops.len() ==> active + outstanding(#[trigger] ops.take(i)) <= usize::MAX,
    ensures
        active_after(active, ops) == active + outstanding(ops),
    decreases ops.len(),
{
    assert(ops.take(ops.len() as int) =~= ops);
    if ops.len() > 0 {
        let p = ops.drop_last();
        assert forall|i: int| 0 <= i <= p.len() implies #[trigger] p.take(i) == ops.take(i) by {
            assert(p.take(i) =~= ops.take(i));
        }
        assert forall|i: int| 0 <= i <= p.len() implies outstanding(#[trigger] p.take(i)) >= 0 by {
            assert(p.take(i) == ops.take(i));
        }
        assert forall|i: int| 0 <= i <= p.len() implies active + outstanding(#[trigger] p.take(i))
            <= usize::MAX by {
            assert(p.take(i) == ops.take(i));
        }
        law_active_count_is_outstanding_guards(active, p);
        assert(outstanding(ops.take(ops.len() as int)) >= 0);
    }
}

/// Counting a request as active and then releasing it leaves the number of
/// active requests as it was.
pub proof fn law_active_request_round_trip(active: usize)
    ensures
        active.wrapping_add(1).wrapping_sub(1) == active,
{
}

} // verus!
