//! The bounded one-shot collector: best-effort accumulation of events
//! under two stop conditions, a count cap and a wall-clock budget,
//! whichever strikes first.
//!
//! The loop that waits on the network lives outside; after every wait it
//! records the time the wait cost and any event it brought, and asks the
//! collector whether to go on. The server may never signal completion, so
//! the waits are short polling slices and the budget bounds the whole
//! collection.

use vstd::prelude::*;
use crate::event::{FeedEvent, sorted_desc, sort_events_desc};

verus! {

/// State of one bounded collection.
pub struct Collector {
    /// What has arrived so far.
    pub buffer: Vec<FeedEvent>,
    /// Stop once this many events have arrived.
    pub max_count: usize,
    /// Stop once this much time has elapsed, in the caller's time units.
    pub budget: u64,
    /// Time spent so far, in the caller's time units.
    pub elapsed: u64,
}

/// Ghost state of one bounded collection.
pub ghost struct CollectorModel {
    /// What has arrived so far.
    pub buffer: Seq<FeedEvent>,
    /// Stop once this many events have arrived.
    pub max_count: usize,
    /// Stop once this much time has elapsed.
    pub budget: u64,
    /// Time spent so far.
    pub elapsed: u64,
}

impl View for Collector {
    type V = CollectorModel;

    open spec fn view(&self) -> CollectorModel {
        CollectorModel {
            buffer: self.buffer@,
            max_count: self.max_count,
            budget: self.budget,
            elapsed: self.elapsed,
        }
    }
}

/// One outcome of a wait: how long it took, and the event it brought, if
/// any (a timed-out wait brings none).
pub ghost struct WaitStep {
    /// Time the wait cost, in the caller's time units.
    pub cost: u64,
    /// The event the wait brought, if any.
    pub arrived: Option<FeedEvent>,
}

/// Elapsed time never wraps: it saturates at the top of the word, far past
/// any budget.
pub open spec fn sat_add64(a: u64, b: u64) -> u64 {
    if a + b > u64::MAX {
        u64::MAX
    } else {
        (a + b) as u64
    }
}

/// Collection goes on only while both caps are clear: fewer events than
/// the count cap, and less time spent than the budget.
pub open spec fn wants_more(m: CollectorModel) -> bool {
    m.buffer.len() < m.max_count && m.elapsed < m.budget
}

/// The collector after one recorded wait.
pub open spec fn spec_record(m: CollectorModel, step: WaitStep) -> CollectorModel {
    CollectorModel {
        buffer: match step.arrived {
            Some(e) => m.buffer.push(e),
            None => m.buffer,
        },
        elapsed: sat_add64(m.elapsed, step.cost),
        ..m
    }
}

/// A whole collection run: waits are recorded until a cap strikes or the
/// outcomes run out.
pub open spec fn run_collector(m: CollectorModel, steps: Seq<WaitStep>) -> CollectorModel
    decreases steps.len(),
{
    if steps.len() == 0 || !wants_more(m) {
        m
    } else {
        run_collector(spec_record(m, steps.first()), steps.drop_first())
    }
}

/// The wall-clock cap alone stops the collection: when every wait costs at
/// least one time unit (events arriving slower than the per-wait timeout),
/// the run is over after at most `budget - elapsed` waits, however few
/// events arrived.
pub proof fn lemma_wall_clock_cap(m: CollectorModel, steps: Seq<WaitStep>)
    requires
        forall|i: int| 0 <= i < steps.len() ==> (#[trigger] steps[i]).cost >= 1,
        steps.len() >= m.budget - m.elapsed,
    ensures
        !wants_more(run_collector(m, steps)),
    decreases steps.len(),
{
    if wants_more(m) {
        let m2 = spec_record(m, steps.first());
        let rest = steps.drop_first();
        assert(m2.elapsed >= m.elapsed + 1 || m2.elapsed == u64::MAX);
        assert(forall|i: int| 0 <= i < rest.len() ==> (#[trigger] rest[i]).cost >= 1) by {
            assert(forall|i: int| 0 <= i < rest.len() ==> rest[i] == steps[i + 1]);
        }
        lemma_wall_clock_cap(m2, rest);
    }
}

/// The count cap alone stops the collection: when every wait brings an
/// event (a burst), the run is over after at most `max_count` arrivals,
/// without waiting out the wall-clock budget — the waits' costs play no
/// part.
pub proof fn lemma_count_cap(m: CollectorModel, steps: Seq<WaitStep>)
    requires
        forall|i: int| 0 <= i < steps.len() ==> (#[trigger] steps[i]).arrived is Some,
        steps.len() >= m.max_count - m.buffer.len(),
    ensures
        !wants_more(run_collector(m, steps)),
    decreases steps.len(),
{
    if wants_more(m) {
        let m2 = spec_record(m, steps.first());
        let rest = steps.drop_first();
        assert(m2.buffer.len() == m.buffer.len() + 1);
        assert(forall|i: int| 0 <= i < rest.len() ==> (#[trigger] rest[i]).arrived is Some) by {
            assert(forall|i: int| 0 <= i < rest.len() ==> rest[i] == steps[i + 1]);
        }
        lemma_count_cap(m2, rest);
    }
}

impl Collector {
    /// A collection that has gathered nothing and spent nothing yet.
    pub fn new(max_count: usize, budget: u64) -> (c: Collector)
        ensures
            c@ == (CollectorModel {
                buffer: Seq::<FeedEvent>::empty(),
                max_count: max_count,
                budget: budget,
                elapsed: 0u64,
            }),
    {
        let c = Collector { buffer: Vec::new(), max_count, budget, elapsed: 0 };
        proof {
            assert(c.buffer@ =~= Seq::<FeedEvent>::empty());
        }
        c
    }

    /// Whether the loop should wait once more: true exactly while both the
    /// count cap and the wall-clock budget are clear.
    pub fn wants_more(&self) -> (r: bool)
        ensures
            r == wants_more(self@),
    {
        self.buffer.len() < self.max_count && self.elapsed < self.budget
    }

    /// Records one wait: the time it cost and the event it brought, if any.
    pub fn record(&mut self, cost: u64, arrived: Option<FeedEvent>)
        ensures
            final(self)@ == spec_record(old(self)@, WaitStep { cost, arrived }),
    {
        match arrived {
            Some(e) => {
                self.buffer.push(e);
            },
            None => {},
        }
        self.elapsed = if cost > u64::MAX - self.elapsed {
            u64::MAX
        } else {
            self.elapsed + cost
        };
    }

    /// Ends the collection: the gathered events, sorted newest first.
    pub fn finish(self) -> (r: Vec<FeedEvent>)
        ensures
            sorted_desc(r@),
            r@.to_multiset() == self@.buffer.to_multiset(),
            r@.len() == self@.buffer.len(),
    {
        let mut buf = self.buffer;
        sort_events_desc(&mut buf);
        buf
    }
}

/// The input-poll budget that remains of one tick of the render loop: the
/// tick period less what this tick has already spent, never negative.
pub fn poll_budget(tick_ms: u64, spent_ms: u64) -> (r: u64)
    ensures
        r == if spent_ms >= tick_ms {
            0u64
        } else {
            (tick_ms - spent_ms) as u64
        },
{
    if spent_ms >= tick_ms {
        0
    } else {
        tick_ms - spent_ms
    }
}

} // verus!
