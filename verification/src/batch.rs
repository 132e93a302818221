use vstd::prelude::*;

use crate::model::PollError;
use crate::model::ProcessedFeed;
use crate::model::ProcessedFeedView;

verus! {

/// At most this many fetch tasks may run at the same time; further
/// sources wait for a free slot.
pub const MAX_IN_FLIGHT: usize = 20;

/// The bookkeeping that drives one poll pass: how many fetch tasks have
/// been started and settled, and the reports collected so far, in
/// completion order. The caller performs the actual fetching and
/// parsing; this coordinator decides when a task may start, refuses an
/// empty subscription list before any task exists, and isolates
/// per-source failures.
pub struct Batch {
    /// How many sources this pass covers.
    pub total: usize,
    /// How many fetch tasks have been started so far.
    pub started: usize,
    /// How many fetch tasks have settled so far, in success or failure.
    pub settled: usize,
    /// The reports of the sources that succeeded, in completion order.
    pub results: Vec<ProcessedFeed>,
}

impl Batch {
    /// The coordinator's bookkeeping is consistent. In particular, the
    /// number of running fetch tasks never exceeds `MAX_IN_FLIGHT`.
    pub open spec fn wf(&self) -> bool {
        &&& self.settled <= self.started
        &&& self.started <= self.total
        &&& self.started - self.settled <= MAX_IN_FLIGHT
        &&& self.results@.len() <= self.settled
    }

    /// How many fetch tasks are running right now.
    pub open spec fn in_flight(&self) -> int {
        self.started - self.settled
    }

    /// Begin a poll pass over `total` sources. An empty subscription
    /// list is refused here, before any fetch task can exist: the
    /// coordinator that would start one is never constructed.
    pub fn new(total: usize) -> (r: Result<Batch, PollError>)
        ensures
            match r {
                Ok(b) => {
                    &&& total > 0
                    &&& b.wf()
                    &&& b.total == total
                    &&& b.started == 0
                    &&& b.settled == 0
                    &&& b.results@ == Seq::<ProcessedFeed>::empty()
                },
                Err(e) => total == 0 && e == PollError::NoSourcesConfigured,
            },
    {
        if total == 0 {
            Err(PollError::NoSourcesConfigured)
        } else {
            Ok(Batch { total, started: 0, settled: 0, results: Vec::new() })
        }
    }

    /// Whether a new fetch task may start now: a source remains that has
    /// not been started, and a concurrency slot is free.
    pub fn can_start(&self) -> (r: bool)
        requires
            self.wf(),
        ensures
            r == (self.started < self.total && self.in_flight() < MAX_IN_FLIGHT),
    {
        self.started < self.total && self.started - self.settled < MAX_IN_FLIGHT
    }

    /// Account for one fetch task starting.
    pub fn start(&mut self)
        requires
            old(self).wf(),
            old(self).started < old(self).total,
            old(self).in_flight() < MAX_IN_FLIGHT,
        ensures
            final(self).wf(),
            final(self).total == old(self).total,
            final(self).started == old(self).started + 1,
            final(self).settled == old(self).settled,
            final(self).results == old(self).results,
            final(self).in_flight() <= MAX_IN_FLIGHT,
    {
        self.started = self.started + 1;
    }

    /// Account for one fetch task settling, with its outcome. A failure
    /// is isolated: it is counted, so the pass still completes, but only
    /// a success contributes a report.
    pub fn settle(&mut self, outcome: Result<ProcessedFeed, PollError>)
        requires
            old(self).wf(),
            old(self).in_flight() > 0,
        ensures
            final(self).wf(),
            final(self).total == old(self).total,
            final(self).started == old(self).started,
            final(self).settled == old(self).settled + 1,
            final(self).results.deep_view() == settled_results(
                old(self).results.deep_view(),
                outcome_view(outcome),
            ),
    {
        let ghost pre = self.results.deep_view();
        self.settled = self.settled + 1;
        match outcome {
            Ok(pf) => {
                let ghost pfv = pf@;
                self.results.push(pf);
                proof {
                    assert(self.results.deep_view() =~= pre.push(pfv));
                }
            },
            Err(_) => {},
        }
    }

    /// Whether every source of this pass has settled.
    pub fn done(&self) -> (r: bool)
        ensures
            r == (self.settled == self.total),
    {
        self.settled == self.total
    }
}

/// A per-source outcome, reduced to its mathematical image.
pub open spec fn outcome_view(outcome: Result<ProcessedFeed, PollError>) -> Result<
    ProcessedFeedView,
    PollError,
> {
    match outcome {
        Ok(pf) => Ok(pf@),
        Err(e) => Err(e),
    }
}

/// What settling one outcome does to the collected reports: a success
/// appends its report, a failure leaves them untouched.
pub open spec fn settled_results(
    results: Seq<ProcessedFeedView>,
    outcome: Result<ProcessedFeedView, PollError>,
) -> Seq<ProcessedFeedView> {
    match outcome {
        Ok(pf) => results.push(pf),
        Err(_) => results,
    }
}

/// The reports left behind by settling a whole sequence of outcomes,
/// first to last.
pub open spec fn apply_outcomes(
    results: Seq<ProcessedFeedView>,
    outcomes: Seq<Result<ProcessedFeedView, PollError>>,
) -> Seq<ProcessedFeedView>
    decreases outcomes.len(),
{
    if outcomes.len() == 0 {
        results
    } else {
        apply_outcomes(settled_results(results, outcomes[0]), outcomes.drop_first())
    }
}

/// The reports of the successful outcomes alone, in order.
pub open spec fn successes(outcomes: Seq<Result<ProcessedFeedView, PollError>>) -> Seq<
    ProcessedFeedView,
>
    decreases outcomes.len(),
{
    if outcomes.len() == 0 {
        Seq::empty()
    } else {
        match outcomes[0] {
            Ok(pf) => seq![pf] + successes(outcomes.drop_first()),
            Err(_) => successes(outcomes.drop_first()),
        }
    }
}

/// Concurrency cap law: a well-formed coordinator never has more than
/// `MAX_IN_FLIGHT` fetch tasks running at once, however its operations
/// are interleaved, since every operation preserves well-formedness.
pub proof fn lemma_concurrency_cap(b: Batch)
    requires
        b.wf(),
    ensures
        0 <= b.in_flight() <= MAX_IN_FLIGHT,
{
}

/// Isolation law: settling any sequence of per-source outcomes adds to
/// the collected reports exactly the reports of the outcomes that
/// succeeded, once each and in completion order; failed sources add
/// nothing and abort nothing.
pub proof fn lemma_isolation(
    results: Seq<ProcessedFeedView>,
    outcomes: Seq<Result<ProcessedFeedView, PollError>>,
)
    ensures
        apply_outcomes(results, outcomes) == results + successes(outcomes),
    decreases outcomes.len(),
{
    if outcomes.len() == 0 {
        assert(results + successes(outcomes) =~= results);
    } else {
        let rest = outcomes.drop_first();
        match outcomes[0] {
            Ok(pf) => {
                lemma_isolation(results.push(pf), rest);
                assert(results.push(pf) + successes(rest) =~= results + (seq![pf] + successes(
                    rest,
                )));
            },
            Err(_) => {
                lemma_isolation(results, rest);
            },
        }
    }
}

} // verus!
