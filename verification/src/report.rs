//! The final aggregate of one reconciliation run.
//!
//! Pure aggregation: the run always completes and always yields a report, so
//! every per-track and per-batch failure shows up here rather than aborting
//! anything. Every input track is accounted for: it is counted matched or it
//! appears, with its reason, in the unmatched list.

use vstd::prelude::*;

use crate::batch::BatchResult;
use crate::resolve::{ResolutionOutcome, UnmatchReason};

verus! {

/// One unmatched input track: its position in the input and why it went
/// unmatched.
#[derive(Clone, Debug)]
pub struct UnmatchedEntry {
    /// Index of the track in the run's input order.
    pub index: usize,
    /// Why no destination track was found for it.
    pub reason: UnmatchReason,
}

/// The outcome summary of one reconciliation run.
#[derive(Clone, Debug)]
pub struct ReconciliationReport {
    /// How many tracks the run consumed.
    pub total: usize,
    /// How many of them resolved to a destination track.
    pub matched: usize,
    /// The tracks that did not, with reasons, in input order.
    pub unmatched: Vec<UnmatchedEntry>,
    /// One recorded outcome per submitted batch, in submission order.
    pub batch_results: Vec<BatchResult>,
}

/// How many outcomes are matched.
pub open spec fn count_matched(outcomes: Seq<ResolutionOutcome>) -> nat
    decreases outcomes.len(),
{
    if outcomes.len() == 0 {
        0
    } else {
        count_matched(outcomes.drop_last()) + if outcomes.last() is Matched {
            1nat
        } else {
            0nat
        }
    }
}

/// The unmatched entries an outcome sequence yields, in input order.
pub open spec fn unmatched_spec(outcomes: Seq<ResolutionOutcome>) -> Seq<UnmatchedEntry>
    decreases outcomes.len(),
{
    if outcomes.len() == 0 {
        Seq::empty()
    } else {
        let prefix = unmatched_spec(outcomes.drop_last());
        match outcomes.last() {
            ResolutionOutcome::Matched { .. } => prefix,
            ResolutionOutcome::Unmatched { reason } => prefix.push(
                UnmatchedEntry { index: (outcomes.len() - 1) as usize, reason },
            ),
        }
    }
}

/// Aggregates the run: every track is either counted matched or listed
/// unmatched, and the batch outcomes are carried along unchanged.
pub fn build_report(outcomes: &Vec<ResolutionOutcome>, batch_results: Vec<BatchResult>) -> (rep:
    ReconciliationReport)
    ensures
        rep.total == outcomes@.len(),
        rep.matched == count_matched(outcomes@),
        rep.unmatched@ == unmatched_spec(outcomes@),
        rep.batch_results == batch_results,
        rep.matched + rep.unmatched@.len() == rep.total,
{
    let mut matched: usize = 0;
    let mut unmatched: Vec<UnmatchedEntry> = Vec::new();
    let mut i: usize = 0;
    while i < outcomes.len()
        invariant
            i <= outcomes@.len(),
            matched == count_matched(outcomes@.take(i as int)),
            unmatched@ == unmatched_spec(outcomes@.take(i as int)),
            matched + unmatched@.len() == i,
        decreases outcomes@.len() - i,
    {
        proof {
            assert(outcomes@.take(i + 1 as int).drop_last() =~= outcomes@.take(i as int));
            assert(outcomes@.take(i + 1 as int).last() == outcomes@[i as int]);
        }
        match &outcomes[i] {
            ResolutionOutcome::Matched { .. } => {
                matched = matched + 1;
            },
            ResolutionOutcome::Unmatched { reason } => {
                unmatched.push(UnmatchedEntry { index: i, reason: *reason });
            },
        }
        i = i + 1;
    }
    proof {
        assert(outcomes@.take(outcomes@.len() as int) =~= outcomes@);
    }
    ReconciliationReport { total: outcomes.len(), matched, unmatched, batch_results }
}

} // verus!
