//! Batching of matched identifiers and per-batch outcome recording.
//!
//! The matched identifiers are partitioned, in order, into contiguous
//! batches of at most a fixed size, and each batch is submitted as one
//! independent mutation call. Submission is not transactional across
//! batches: an outcome — success or failure — is recorded for the pending
//! batch, and the next batch becomes pending regardless.

use vstd::arithmetic::div_mod::{lemma_basic_div, lemma_div_plus_one};
use vstd::prelude::*;
use vstd::seq_lib::lemma_flatten_concat;

verus! {

/// The contiguous partition of `ids` into chunks of at most `max`, in order.
pub open spec fn batches_spec(ids: Seq<String>, max: nat) -> Seq<Seq<String>>
    decreases ids.len(),
{
    if max == 0 || ids.len() == 0 {
        Seq::empty()
    } else if ids.len() <= max {
        seq![ids]
    } else {
        seq![ids.take(max as int)] + batches_spec(ids.skip(max as int), max)
    }
}

/// The partition is faithful: concatenating all batches in order reproduces
/// exactly the original identifier sequence, every batch holds between 1 and
/// `max` identifiers, and there are exactly `ceil(len / max)` batches.
pub proof fn lemma_batches_partition(ids: Seq<String>, max: nat)
    requires
        max >= 1,
    ensures
        batches_spec(ids, max).flatten() == ids,
        forall|k: int|
            0 <= k < batches_spec(ids, max).len() ==> 1 <= (#[trigger] batches_spec(ids, max)[k]).len()
                <= max,
        batches_spec(ids, max).len() == (ids.len() + max - 1) / (max as int),
    decreases ids.len(),
{
    let bs = batches_spec(ids, max);
    if ids.len() == 0 {
        assert(bs.flatten() =~= ids);
        lemma_basic_div(max - 1, max as int);
    } else if ids.len() <= max {
        bs.lemma_flatten_one_element();
        assert(bs.flatten() == ids);
        assert((ids.len() + max - 1) / (max as int) == 1) by {
            lemma_div_plus_one(ids.len() - 1, max as int);
            lemma_basic_div(ids.len() - 1, max as int);
        }
    } else {
        let head = seq![ids.take(max as int)];
        let tail = batches_spec(ids.skip(max as int), max);
        lemma_batches_partition(ids.skip(max as int), max);
        lemma_flatten_concat(head, tail);
        head.lemma_flatten_one_element();
        assert(bs.flatten() =~= ids.take(max as int) + ids.skip(max as int));
        assert(ids.take(max as int) + ids.skip(max as int) =~= ids);
        assert forall|k: int| 0 <= k < bs.len() implies 1 <= (#[trigger] bs[k]).len() <= max by {
            if k > 0 {
                assert(bs[k] == tail[k - 1]);
            }
        }
        assert(bs.len() == (ids.len() + max - 1) / (max as int)) by {
            assert(tail.len() == (ids.len() - 1) / (max as int));
            lemma_div_plus_one(ids.len() - 1, max as int);
        }
    }
}

/// Partitions `ids` into batches of at most `max`, in order.
pub fn make_batches(ids: &Vec<String>, max: usize) -> (bs: Vec<Vec<String>>)
    requires
        max >= 1,
    ensures
        bs@.map_values(|b: Vec<String>| b@) == batches_spec(ids@, max as nat),
{
    let mut bs: Vec<Vec<String>> = Vec::new();
    let mut i: usize = 0;
    proof {
        assert(ids@.skip(0) =~= ids@);
        assert(bs@.map_values(|b: Vec<String>| b@) + batches_spec(ids@.skip(0), max as nat)
            =~= batches_spec(ids@, max as nat));
    }
    while i < ids.len()
        invariant
            max >= 1,
            i <= ids@.len(),
            batches_spec(ids@, max as nat) == bs@.map_values(|b: Vec<String>| b@) + batches_spec(
                ids@.skip(i as int),
                max as nat,
            ),
        decreases ids@.len() - i,
    {
        let remaining = ids.len() - i;
        let chunk_len = if remaining < max {
            remaining
        } else {
            max
        };
        let end = i + chunk_len;
        let mut chunk: Vec<String> = Vec::new();
        let mut j: usize = i;
        while j < end
            invariant
                i <= j <= end,
                end <= ids@.len(),
                chunk@ =~= ids@.subrange(i as int, j as int),
            decreases end - j,
        {
            chunk.push(ids[j].clone());
            proof {
                assert(chunk@ =~= ids@.subrange(i as int, j + 1 as int));
            }
            j = j + 1;
        }
        let ghost bs0 = bs@.map_values(|b: Vec<String>| b@);
        let ghost rest = ids@.skip(i as int);
        bs.push(chunk);
        proof {
            assert(bs@.map_values(|b: Vec<String>| b@) =~= bs0.push(chunk@));
            if remaining <= max {
                assert(chunk@ =~= rest);
                assert(batches_spec(rest, max as nat) == seq![rest]);
                assert(ids@.skip(i + chunk_len as int) =~= Seq::<String>::empty());
                assert(batches_spec(ids@.skip(i + chunk_len as int), max as nat)
                    =~= Seq::<Seq<String>>::empty());
                assert(bs0.push(chunk@) + Seq::<Seq<String>>::empty() =~= bs0 + seq![rest]);
            } else {
                assert(chunk@ =~= rest.take(max as int));
                assert(rest.skip(max as int) =~= ids@.skip(i + max as int));
                assert(batches_spec(rest, max as nat) == seq![rest.take(max as int)]
                    + batches_spec(ids@.skip(i + max as int), max as nat));
                assert(bs0.push(chunk@) + batches_spec(ids@.skip(i + max as int), max as nat)
                    =~= bs0 + (seq![rest.take(max as int)] + batches_spec(
                    ids@.skip(i + max as int),
                    max as nat,
                )));
            }
        }
        i = i + chunk_len;
    }
    proof {
        assert(ids@.skip(i as int) =~= Seq::<String>::empty());
        assert(batches_spec(ids@.skip(i as int), max as nat) =~= Seq::<Seq<String>>::empty());
        assert(bs@.map_values(|b: Vec<String>| b@) + Seq::<Seq<String>>::empty()
            =~= bs@.map_values(|b: Vec<String>| b@));
    }
    bs
}

/// The recorded outcome of one submitted batch.
#[derive(Clone, Debug)]
pub struct BatchResult {
    /// Whether the mutation call succeeded.
    pub success: bool,
    /// The mutation collaborator's error text, when it failed.
    pub error: Option<String>,
    /// The batch's member identifiers, kept for traceability.
    pub ids: Vec<String>,
}

/// Submits the batches of one run, one independent mutation call each.
///
/// The caller performs the calls: it asks for the pending batch, submits it,
/// and records the outcome; recording moves on to the next batch whether the
/// call succeeded or failed.
pub struct BatchCommitter {
    batches: Vec<Vec<String>>,
    results: Vec<BatchResult>,
}

impl BatchCommitter {
    /// The batches of this run, in submission order.
    pub closed spec fn spec_batches(self) -> Seq<Seq<String>> {
        self.batches@.map_values(|b: Vec<String>| b@)
    }

    /// The outcomes recorded so far, in submission order.
    pub closed spec fn spec_results(self) -> Seq<BatchResult> {
        self.results@
    }

    /// How many batches have an outcome recorded.
    pub open spec fn submitted(self) -> nat {
        self.spec_results().len()
    }

    /// Each recorded outcome belongs to the batch of its position.
    pub open spec fn wf(self) -> bool {
        &&& self.submitted() <= self.spec_batches().len()
        &&& forall|k: int|
            0 <= k < self.submitted() ==> (#[trigger] self.spec_results()[k]).ids@
                == self.spec_batches()[k]
    }

    /// The batch awaiting submission, if any: always the first one without a
    /// recorded outcome, independent of how earlier batches fared.
    pub open spec fn pending_spec(self) -> Option<Seq<String>> {
        if self.submitted() < self.spec_batches().len() {
            Some(self.spec_batches()[self.submitted() as int])
        } else {
            None
        }
    }

    /// Partitions the matched identifiers into batches of at most `max` and
    /// readies them for submission.
    pub fn new(ids: &Vec<String>, max: usize) -> (c: BatchCommitter)
        requires
            max >= 1,
        ensures
            c.spec_batches() == batches_spec(ids@, max as nat),
            c.submitted() == 0,
            c.wf(),
    {
        let batches = make_batches(ids, max);
        BatchCommitter { batches, results: Vec::new() }
    }

    /// How many batches this run has.
    pub fn num_batches(&self) -> (n: usize)
        ensures
            n == self.spec_batches().len(),
    {
        self.batches.len()
    }

    /// The batch awaiting submission, or nothing when every batch has an
    /// outcome.
    pub fn next_pending(&self) -> (r: Option<&Vec<String>>)
        ensures
            match r {
                Some(b) => self.pending_spec() == Some(b@),
                None => self.pending_spec() is None,
            },
    {
        if self.results.len() < self.batches.len() {
            Some(&self.batches[self.results.len()])
        } else {
            None
        }
    }

    /// Records the outcome of the pending batch's mutation call. The batches
    /// themselves never change, and exactly the next batch becomes pending,
    /// whether `success` holds or not.
    pub fn record_result(&mut self, success: bool, error: Option<String>)
        requires
            old(self).wf(),
            old(self).submitted() < old(self).spec_batches().len(),
        ensures
            final(self).wf(),
            final(self).spec_batches() == old(self).spec_batches(),
            final(self).submitted() == old(self).submitted() + 1,
            final(self).spec_results().last().success == success,
            final(self).spec_results().last().error == error,
            final(self).spec_results().last().ids@ == old(self).pending_spec().unwrap(),
            forall|k: int|
                0 <= k < old(self).submitted() ==> final(self).spec_results()[k] == old(
                    self,
                ).spec_results()[k],
    {
        let k = self.results.len();
        let mut ids: Vec<String> = Vec::new();
        let mut j: usize = 0;
        while j < self.batches[k].len()
            invariant
                *self == *old(self),
                k == self.results@.len(),
                k < self.batches@.len(),
                j <= self.batches@[k as int]@.len(),
                ids@ =~= self.batches@[k as int]@.subrange(0, j as int),
            decreases self.batches@[k as int]@.len() - j,
        {
            ids.push(self.batches[k][j].clone());
            proof {
                assert(ids@ =~= self.batches@[k as int]@.subrange(0, j + 1 as int));
            }
            j = j + 1;
        }
        proof {
            assert(ids@ =~= self.batches@[k as int]@);
        }
        self.results.push(BatchResult { success, error, ids });
    }

    /// Hands the recorded outcomes over, ending the run.
    pub fn into_results(self) -> (rs: Vec<BatchResult>)
        ensures
            rs@ == self.spec_results(),
    {
        self.results
    }
}

/// A batch mutation failure is isolated: after recording any outcome for the
/// pending batch `k` — failure as much as success — the committer's batches
/// are unchanged and batch `k + 1` (when there is one) is pending, so a
/// failure on one batch never prevents the next from being attempted.
pub proof fn lemma_batch_failure_isolated(before: BatchCommitter, failed: BatchCommitter, succeeded: BatchCommitter)
    requires
        before.wf(),
        before.submitted() < before.spec_batches().len(),
        failed.spec_batches() == before.spec_batches(),
        failed.submitted() == before.submitted() + 1,
        succeeded.spec_batches() == before.spec_batches(),
        succeeded.submitted() == before.submitted() + 1,
    ensures
        failed.pending_spec() == succeeded.pending_spec(),
        before.submitted() + 1 < before.spec_batches().len() ==> failed.pending_spec()
            == Some(before.spec_batches()[before.submitted() as int + 1]),
        before.submitted() + 1 == before.spec_batches().len() ==> failed.pending_spec() is None,
{
}

} // verus!
