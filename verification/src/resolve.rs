//! Disambiguation among search candidates.
//!
//! One search outcome per query yields one resolution outcome, in input
//! order. A candidate qualifies only through exact, case-insensitive
//! membership of the query's artist key in the candidate's own artist-name
//! list; among qualifying candidates the first in the search's own ranking
//! wins. A failed search is absorbed as an unmatched outcome and never stops
//! the remaining tracks.

use vstd::prelude::*;

use crate::query::SearchQuery;
use crate::text::{lower_of, lowercase};

verus! {

/// One result entry of the destination catalog search: its identifier and
/// its own artist-name list, as the search returned them.
#[derive(Clone, Debug)]
pub struct CandidateTrack {
    pub id: String,
    pub artist_names: Vec<String>,
}

/// What one search call produced: a candidate list, or a failure of the call
/// itself (network, auth, rate limit).
#[derive(Clone, Debug)]
pub enum SearchOutcome {
    Found(Vec<CandidateTrack>),
    Failed,
}

/// Why a track went unmatched.
#[derive(Clone, Copy, Debug, PartialEq, Eq, Structural)]
pub enum UnmatchReason {
    /// The search call itself failed.
    SearchFailed,
    /// The search succeeded but no candidate's artist list contains the key.
    NoArtistMatch,
}

impl UnmatchReason {
    /// The reason as report text.
    pub fn text(&self) -> (r: String)
        ensures
            *self == UnmatchReason::SearchFailed ==> r@ == "search request failed"@,
            *self == UnmatchReason::NoArtistMatch ==> r@ == "no artist-matching candidate"@,
    {
        match self {
            UnmatchReason::SearchFailed => String::from_str("search request failed"),
            UnmatchReason::NoArtistMatch => String::from_str("no artist-matching candidate"),
        }
    }
}

/// The classification of one input track.
#[derive(Clone, Debug, PartialEq, Eq)]
pub enum ResolutionOutcome {
    /// A candidate qualified; its identifier goes to the batch committer.
    Matched { destination_track_id: String },
    /// No candidate qualified, with the reason.
    Unmatched { reason: UnmatchReason },
}

/// The artist membership test: the key appears, after case folding, in the
/// candidate's own artist-name list. Membership, not similarity.
pub open spec fn candidate_matches(c: CandidateTrack, key: Seq<char>) -> bool {
    exists|i: int| 0 <= i < c.artist_names@.len() && lower_of(#[trigger] c.artist_names@[i]@) == key
}

/// The outcome a candidate list yields: the first candidate passing the
/// artist membership test, or no artist-matching candidate at all.
pub open spec fn resolve_found(cands: Seq<CandidateTrack>, key: Seq<char>) -> ResolutionOutcome
    decreases cands.len(),
{
    if cands.len() == 0 {
        ResolutionOutcome::Unmatched { reason: UnmatchReason::NoArtistMatch }
    } else if candidate_matches(cands[0], key) {
        ResolutionOutcome::Matched { destination_track_id: cands[0].id }
    } else {
        resolve_found(cands.drop_first(), key)
    }
}

/// The outcome a search outcome yields for a given artist key.
pub open spec fn resolve_spec(key: Seq<char>, outcome: SearchOutcome) -> ResolutionOutcome {
    match outcome {
        SearchOutcome::Failed => ResolutionOutcome::Unmatched {
            reason: UnmatchReason::SearchFailed,
        },
        SearchOutcome::Found(cands) => resolve_found(cands@, key),
    }
}

/// Whether the candidate's artist-name list contains the key after case
/// folding.
fn candidate_has_artist(c: &CandidateTrack, key: &String) -> (b: bool)
    ensures
        b == candidate_matches(*c, key@),
{
    let mut i: usize = 0;
    while i < c.artist_names.len()
        invariant
            i <= c.artist_names@.len(),
            forall|j: int| 0 <= j < i ==> lower_of(#[trigger] c.artist_names@[j]@) != key@,
        decreases c.artist_names@.len() - i,
    {
        let lowered = lowercase(c.artist_names[i].as_str());
        if lowered == *key {
            return true;
        }
        i = i + 1;
    }
    false
}

/// Classifies one track from its search outcome.
pub fn resolve(key: &String, outcome: &SearchOutcome) -> (r: ResolutionOutcome)
    ensures
        r == resolve_spec(key@, *outcome),
{
    match outcome {
        SearchOutcome::Failed => ResolutionOutcome::Unmatched {
            reason: UnmatchReason::SearchFailed,
        },
        SearchOutcome::Found(cands) => {
            let mut i: usize = 0;
            proof {
                assert(*outcome == SearchOutcome::Found(*cands));
                assert(resolve_spec(key@, *outcome) == resolve_found(cands@, key@));
                assert(cands@.skip(0) =~= cands@);
            }
            while i < cands.len()
                invariant
                    i <= cands@.len(),
                    resolve_spec(key@, *outcome) == resolve_found(cands@, key@),
                    resolve_found(cands@, key@) == resolve_found(cands@.skip(i as int), key@),
                decreases cands@.len() - i,
            {
                let ghost rest = cands@.skip(i as int);
                proof {
                    assert(rest[0] == cands@[i as int]);
                    assert(rest.drop_first() =~= cands@.skip(i + 1 as int));
                }
                if candidate_has_artist(&cands[i], key) {
                    proof {
                        assert(resolve_found(rest, key@) == (ResolutionOutcome::Matched {
                            destination_track_id: cands@[i as int].id,
                        }));
                    }
                    return ResolutionOutcome::Matched {
                        destination_track_id: cands[i].id.clone(),
                    };
                }
                i = i + 1;
            }
            proof {
                assert(cands@.skip(i as int) =~= Seq::<CandidateTrack>::empty());
            }
            ResolutionOutcome::Unmatched { reason: UnmatchReason::NoArtistMatch }
        },
    }
}

/// Classifies every track, one outcome per input, in input order.
pub fn resolve_all(queries: &Vec<SearchQuery>, results: &Vec<SearchOutcome>) -> (outcomes: Vec<
    ResolutionOutcome,
>)
    requires
        queries@.len() == results@.len(),
    ensures
        outcomes@.len() == queries@.len(),
        forall|i: int|
            0 <= i < queries@.len() ==> #[trigger] outcomes@[i] == resolve_spec(
                queries@[i].artist_key@,
                results@[i],
            ),
{
    let mut outcomes: Vec<ResolutionOutcome> = Vec::new();
    let mut i: usize = 0;
    while i < queries.len()
        invariant
            queries@.len() == results@.len(),
            i <= queries@.len(),
            outcomes@.len() == i,
            forall|j: int|
                0 <= j < i ==> #[trigger] outcomes@[j] == resolve_spec(
                    queries@[j].artist_key@,
                    results@[j],
                ),
        decreases queries@.len() - i,
    {
        let r = resolve(&queries[i].artist_key, &results[i]);
        outcomes.push(r);
        i = i + 1;
    }
    outcomes
}

/// The destination identifiers of all matched outcomes, in input order.
pub open spec fn matched_ids_spec(outcomes: Seq<ResolutionOutcome>) -> Seq<String>
    decreases outcomes.len(),
{
    if outcomes.len() == 0 {
        Seq::empty()
    } else {
        match outcomes.last() {
            ResolutionOutcome::Matched { destination_track_id } => matched_ids_spec(
                outcomes.drop_last(),
            ).push(destination_track_id),
            ResolutionOutcome::Unmatched { .. } => matched_ids_spec(outcomes.drop_last()),
        }
    }
}

/// Collects the matched identifiers, in input order.
pub fn matched_ids(outcomes: &Vec<ResolutionOutcome>) -> (ids: Vec<String>)
    ensures
        ids@ == matched_ids_spec(outcomes@),
{
    let mut ids: Vec<String> = Vec::new();
    let mut i: usize = 0;
    while i < outcomes.len()
        invariant
            i <= outcomes@.len(),
            ids@ == matched_ids_spec(outcomes@.take(i as int)),
        decreases outcomes@.len() - i,
    {
        proof {
            assert(outcomes@.take(i + 1 as int).drop_last() =~= outcomes@.take(i as int));
            assert(outcomes@.take(i + 1 as int).last() == outcomes@[i as int]);
        }
        match &outcomes[i] {
            ResolutionOutcome::Matched { destination_track_id } => {
                ids.push(destination_track_id.clone());
            },
            ResolutionOutcome::Unmatched { .. } => {},
        }
        i = i + 1;
    }
    proof {
        assert(outcomes@.take(outcomes@.len() as int) =~= outcomes@);
    }
    ids
}

/// The resolver never matches a candidate whose artist-name list does not
/// contain the artist key: a matched identifier always comes from a
/// candidate passing the membership test.
pub proof fn lemma_matched_implies_artist_membership(cands: Seq<CandidateTrack>, key: Seq<char>)
    ensures
        resolve_found(cands, key) matches ResolutionOutcome::Matched { destination_track_id }
            ==> exists|i: int|
            0 <= i < cands.len() && candidate_matches(#[trigger] cands[i], key) && cands[i].id
                == destination_track_id,
    decreases cands.len(),
{
    if cands.len() == 0 {
    } else if candidate_matches(cands[0], key) {
        assert(candidate_matches(cands[0], key) && cands[0].id == cands[0].id);
    } else {
        lemma_matched_implies_artist_membership(cands.drop_first(), key);
        match resolve_found(cands, key) {
            ResolutionOutcome::Matched { destination_track_id } => {
                let i = choose|i: int|
                    0 <= i < cands.drop_first().len() && candidate_matches(
                        #[trigger] cands.drop_first()[i],
                        key,
                    ) && cands.drop_first()[i].id == destination_track_id;
                assert(cands.drop_first()[i] == cands[i + 1]);
                assert(candidate_matches(cands[i + 1], key) && cands[i + 1].id
                    == destination_track_id);
            },
            ResolutionOutcome::Unmatched { .. } => {},
        }
    }
}

} // verus!
