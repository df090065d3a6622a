use tidal_import::query::SearchQuery;
use tidal_import::resolve::{
    matched_ids, resolve, resolve_all, CandidateTrack, ResolutionOutcome, SearchOutcome,
    UnmatchReason,
};

fn candidate(id: &str, artists: &[&str]) -> CandidateTrack {
    CandidateTrack {
        id: id.to_string(),
        artist_names: artists.iter().map(|a| a.to_string()).collect(),
    }
}

fn query(key: &str) -> SearchQuery {
    SearchQuery { artist_key: key.to_string(), query_text: format!("{} some title", key) }
}

#[test]
fn resolve_matches_case_insensitively() {
    let key = "metallica".to_string();
    let outcome = SearchOutcome::Found(vec![candidate("spotify:track:1", &["METALLICA"])]);
    let r = resolve(&key, &outcome);
    assert_eq!(r, ResolutionOutcome::Matched { destination_track_id: "spotify:track:1".to_string() });
}

#[test]
fn resolve_takes_first_candidate_in_ranking_order() {
    let key = "ab".to_string();
    let outcome = SearchOutcome::Found(vec![
        candidate("first-no", &["someone else"]),
        candidate("second-yes", &["guest", "ab"]),
        candidate("third-yes", &["ab"]),
    ]);
    let r = resolve(&key, &outcome);
    assert_eq!(r, ResolutionOutcome::Matched { destination_track_id: "second-yes".to_string() });
}

#[test]
fn resolve_rejects_candidates_without_artist_membership() {
    let key = "the artist".to_string();
    let outcome = SearchOutcome::Found(vec![
        candidate("a", &["the artist tribute band"]),
        candidate("b", &["another one"]),
    ]);
    let r = resolve(&key, &outcome);
    assert_eq!(r, ResolutionOutcome::Unmatched { reason: UnmatchReason::NoArtistMatch });
}

#[test]
fn resolve_with_no_candidates_is_unmatched() {
    let key = "anyone".to_string();
    let r = resolve(&key, &SearchOutcome::Found(vec![]));
    assert_eq!(r, ResolutionOutcome::Unmatched { reason: UnmatchReason::NoArtistMatch });
}

#[test]
fn resolve_absorbs_search_failure() {
    let key = "anyone".to_string();
    let r = resolve(&key, &SearchOutcome::Failed);
    assert_eq!(r, ResolutionOutcome::Unmatched { reason: UnmatchReason::SearchFailed });
}

#[test]
fn unmatch_reason_texts_are_exact() {
    assert_eq!(UnmatchReason::SearchFailed.text(), "search request failed");
    assert_eq!(UnmatchReason::NoArtistMatch.text(), "no artist-matching candidate");
}

#[test]
fn resolve_all_yields_one_outcome_per_input_in_order() {
    let queries = vec![query("a"), query("b"), query("c")];
    let results = vec![
        SearchOutcome::Found(vec![candidate("id-a", &["A"])]),
        SearchOutcome::Failed,
        SearchOutcome::Found(vec![candidate("id-c", &["c"])]),
    ];
    let outcomes = resolve_all(&queries, &results);
    assert_eq!(outcomes.len(), queries.len());
    assert_eq!(
        outcomes[0],
        ResolutionOutcome::Matched { destination_track_id: "id-a".to_string() }
    );
    assert_eq!(outcomes[1], ResolutionOutcome::Unmatched { reason: UnmatchReason::SearchFailed });
    assert_eq!(
        outcomes[2],
        ResolutionOutcome::Matched { destination_track_id: "id-c".to_string() }
    );
}

#[test]
fn resolve_all_of_empty_input_is_empty() {
    let outcomes = resolve_all(&vec![], &vec![]);
    assert!(outcomes.is_empty());
}

#[test]
fn matched_ids_keeps_input_order_and_drops_unmatched() {
    let outcomes = vec![
        ResolutionOutcome::Matched { destination_track_id: "one".to_string() },
        ResolutionOutcome::Unmatched { reason: UnmatchReason::SearchFailed },
        ResolutionOutcome::Matched { destination_track_id: "two".to_string() },
        ResolutionOutcome::Unmatched { reason: UnmatchReason::NoArtistMatch },
    ];
    assert_eq!(matched_ids(&outcomes), vec!["one".to_string(), "two".to_string()]);
}
