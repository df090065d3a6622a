use tidal_import::batch::BatchCommitter;
use tidal_import::catalog::{Album, Artist, Artist2, Mixes, Tidal, Track, TrackDetails};
use tidal_import::catalog::load_tracks;
use tidal_import::provider::{TidalProvider, MAX_BATCH_SIZE, SEARCH_PAGE_SIZE};
use tidal_import::query::build_queries;
use tidal_import::report::build_report;
use tidal_import::resolve::{
    matched_ids, resolve_all, CandidateTrack, SearchOutcome, UnmatchReason,
};

fn export_track(title: &str, artist: &str) -> Track {
    Track {
        item: TrackDetails {
            id: 1,
            title: title.to_string(),
            duration: 200,
            isrc: "XX0000000000".to_string(),
            artist: Artist { id: 2, name: artist.to_string(), type_field: "MAIN".to_string() },
            artists: vec![Artist2 {
                id: 2,
                name: artist.to_string(),
                type_field: "MAIN".to_string(),
            }],
            album: Album {
                id: 3,
                title: "Album".to_string(),
                cover: None,
                release_date: "2019-05-01".to_string(),
            },
            mixes: Mixes { track_mix: None, master_track_mix: None },
        },
        type_field: "track".to_string(),
    }
}

#[test]
fn provider_holds_its_configuration() {
    let p = TidalProvider::new("playlist-123".to_string(), "export.json".to_string());
    assert_eq!(p.playlist, "playlist-123");
    assert_eq!(p.file, "export.json");
    assert_eq!(MAX_BATCH_SIZE, 80);
    assert_eq!(SEARCH_PAGE_SIZE, 50);
}

#[test]
fn load_tracks_keeps_input_order() {
    let export = Tidal {
        limit: 2,
        offset: 0,
        total_number_of_items: 2,
        items: vec![export_track("One", "Ann"), export_track("Two", "Ben")],
    };
    let tracks = load_tracks(&export);
    assert_eq!(tracks.len(), 2);
    assert_eq!(tracks[0].title, "one");
    assert_eq!(tracks[1].title, "two");
}

#[test]
fn load_tracks_of_empty_export() {
    let export = Tidal { limit: 0, offset: 0, total_number_of_items: 0, items: vec![] };
    assert!(load_tracks(&export).is_empty());
}

#[test]
fn three_track_run_end_to_end() {
    // Track A resolves, track B has no artist-matching candidate, track C's
    // search call fails; with a batch size of 1 exactly one batch goes out.
    let export = Tidal {
        limit: 3,
        offset: 0,
        total_number_of_items: 3,
        items: vec![
            export_track("Alpha", "Ann"),
            export_track("Beta", "Ben"),
            export_track("Gamma", "Cara"),
        ],
    };
    let tracks = load_tracks(&export);
    let queries = build_queries(&tracks);
    assert_eq!(queries.len(), 3);
    assert_eq!(queries[0].query_text, "ann alpha");

    let results = vec![
        SearchOutcome::Found(vec![CandidateTrack {
            id: "spotify:track:alpha".to_string(),
            artist_names: vec!["Ann".to_string()],
        }]),
        SearchOutcome::Found(vec![CandidateTrack {
            id: "spotify:track:other".to_string(),
            artist_names: vec!["Somebody Else".to_string()],
        }]),
        SearchOutcome::Failed,
    ];
    let outcomes = resolve_all(&queries, &results);
    assert_eq!(outcomes.len(), 3);

    let ids = matched_ids(&outcomes);
    assert_eq!(ids, vec!["spotify:track:alpha".to_string()]);

    let mut committer = BatchCommitter::new(&ids, 1);
    assert_eq!(committer.num_batches(), 1);
    let mut sent = 0;
    loop {
        let batch = match committer.next_pending() {
            Some(b) => b.clone(),
            None => break,
        };
        assert_eq!(batch, vec!["spotify:track:alpha".to_string()]);
        committer.record_result(true, None);
        sent += 1;
    }
    assert_eq!(sent, 1);

    let report = build_report(&outcomes, committer.into_results());
    assert_eq!(report.total, 3);
    assert_eq!(report.matched, 1);
    assert_eq!(report.unmatched.len(), 2);
    assert_eq!(report.unmatched[0].index, 1);
    assert_eq!(report.unmatched[0].reason, UnmatchReason::NoArtistMatch);
    assert_eq!(report.unmatched[0].reason.text(), "no artist-matching candidate");
    assert_eq!(report.unmatched[1].index, 2);
    assert_eq!(report.unmatched[1].reason, UnmatchReason::SearchFailed);
    assert_eq!(report.unmatched[1].reason.text(), "search request failed");
    assert_eq!(report.batch_results.len(), 1);
    assert!(report.batch_results[0].success);
}

#[test]
fn report_accounts_for_every_track_even_when_all_fail() {
    let queries = build_queries(&vec![]);
    assert!(queries.is_empty());
    let outcomes = resolve_all(
        &build_queries(&load_tracks(&Tidal {
            limit: 2,
            offset: 0,
            total_number_of_items: 2,
            items: vec![export_track("One", "Ann"), export_track("Two", "Ben")],
        })),
        &vec![SearchOutcome::Failed, SearchOutcome::Failed],
    );
    let ids = matched_ids(&outcomes);
    assert!(ids.is_empty());
    let committer = BatchCommitter::new(&ids, MAX_BATCH_SIZE);
    assert_eq!(committer.num_batches(), 0);
    let report = build_report(&outcomes, committer.into_results());
    assert_eq!(report.total, 2);
    assert_eq!(report.matched, 0);
    assert_eq!(report.unmatched.len(), 2);
    assert!(report.batch_results.is_empty());
}
