use tidal_import::catalog::{Album, Artist, Artist2, Mixes, NormalizedTrack, TrackDetails};
use tidal_import::catalog::normalize_track;
use tidal_import::query::{build_query, sanitize_query};

fn details(title: &str, primary: &str, others: &[&str]) -> TrackDetails {
    TrackDetails {
        id: 1,
        title: title.to_string(),
        duration: 240,
        isrc: "XX0000000000".to_string(),
        artist: Artist { id: 10, name: primary.to_string(), type_field: "MAIN".to_string() },
        artists: others
            .iter()
            .enumerate()
            .map(|(i, n)| Artist2 {
                id: 20 + i as i64,
                name: n.to_string(),
                type_field: "MAIN".to_string(),
            })
            .collect(),
        album: Album {
            id: 30,
            title: "An Album".to_string(),
            cover: None,
            release_date: "2020-01-01".to_string(),
        },
        mixes: Mixes { track_mix: None, master_track_mix: None },
    }
}

#[test]
fn sanitize_removes_feature_annotation() {
    let out = sanitize_query("demolisher (feat. x)".to_string());
    assert_eq!(out, "demolisher x");
}

#[test]
fn sanitize_removes_every_closing_parenthesis() {
    let out = sanitize_query("a) b (feat. c) d)".to_string());
    assert_eq!(out, "a b c d");
    let again = sanitize_query(out);
    assert_eq!(again, "a b c d");
}

#[test]
fn sanitize_strips_spliced_annotation_opener() {
    // Removing the closing parenthesis of "(feat.)" splices a fresh opener
    // together; stripping repeats until none remains, so one call suffices
    // and a second call changes nothing.
    let once = sanitize_query("x (feat.) y".to_string());
    assert_eq!(once, "x y");
    let twice = sanitize_query(once.clone());
    assert_eq!(twice, once);
}

#[test]
fn sanitize_leaves_clean_text_alone() {
    let out = sanitize_query("slaughter to prevail demolisher".to_string());
    assert_eq!(out, "slaughter to prevail demolisher");
}

#[test]
fn sanitize_is_idempotent_on_ordinary_text() {
    let once = sanitize_query("a (feat. b) c".to_string());
    let twice = sanitize_query(once.clone());
    assert_eq!(once, twice);
    assert_eq!(once, "a b c");
}

#[test]
fn sanitize_empty_text() {
    assert_eq!(sanitize_query(String::new()), "");
}

#[test]
fn query_text_for_feature_annotated_title() {
    let d = details("Demolisher (feat. X)", "Slaughter to Prevail", &["Slaughter to Prevail"]);
    let track = normalize_track(&d);
    let q = build_query(&track);
    assert_eq!(q.query_text, "slaughter to prevail demolisher x");
    assert_eq!(q.artist_key, "slaughter to prevail");
}

#[test]
fn query_text_joins_all_artists_then_title() {
    let d = details("Duet", "First Artist", &["First Artist", "Second Artist"]);
    let track = normalize_track(&d);
    let q = build_query(&track);
    assert_eq!(q.query_text, "first artist second artist duet");
    assert_eq!(q.artist_key, "first artist");
}

#[test]
fn query_text_with_no_listed_artists_uses_appended_primary() {
    let d = details("Solo", "Only One", &[]);
    let track = normalize_track(&d);
    assert_eq!(track.all_artist_names, vec!["only one".to_string()]);
    let q = build_query(&track);
    assert_eq!(q.query_text, "only one solo");
}

#[test]
fn normalize_lowercases_and_keeps_listed_primary() {
    let d = details("TITLE", "ARTIST", &["ARTIST", "Guest"]);
    let t: NormalizedTrack = normalize_track(&d);
    assert_eq!(t.primary_artist, "artist");
    assert_eq!(t.title, "title");
    assert_eq!(t.all_artist_names, vec!["artist".to_string(), "guest".to_string()]);
}

#[test]
fn normalize_appends_missing_primary() {
    let d = details("Title", "Lead", &["Guest A", "Guest B"]);
    let t = normalize_track(&d);
    assert_eq!(
        t.all_artist_names,
        vec!["guest a".to_string(), "guest b".to_string(), "lead".to_string()]
    );
    assert!(t.all_artist_names.contains(&t.primary_artist));
}
