//! The source export's record shape and its normalization.
//!
//! The engine consumes the export document `{ items: [ { item: { title,
//! artist: {name}, artists: [{name}], .. } } ] }`; fields the engine never
//! reads are ignored at parse time and do not appear here. Artist and title
//! text is lowercased once, at load time, so every downstream comparison is
//! case-insensitive by construction.

use vstd::prelude::*;

use crate::text::{lower_of, lowercase};

verus! {

/// The primary artist of an export record.
#[derive(Clone, Debug)]
pub struct Artist {
    pub id: i64,
    pub name: String,
    pub type_field: String,
}

/// One entry of an export record's contributing-artist list.
#[derive(Clone, Debug)]
pub struct Artist2 {
    pub id: i64,
    pub name: String,
    pub type_field: String,
}

/// The album an export record belongs to.
#[derive(Clone, Debug)]
pub struct Album {
    pub id: i64,
    pub title: String,
    pub cover: Option<String>,
    pub release_date: String,
}

/// Mix identifiers of an export record.
#[derive(Clone, Debug)]
pub struct Mixes {
    pub track_mix: Option<String>,
    pub master_track_mix: Option<String>,
}

/// The portion of one exported track record that the engine reads.
#[derive(Clone, Debug)]
pub struct TrackDetails {
    pub id: i64,
    pub title: String,
    pub duration: i64,
    pub isrc: String,
    pub artist: Artist,
    pub artists: Vec<Artist2>,
    pub album: Album,
    pub mixes: Mixes,
}

/// One item of the export document.
#[derive(Clone, Debug)]
pub struct Track {
    pub item: TrackDetails,
    pub type_field: String,
}

/// The export document: a list of track records.
#[derive(Clone, Debug)]
pub struct Tidal {
    pub limit: i64,
    pub offset: i64,
    pub total_number_of_items: i64,
    pub items: Vec<Track>,
}

/// The engine's canonical input unit: one source track with all its text
/// lowercased. `primary_artist` is always a member of `all_artist_names`.
#[derive(Clone, Debug)]
pub struct NormalizedTrack {
    /// Lowercased name of the record's primary artist, the disambiguation key.
    pub primary_artist: String,
    /// Lowercased names of all contributing artists, in record order.
    pub all_artist_names: Vec<String>,
    /// Lowercased title.
    pub title: String,
}

impl NormalizedTrack {
    /// The type's invariant: the primary artist appears among the
    /// contributing artist names.
    pub open spec fn wf(self) -> bool {
        self.all_artist_names.deep_view().contains(self.primary_artist@)
    }
}

/// The lowercased contributing-artist names of a record, in order.
pub open spec fn lowered_names(artists: Seq<Artist2>) -> Seq<Seq<char>> {
    artists.map_values(|a: Artist2| lower_of(a.name@))
}

/// The artist-name list of a normalized track: the record's lowercased
/// contributing-artist names, with the lowercased primary artist appended
/// when the record does not already list it.
pub open spec fn normalized_names(artists: Seq<Artist2>, primary: Seq<char>) -> Seq<Seq<char>> {
    if lowered_names(artists).contains(primary) {
        lowered_names(artists)
    } else {
        lowered_names(artists).push(primary)
    }
}

/// `t` is the normalization of the export record `d`.
pub open spec fn is_normalization_of(t: NormalizedTrack, d: TrackDetails) -> bool {
    &&& t.primary_artist@ == lower_of(d.artist.name@)
    &&& t.title@ == lower_of(d.title@)
    &&& t.all_artist_names.deep_view() == normalized_names(d.artists@, lower_of(d.artist.name@))
    &&& t.wf()
}

/// Whether some element of `v` has the same characters as `x`.
fn contains_string(v: &Vec<String>, x: &String) -> (b: bool)
    ensures
        b == v.deep_view().contains(x@),
{
    let mut i: usize = 0;
    while i < v.len()
        invariant
            i <= v@.len(),
            forall|j: int| 0 <= j < i ==> v.deep_view()[j] != x@,
        decreases v@.len() - i,
    {
        if v[i] == *x {
            assert(v.deep_view()[i as int] == x@);
            assert(v.deep_view().contains(x@));
            return true;
        }
        i = i + 1;
    }
    false
}

/// Normalizes one export record: lowercases its title and artist names and
/// establishes the invariant that the primary artist is listed.
pub fn normalize_track(d: &TrackDetails) -> (t: NormalizedTrack)
    ensures
        is_normalization_of(t, *d),
{
    let primary = lowercase(d.artist.name.as_str());
    let mut all: Vec<String> = Vec::new();
    let mut i: usize = 0;
    while i < d.artists.len()
        invariant
            i <= d.artists@.len(),
            all@.len() == i,
            forall|j: int| 0 <= j < i ==> #[trigger] all@[j]@ == lower_of(d.artists@[j].name@),
        decreases d.artists@.len() - i,
    {
        let lowered = lowercase(d.artists[i].name.as_str());
        all.push(lowered);
        i = i + 1;
    }
    proof {
        assert(all.deep_view() =~= lowered_names(d.artists@));
    }
    let ghost key = lower_of(d.artist.name@);
    if !contains_string(&all, &primary) {
        all.push(primary.clone());
        proof {
            assert(all.deep_view() =~= lowered_names(d.artists@).push(key));
        }
    }
    let title = lowercase(d.title.as_str());
    let t = NormalizedTrack { primary_artist: primary, all_artist_names: all, title };
    proof {
        let names = t.all_artist_names.deep_view();
        if lowered_names(d.artists@).contains(key) {
            assert(names == lowered_names(d.artists@));
        } else {
            assert(names[names.len() - 1] == t.primary_artist@);
            assert(names.contains(t.primary_artist@));
        }
        assert(t.wf());
    }
    t
}

/// Normalizes every record of an export document, in order.
pub fn load_tracks(export: &Tidal) -> (ts: Vec<NormalizedTrack>)
    ensures
        ts@.len() == export.items@.len(),
        forall|i: int|
            0 <= i < ts@.len() ==> is_normalization_of(#[trigger] ts@[i], export.items@[i].item),
{
    let mut ts: Vec<NormalizedTrack> = Vec::new();
    let mut i: usize = 0;
    while i < export.items.len()
        invariant
            i <= export.items@.len(),
            ts@.len() == i,
            forall|j: int|
                0 <= j < i ==> is_normalization_of(#[trigger] ts@[j], export.items@[j].item),
        decreases export.items@.len() - i,
    {
        let t = normalize_track(&export.items[i].item);
        ts.push(t);
        i = i + 1;
    }
    ts
}

} // verus!
