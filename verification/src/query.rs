//! Building search queries from normalized tracks.
//!
//! The query text is the space-joined artist names followed by the title,
//! sanitized by stripping the feature annotation pattern `"(feat. "` and every
//! closing parenthesis until none remains: the destination catalog search
//! degrades when such annotations are present verbatim.

use vstd::prelude::*;

use crate::catalog::NormalizedTrack;

verus! {

/// The feature annotation opener that sanitization strips.
pub open spec fn feat_pattern() -> Seq<char> {
    seq!['(', 'f', 'e', 'a', 't', '.', ' ']
}

/// Removes every leftmost, non-overlapping occurrence of `p` from `s`,
/// scanning left to right.
pub open spec fn strip_pattern(s: Seq<char>, p: Seq<char>) -> Seq<char>
    decreases s.len(),
{
    if p.len() == 0 || s.len() == 0 {
        s
    } else if s.len() >= p.len() && s.subrange(0, p.len() as int) == p {
        strip_pattern(s.skip(p.len() as int), p)
    } else {
        seq![s[0]] + strip_pattern(s.drop_first(), p)
    }
}

/// Removes every occurrence of the character `c` from `s`.
pub open spec fn strip_char(s: Seq<char>, c: char) -> Seq<char>
    decreases s.len(),
{
    if s.len() == 0 {
        s
    } else if s[0] == c {
        strip_char(s.drop_first(), c)
    } else {
        seq![s[0]] + strip_char(s.drop_first(), c)
    }
}

/// One sanitization pass: every `"(feat. "` occurrence goes, then every
/// `')'`.
pub open spec fn sanitize_pass(s: Seq<char>) -> Seq<char> {
    strip_char(strip_pattern(s, feat_pattern()), ')')
}

/// What sanitization yields: passes are repeated until nothing changes.
/// A single pass does not suffice, since removing a `')'` can splice a fresh
/// annotation opener together (as in `"(feat.) x"`); iterating to a fixed
/// point guarantees that neither an opener nor a `')'` survives.
pub open spec fn sanitize_spec(s: Seq<char>) -> Seq<char>
    decreases s.len(),
    via sanitize_spec_decreases
{
    if sanitize_pass(s) == s {
        s
    } else {
        sanitize_spec(sanitize_pass(s))
    }
}

#[via_fn]
proof fn sanitize_spec_decreases(s: Seq<char>) {
    lemma_pass_shrinks(s);
}

/// The pattern `p` occurs in `s` starting at position `i`.
pub open spec fn contains_at(s: Seq<char>, p: Seq<char>, i: int) -> bool {
    0 <= i && i + p.len() <= s.len() && s.subrange(i, i + p.len() as int) == p
}

/// The pattern `p` occurs somewhere in `s`.
pub open spec fn has_occurrence(s: Seq<char>, p: Seq<char>) -> bool {
    exists|i: int| contains_at(s, p, i)
}

/// A query text is in sanitized form when no feature annotation opener and no
/// closing parenthesis remains in it.
pub open spec fn is_sanitized(s: Seq<char>) -> bool {
    &&& !has_occurrence(s, feat_pattern())
    &&& forall|i: int| 0 <= i < s.len() ==> s[i] != ')'
}

/// The characters of `s`, as a vector.
fn chars_vec(s: &str) -> (v: Vec<char>)
    ensures
        v@ == s@,
{
    let n = s.unicode_len();
    let mut v: Vec<char> = Vec::new();
    let mut i: usize = 0;
    while i < n
        invariant
            n == s@.len(),
            i <= n,
            v@ == s@.subrange(0, i as int),
        decreases n - i,
    {
        let c = s.get_char(i);
        v.push(c);
        proof {
            assert(v@ =~= s@.subrange(0, i + 1 as int));
        }
        i = i + 1;
    }
    proof {
        assert(v@ =~= s@);
    }
    v
}

/// A string holding exactly the characters of `cs`.
fn string_of_chars(cs: &Vec<char>) -> (r: String)
    ensures
        r@ == cs@,
{
    let mut r = String::new();
    let mut i: usize = 0;
    while i < cs.len()
        invariant
            i <= cs@.len(),
            r@ == cs@.subrange(0, i as int),
        decreases cs@.len() - i,
    {
        crate::text::push_char(&mut r, cs[i]);
        proof {
            assert(r@ =~= cs@.subrange(0, i + 1 as int));
        }
        i = i + 1;
    }
    proof {
        assert(r@ =~= cs@);
    }
    r
}

/// Whether the feature pattern starts at position `i` of `s`.
fn matches_feat_at(s: &Vec<char>, i: usize) -> (b: bool)
    requires
        i <= s@.len(),
    ensures
        b == contains_at(s@, feat_pattern(), i as int),
{
    if s.len() - i < 7 {
        return false;
    }
    let hit = s[i] == '(' && s[i + 1] == 'f' && s[i + 2] == 'e' && s[i + 3] == 'a' && s[i + 4]
        == 't' && s[i + 5] == '.' && s[i + 6] == ' ';
    proof {
        if hit {
            assert(s@.subrange(i as int, i + 7 as int) =~= feat_pattern());
        } else {
            if s@.subrange(i as int, i + feat_pattern().len() as int) == feat_pattern() {
                assert(s@[i as int] == feat_pattern()[0]);
                assert(s@[i + 1 as int] == feat_pattern()[1]);
                assert(s@[i + 2 as int] == feat_pattern()[2]);
                assert(s@[i + 3 as int] == feat_pattern()[3]);
                assert(s@[i + 4 as int] == feat_pattern()[4]);
                assert(s@[i + 5 as int] == feat_pattern()[5]);
                assert(s@[i + 6 as int] == feat_pattern()[6]);
                assert(false);
            }
        }
    }
    hit
}

/// One pass removing every `"(feat. "` occurrence, left to right.
fn strip_feat_chars(s: &Vec<char>) -> (r: Vec<char>)
    ensures
        r@ == strip_pattern(s@, feat_pattern()),
{
    let mut out: Vec<char> = Vec::new();
    let mut i: usize = 0;
    proof {
        assert(s@.skip(0) =~= s@);
        assert(out@ + strip_pattern(s@.skip(0), feat_pattern()) =~= strip_pattern(
            s@,
            feat_pattern(),
        ));
    }
    while i < s.len()
        invariant
            i <= s@.len(),
            strip_pattern(s@, feat_pattern()) == out@ + strip_pattern(
                s@.skip(i as int),
                feat_pattern(),
            ),
        decreases s@.len() - i,
    {
        let ghost rest = s@.skip(i as int);
        if matches_feat_at(s, i) {
            proof {
                assert(rest.subrange(0, feat_pattern().len() as int) =~= s@.subrange(
                    i as int,
                    i + 7 as int,
                ));
                assert(rest.skip(feat_pattern().len() as int) =~= s@.skip(i + 7 as int));
                assert(strip_pattern(rest, feat_pattern()) == strip_pattern(
                    s@.skip(i + 7 as int),
                    feat_pattern(),
                ));
            }
            i = i + 7;
        } else {
            let ghost out0 = out@;
            out.push(s[i]);
            proof {
                if rest.len() >= feat_pattern().len() {
                    assert(rest.subrange(0, feat_pattern().len() as int) =~= s@.subrange(
                        i as int,
                        i + 7 as int,
                    ));
                    assert(rest.subrange(0, feat_pattern().len() as int) != feat_pattern());
                }
                assert(rest[0] == s@[i as int]);
                assert(rest.drop_first() =~= s@.skip(i + 1 as int));
                assert(strip_pattern(rest, feat_pattern()) == seq![s@[i as int]] + strip_pattern(
                    s@.skip(i + 1 as int),
                    feat_pattern(),
                ));
                assert(out@ + strip_pattern(s@.skip(i + 1 as int), feat_pattern()) =~= out0 + (
                seq![s@[i as int]] + strip_pattern(s@.skip(i + 1 as int), feat_pattern())));
            }
            i = i + 1;
        }
    }
    proof {
        assert(s@.skip(i as int) =~= Seq::<char>::empty());
        assert(strip_pattern(Seq::<char>::empty(), feat_pattern()) =~= Seq::<char>::empty());
        assert(out@ =~= out@ + Seq::<char>::empty());
    }
    out
}

/// One pass removing every occurrence of `c`.
fn strip_char_chars(s: &Vec<char>, c: char) -> (r: Vec<char>)
    ensures
        r@ == strip_char(s@, c),
{
    let mut out: Vec<char> = Vec::new();
    let mut i: usize = 0;
    proof {
        assert(s@.skip(0) =~= s@);
        assert(out@ + strip_char(s@.skip(0), c) =~= strip_char(s@, c));
    }
    while i < s.len()
        invariant
            i <= s@.len(),
            strip_char(s@, c) == out@ + strip_char(s@.skip(i as int), c),
        decreases s@.len() - i,
    {
        let ghost rest = s@.skip(i as int);
        proof {
            assert(rest[0] == s@[i as int]);
            assert(rest.drop_first() =~= s@.skip(i + 1 as int));
        }
        if s[i] != c {
            let ghost out0 = out@;
            out.push(s[i]);
            proof {
                assert(strip_char(rest, c) == seq![s@[i as int]] + strip_char(
                    s@.skip(i + 1 as int),
                    c,
                ));
                assert(out@ + strip_char(s@.skip(i + 1 as int), c) =~= out0 + (seq![s@[i as int]]
                    + strip_char(s@.skip(i + 1 as int), c)));
            }
        } else {
            proof {
                assert(strip_char(rest, c) == strip_char(s@.skip(i + 1 as int), c));
            }
        }
        i = i + 1;
    }
    proof {
        assert(s@.skip(i as int) =~= Seq::<char>::empty());
        assert(strip_char(Seq::<char>::empty(), c) =~= Seq::<char>::empty());
        assert(out@ =~= out@ + Seq::<char>::empty());
    }
    out
}

/// If `p` does not occur in `s`, stripping `p` leaves `s` unchanged.
pub proof fn lemma_strip_pattern_absent(s: Seq<char>, p: Seq<char>)
    requires
        p.len() > 0,
        !has_occurrence(s, p),
    ensures
        strip_pattern(s, p) == s,
    decreases s.len(),
{
    if s.len() == 0 {
    } else {
        assert(!contains_at(s, p, 0));
        assert forall|i: int| !contains_at(s.drop_first(), p, i) by {
            if contains_at(s.drop_first(), p, i) {
                assert(s.drop_first().subrange(i, i + p.len() as int) =~= s.subrange(
                    i + 1,
                    i + 1 + p.len() as int,
                ));
                assert(contains_at(s, p, i + 1));
            }
        }
        lemma_strip_pattern_absent(s.drop_first(), p);
        assert(seq![s[0]] + s.drop_first() =~= s);
    }
}

/// Stripping a character that does not occur leaves `s` unchanged.
pub proof fn lemma_strip_char_absent(s: Seq<char>, c: char)
    requires
        forall|i: int| 0 <= i < s.len() ==> s[i] != c,
    ensures
        strip_char(s, c) == s,
    decreases s.len(),
{
    if s.len() == 0 {
    } else {
        assert forall|i: int| 0 <= i < s.drop_first().len() implies s.drop_first()[i] != c by {
            assert(s.drop_first()[i] == s[i + 1]);
        }
        lemma_strip_char_absent(s.drop_first(), c);
        assert(seq![s[0]] + s.drop_first() =~= s);
    }
}

/// Stripping a pattern never lengthens the text, and a result of unchanged
/// length is the text itself.
proof fn lemma_strip_pattern_len(s: Seq<char>, p: Seq<char>)
    requires
        p.len() > 0,
    ensures
        strip_pattern(s, p).len() <= s.len(),
        strip_pattern(s, p).len() == s.len() ==> strip_pattern(s, p) == s,
    decreases s.len(),
{
    if s.len() == 0 {
    } else if s.len() >= p.len() && s.subrange(0, p.len() as int) == p {
        lemma_strip_pattern_len(s.skip(p.len() as int), p);
    } else {
        lemma_strip_pattern_len(s.drop_first(), p);
        if strip_pattern(s, p).len() == s.len() {
            assert(strip_pattern(s.drop_first(), p) == s.drop_first());
            assert(seq![s[0]] + s.drop_first() =~= s);
        }
    }
}

/// Stripping a character never lengthens the text, and a result of unchanged
/// length is the text itself.
proof fn lemma_strip_char_len(s: Seq<char>, c: char)
    ensures
        strip_char(s, c).len() <= s.len(),
        strip_char(s, c).len() == s.len() ==> strip_char(s, c) == s,
    decreases s.len(),
{
    if s.len() == 0 {
    } else {
        lemma_strip_char_len(s.drop_first(), c);
        if s[0] != c && strip_char(s, c).len() == s.len() {
            assert(strip_char(s.drop_first(), c) == s.drop_first());
            assert(seq![s[0]] + s.drop_first() =~= s);
        }
    }
}

/// A pass never lengthens the text, and strictly shortens it whenever it
/// changes anything.
proof fn lemma_pass_shrinks(s: Seq<char>)
    ensures
        sanitize_pass(s).len() <= s.len(),
        sanitize_pass(s) != s ==> sanitize_pass(s).len() < s.len(),
{
    lemma_strip_pattern_len(s, feat_pattern());
    lemma_strip_char_len(strip_pattern(s, feat_pattern()), ')');
    if sanitize_pass(s).len() == s.len() {
        assert(strip_pattern(s, feat_pattern()) == s);
        assert(sanitize_pass(s) == s);
    }
}

/// Stripping a pattern that does occur strictly shortens the text.
proof fn lemma_strip_pattern_occurrence_shrinks(s: Seq<char>, p: Seq<char>)
    requires
        p.len() > 0,
        has_occurrence(s, p),
    ensures
        strip_pattern(s, p).len() < s.len(),
    decreases s.len(),
{
    let i = choose|i: int| contains_at(s, p, i);
    if s.len() >= p.len() && s.subrange(0, p.len() as int) == p {
        lemma_strip_pattern_len(s.skip(p.len() as int), p);
    } else {
        assert(i >= 1);
        assert(contains_at(s.drop_first(), p, i - 1)) by {
            assert(s.drop_first().subrange(i - 1, i - 1 + p.len() as int) =~= s.subrange(
                i,
                i + p.len() as int,
            ));
        }
        lemma_strip_pattern_occurrence_shrinks(s.drop_first(), p);
    }
}

/// Stripping a character that does occur strictly shortens the text.
proof fn lemma_strip_char_shrinks(s: Seq<char>, c: char)
    requires
        exists|i: int| 0 <= i < s.len() && s[i] == c,
    ensures
        strip_char(s, c).len() < s.len(),
    decreases s.len(),
{
    let i = choose|i: int| 0 <= i < s.len() && s[i] == c;
    if s[0] == c {
        lemma_strip_char_len(s.drop_first(), c);
    } else {
        assert(i >= 1);
        assert(s.drop_first()[i - 1] == c);
        lemma_strip_char_shrinks(s.drop_first(), c);
    }
}

/// A fixed point of one pass carries no annotation opener and no `')'`.
proof fn lemma_pass_fixed_point_is_sanitized(s: Seq<char>)
    requires
        sanitize_pass(s) == s,
    ensures
        is_sanitized(s),
{
    lemma_strip_pattern_len(s, feat_pattern());
    lemma_strip_char_len(strip_pattern(s, feat_pattern()), ')');
    assert(strip_pattern(s, feat_pattern()) == s);
    assert(strip_char(s, ')') == s);
    if has_occurrence(s, feat_pattern()) {
        lemma_strip_pattern_occurrence_shrinks(s, feat_pattern());
        assert(false);
    }
    if exists|i: int| 0 <= i < s.len() && s[i] == ')' {
        lemma_strip_char_shrinks(s, ')');
        assert(false);
    }
}

/// Sanitization always yields sanitized text: no `"(feat. "` occurrence and
/// no `')'` remains in the result.
pub proof fn lemma_sanitize_is_sanitized(s: Seq<char>)
    ensures
        is_sanitized(sanitize_spec(s)),
    decreases s.len(),
{
    if sanitize_pass(s) == s {
        lemma_pass_fixed_point_is_sanitized(s);
    } else {
        lemma_pass_shrinks(s);
        lemma_sanitize_is_sanitized(sanitize_pass(s));
    }
}

/// A text already in sanitized form is a fixed point of sanitization.
pub proof fn lemma_sanitize_fixed_point(s: Seq<char>)
    requires
        is_sanitized(s),
    ensures
        sanitize_spec(s) == s,
{
    lemma_strip_pattern_absent(s, feat_pattern());
    lemma_strip_char_absent(s, ')');
    assert(sanitize_pass(s) == s);
}

/// Sanitization is idempotent: sanitizing an already-sanitized query text
/// yields the same text.
pub proof fn lemma_sanitize_idempotent(s: Seq<char>)
    ensures
        sanitize_spec(sanitize_spec(s)) == sanitize_spec(s),
{
    lemma_sanitize_is_sanitized(s);
    lemma_sanitize_fixed_point(sanitize_spec(s));
}

/// Whether two character vectors hold the same characters.
fn vecs_equal(a: &Vec<char>, b: &Vec<char>) -> (r: bool)
    ensures
        r == (a@ == b@),
{
    if a.len() != b.len() {
        return false;
    }
    let mut i: usize = 0;
    while i < a.len()
        invariant
            a@.len() == b@.len(),
            i <= a@.len(),
            forall|j: int| 0 <= j < i ==> a@[j] == b@[j],
        decreases a@.len() - i,
    {
        if a[i] != b[i] {
            return false;
        }
        i = i + 1;
    }
    proof {
        assert(a@ =~= b@);
    }
    true
}

/// Strips feature annotations from a query text: passes removing every
/// `"(feat. "` occurrence and then every `')'` are repeated until nothing
/// changes, so the result is always in sanitized form.
pub fn sanitize_query(query: String) -> (r: String)
    ensures
        r@ == sanitize_spec(query@),
        is_sanitized(r@),
{
    let mut cur = chars_vec(query.as_str());
    let mut done = false;
    while !done
        invariant
            sanitize_spec(query@) == sanitize_spec(cur@),
            done ==> sanitize_pass(cur@) == cur@,
        decreases cur@.len() as int + (if done {
            0int
        } else {
            1int
        }),
    {
        let stripped = strip_feat_chars(&cur);
        let next = strip_char_chars(&stripped, ')');
        if vecs_equal(&next, &cur) {
            done = true;
        } else {
            proof {
                lemma_pass_shrinks(cur@);
                assert(sanitize_spec(cur@) == sanitize_spec(next@));
            }
            cur = next;
        }
    }
    proof {
        assert(sanitize_spec(cur@) == cur@);
        lemma_sanitize_is_sanitized(query@);
    }
    string_of_chars(&cur)
}

/// One search request derived from a normalized track.
#[derive(Clone, Debug)]
pub struct SearchQuery {
    /// The track's primary artist, the disambiguation key; sanitization never
    /// touches it.
    pub artist_key: String,
    /// Sanitized join of all artist names and the title.
    pub query_text: String,
}

/// The names joined with single spaces: `"a b c"` for `[a, b, c]`.
pub open spec fn joined_with_spaces(names: Seq<Seq<char>>) -> Seq<char>
    decreases names.len(),
{
    if names.len() == 0 {
        Seq::empty()
    } else if names.len() == 1 {
        names[0]
    } else {
        joined_with_spaces(names.drop_last()) + seq![' '] + names.last()
    }
}

/// The query text before sanitization: all artist names joined with spaces,
/// a space, then the title.
pub open spec fn raw_query_text(names: Seq<Seq<char>>, title: Seq<char>) -> Seq<char> {
    joined_with_spaces(names) + seq![' '] + title
}

/// The query text a track yields: its raw query text, sanitized.
pub open spec fn query_text_spec(names: Seq<Seq<char>>, title: Seq<char>) -> Seq<char> {
    sanitize_spec(raw_query_text(names, title))
}

/// Builds the search query of one normalized track.
pub fn build_query(track: &NormalizedTrack) -> (q: SearchQuery)
    ensures
        q.artist_key@ == track.primary_artist@,
        q.query_text@ == query_text_spec(track.all_artist_names.deep_view(), track.title@),
{
    let ghost names = track.all_artist_names.deep_view();
    let mut text = String::new();
    let mut i: usize = 0;
    while i < track.all_artist_names.len()
        invariant
            i <= names.len(),
            names == track.all_artist_names.deep_view(),
            text@ == joined_with_spaces(names.take(i as int)),
        decreases names.len() - i,
    {
        if i > 0 {
            text.append(" ");
        }
        text.append(track.all_artist_names[i].as_str());
        proof {
            reveal_strlit(" ");
            assert(" "@ =~= seq![' ']);
            assert(names.take(i + 1 as int).drop_last() =~= names.take(i as int));
            assert(names.take(i + 1 as int).last() == names[i as int]);
            if i == 0 {
                assert(text@ == names[0]);
                assert(joined_with_spaces(names.take(1)) == names.take(1)[0]);
            }
        }
        i = i + 1;
    }
    proof {
        assert(names.take(names.len() as int) =~= names);
    }
    text.append(" ");
    text.append(track.title.as_str());
    proof {
        reveal_strlit(" ");
        assert(" "@ =~= seq![' ']);
        assert(text@ == raw_query_text(names, track.title@));
    }
    let query_text = sanitize_query(text);
    SearchQuery { artist_key: track.primary_artist.clone(), query_text }
}

/// Builds one search query per track, preserving order.
pub fn build_queries(tracks: &Vec<NormalizedTrack>) -> (qs: Vec<SearchQuery>)
    ensures
        qs@.len() == tracks@.len(),
        forall|i: int|
            0 <= i < tracks@.len() ==> {
                &&& (#[trigger] qs@[i]).artist_key@ == tracks@[i].primary_artist@
                &&& qs@[i].query_text@ == query_text_spec(
                    tracks@[i].all_artist_names.deep_view(),
                    tracks@[i].title@,
                )
            },
{
    let mut qs: Vec<SearchQuery> = Vec::new();
    let mut i: usize = 0;
    while i < tracks.len()
        invariant
            i <= tracks@.len(),
            qs@.len() == i,
            forall|j: int|
                0 <= j < i ==> {
                    &&& (#[trigger] qs@[j]).artist_key@ == tracks@[j].primary_artist@
                    &&& qs@[j].query_text@ == query_text_spec(
                        tracks@[j].all_artist_names.deep_view(),
                        tracks@[j].title@,
                    )
                },
        decreases tracks@.len() - i,
    {
        let q = build_query(&tracks[i]);
        qs.push(q);
        i = i + 1;
    }
    qs
}

} // verus!
