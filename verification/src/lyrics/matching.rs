//! Matching provider records against the playing track: metadata
//! normalisation and the choice of the best synchronised record.
use vstd::prelude::*;

use crate::lyrics::lrc::{parse_lrc_spec, Entry};
use crate::lyrics::{lines_view, parse_lrc, LyricLine};
use crate::text::{
    chars_of, contains_chars, contains_seq, is_alphanumeric, lemma_trim_end_len, push_char,
    rfind_char, rfind_char_in, spec_is_alphanumeric, is_white_space, spec_to_lowercase,
    string_of, to_lowercase, trim, trim_bounds, trim_end, trim_end_index, trim_start,
};

verus! {

// ---------------------------------------------------------------------------
// Metadata annotations such as "(Remastered 2024)" or "[Live]".
// ---------------------------------------------------------------------------

/// The words that mark a bracketed annotation as release metadata.
pub open spec fn metadata_word_spec(k: int) -> Seq<char> {
    if k == 0 {
        "acoustic"@
    } else if k == 1 {
        "bonus"@
    } else if k == 2 {
        "demo"@
    } else if k == 3 {
        "deluxe"@
    } else if k == 4 {
        "edit"@
    } else if k == 5 {
        "explicit"@
    } else if k == 6 {
        "instrumental"@
    } else if k == 7 {
        "live"@
    } else if k == 8 {
        "mix"@
    } else if k == 9 {
        "mono"@
    } else if k == 10 {
        "official"@
    } else if k == 11 {
        "radio"@
    } else if k == 12 {
        "remaster"@
    } else if k == 13 {
        "remastered"@
    } else if k == 14 {
        "slowed"@
    } else if k == 15 {
        "sped up"@
    } else if k == 16 {
        "stereo"@
    } else {
        "version"@
    }
}

/// How many metadata words there are.
pub open spec fn metadata_word_count() -> int {
    18
}

fn metadata_word(k: usize) -> (w: &'static str)
    requires
        k < 18,
    ensures
        w@ == metadata_word_spec(k as int),
{
    if k == 0 {
        "acoustic"
    } else if k == 1 {
        "bonus"
    } else if k == 2 {
        "demo"
    } else if k == 3 {
        "deluxe"
    } else if k == 4 {
        "edit"
    } else if k == 5 {
        "explicit"
    } else if k == 6 {
        "instrumental"
    } else if k == 7 {
        "live"
    } else if k == 8 {
        "mix"
    } else if k == 9 {
        "mono"
    } else if k == 10 {
        "official"
    } else if k == 11 {
        "radio"
    } else if k == 12 {
        "remaster"
    } else if k == 13 {
        "remastered"
    } else if k == 14 {
        "slowed"
    } else if k == 15 {
        "sped up"
    } else if k == 16 {
        "stereo"
    } else {
        "version"
    }
}

/// Whether an annotation is release metadata: its trimmed, lower-cased text
/// contains one of the metadata words.
pub open spec fn is_metadata_suffix_spec(value: Seq<char>) -> bool {
    let v = spec_to_lowercase(trim(value));
    exists|k: int| 0 <= k < metadata_word_count() && contains_seq(v, #[trigger] metadata_word_spec(k))
}

/// Whether the annotation `v[lo..hi]` is release metadata.
fn is_metadata_suffix(v: &Vec<char>, lo: usize, hi: usize) -> (r: bool)
    requires
        lo <= hi <= v@.len(),
    ensures
        r == is_metadata_suffix_spec(v@.subrange(lo as int, hi as int)),
{
    let (a, b) = trim_bounds(v, lo, hi);
    let t = string_of(v, a, b);
    let lower = to_lowercase(t.as_str());
    let lc = chars_of(lower.as_str());
    let mut k: usize = 0;
    while k < 18
        invariant
            k <= 18,
            lc@ == spec_to_lowercase(trim(v@.subrange(lo as int, hi as int))),
            forall|j: int| 0 <= j < k ==> !contains_seq(lc@, #[trigger] metadata_word_spec(j)),
        decreases 18 - k,
    {
        let w = chars_of(metadata_word(k));
        if contains_chars(&lc, &w) {
            return true;
        }
        k = k + 1;
    }
    false
}

/// The openings of a featured-artist credit.
pub open spec fn featuring_prefix_spec(k: int) -> Seq<char> {
    if k == 0 {
        "feat."@
    } else if k == 1 {
        "feat "@
    } else if k == 2 {
        "ft."@
    } else if k == 3 {
        "ft "@
    } else {
        "featuring "@
    }
}

/// How many featured-artist openings there are.
pub open spec fn featuring_prefix_count() -> int {
    5
}

fn featuring_prefix(k: usize) -> (w: &'static str)
    requires
        k < 5,
    ensures
        w@ == featuring_prefix_spec(k as int),
{
    if k == 0 {
        "feat."
    } else if k == 1 {
        "feat "
    } else if k == 2 {
        "ft."
    } else if k == 3 {
        "ft "
    } else {
        "featuring "
    }
}

/// Whether `s` begins with `p`.
pub open spec fn starts_with_seq(s: Seq<char>, p: Seq<char>) -> bool {
    p.len() <= s.len() && s.take(p.len() as int) == p
}

/// Whether an annotation credits a featured artist: its trimmed,
/// lower-cased text begins with `feat.`, `feat `, `ft.`, `ft ` or
/// `featuring `.
pub open spec fn is_featuring_spec(value: Seq<char>) -> bool {
    let v = spec_to_lowercase(trim(value));
    exists|k: int| 0 <= k < featuring_prefix_count() && starts_with_seq(v, #[trigger] featuring_prefix_spec(k))
}

/// Whether `v` begins with `p`.
fn starts_with_chars(v: &Vec<char>, p: &Vec<char>) -> (r: bool)
    ensures
        r == starts_with_seq(v@, p@),
{
    if p.len() > v.len() {
        return false;
    }
    let mut i: usize = 0;
    while i < p.len()
        invariant
            p@.len() <= v@.len(),
            i <= p@.len(),
            forall|j: int| 0 <= j < i ==> v@[j] == p@[j],
        decreases p@.len() - i,
    {
        if v[i] != p[i] {
            assert(v@.take(p@.len() as int)[i as int] != p@[i as int]);
            return false;
        }
        i = i + 1;
    }
    assert(v@.take(p@.len() as int) =~= p@);
    true
}

/// Whether the annotation `v[lo..hi]` credits a featured artist.
fn is_featuring(v: &Vec<char>, lo: usize, hi: usize) -> (r: bool)
    requires
        lo <= hi <= v@.len(),
    ensures
        r == is_featuring_spec(v@.subrange(lo as int, hi as int)),
{
    let (a, b) = trim_bounds(v, lo, hi);
    let t = string_of(v, a, b);
    let lower = to_lowercase(t.as_str());
    let lc = chars_of(lower.as_str());
    let mut k: usize = 0;
    while k < 5
        invariant
            k <= 5,
            lc@ == spec_to_lowercase(trim(v@.subrange(lo as int, hi as int))),
            forall|j: int| 0 <= j < k ==> !starts_with_seq(lc@, #[trigger] featuring_prefix_spec(j)),
        decreases 5 - k,
    {
        let w = chars_of(featuring_prefix(k));
        if starts_with_chars(&lc, &w) {
            return true;
        }
        k = k + 1;
    }
    false
}

/// Where a trailing bracketed annotation of release metadata or a featured
/// artist starts in `t` (which ends at the closing bracket), if it has one.
pub open spec fn bracket_cut(t: Seq<char>) -> Option<int> {
    if t.len() > 0 && (t.last() == ')' || t.last() == ']') {
        let open = if t.last() == ')' {
            '('
        } else {
            '['
        };
        match rfind_char(t, open) {
            None => None,
            Some(o) => {
                let annotation = t.subrange(o + 1, t.len() - 1);
                if 0 <= o < t.len() - 1 && (is_metadata_suffix_spec(annotation) || is_featuring_spec(
                    annotation,
                )) {
                    Some(o)
                } else {
                    None
                }
            },
        }
    } else {
        None
    }
}

/// Where a trailing ` - <release metadata>` suffix starts in `t` (at its
/// dash, which follows white space), if it has one.
pub open spec fn dash_cut(t: Seq<char>) -> Option<int> {
    match rfind_char(t, '-') {
        None => None,
        Some(d) => if 0 < d < t.len() && is_white_space(t[d - 1]) && is_metadata_suffix_spec(
            t.skip(d + 1),
        ) {
            Some(d)
        } else {
            None
        },
    }
}

/// Removes trailing metadata noise, one piece at a time, from the end of an
/// already lower-cased title: bracketed release annotations and
/// featured-artist credits (`"song (feat. x) [remastered]"` becomes
/// `"song "`), and ` - <release metadata>` suffixes (`"song - live"`
/// becomes `"song "`).
pub open spec fn strip_metadata_suffixes(v: Seq<char>) -> Seq<char>
    decreases v.len(),
{
    let t = trim_end(v);
    if t.len() == 0 {
        v
    } else if bracket_cut(t) is Some {
        proof {
            lemma_trim_end_len(v);
        }
        strip_metadata_suffixes(t.take(bracket_cut(t)->0))
    } else if dash_cut(t) is Some {
        proof {
            lemma_trim_end_len(v);
        }
        strip_metadata_suffixes(t.take(dash_cut(t)->0))
    } else {
        v
    }
}

/// `bracket_cut` of `v[0..t_end]`.
fn bracket_cut_at(v: &Vec<char>, t_end: usize) -> (r: Option<usize>)
    requires
        t_end <= v@.len(),
    ensures
        match r {
            Some(o) => bracket_cut(v@.take(t_end as int)) == Some(o as int),
            None => bracket_cut(v@.take(t_end as int)) is None,
        },
{
    let ghost t = v@.take(t_end as int);
    if t_end == 0 {
        return None;
    }
    let close = v[t_end - 1];
    assert(t.last() == close);
    if close != ')' && close != ']' {
        return None;
    }
    let open = if close == ')' {
        '('
    } else {
        '['
    };
    assert(v@.subrange(0, t_end as int) =~= t);
    match rfind_char_in(v, 0, t_end, open) {
        None => None,
        Some(o) => {
            if o + 1 > t_end - 1 {
                return None;
            }
            assert(t.subrange(o + 1, t.len() - 1) =~= v@.subrange(o + 1, t_end - 1));
            if is_metadata_suffix(v, o + 1, t_end - 1) || is_featuring(v, o + 1, t_end - 1) {
                Some(o)
            } else {
                None
            }
        },
    }
}

/// `dash_cut` of `v[0..t_end]`.
fn dash_cut_at(v: &Vec<char>, t_end: usize) -> (r: Option<usize>)
    requires
        t_end <= v@.len(),
    ensures
        match r {
            Some(d) => dash_cut(v@.take(t_end as int)) == Some(d as int),
            None => dash_cut(v@.take(t_end as int)) is None,
        },
{
    let ghost t = v@.take(t_end as int);
    assert(v@.subrange(0, t_end as int) =~= t);
    match rfind_char_in(v, 0, t_end, '-') {
        None => None,
        Some(d) => {
            if d == 0 {
                return None;
            }
            assert(t[d - 1] == v@[d - 1]);
            if !crate::text::is_whitespace(v[d - 1]) {
                return None;
            }
            assert(t.skip(d + 1) =~= v@.subrange(d + 1, t_end as int));
            if is_metadata_suffix(v, d + 1, t_end) {
                Some(d)
            } else {
                None
            }
        },
    }
}

// ---------------------------------------------------------------------------
// Words.
// ---------------------------------------------------------------------------

/// Splits at white space: the completed words and the word in progress.
pub open spec fn split_words(s: Seq<char>) -> (Seq<Seq<char>>, Seq<char>)
    decreases s.len(),
{
    if s.len() == 0 {
        (Seq::empty(), Seq::empty())
    } else {
        let prev = split_words(s.drop_last());
        if is_white_space(s.last()) {
            if prev.1.len() == 0 {
                (prev.0, Seq::empty())
            } else {
                (prev.0.push(prev.1), Seq::empty())
            }
        } else {
            (prev.0, prev.1.push(s.last()))
        }
    }
}

/// The white-space separated words of `s` (`str::split_whitespace`).
pub open spec fn words(s: Seq<char>) -> Seq<Seq<char>> {
    let parts = split_words(s);
    if parts.1.len() == 0 {
        parts.0
    } else {
        parts.0.push(parts.1)
    }
}

/// The words joined by single spaces (`[..].join(" ")`).
pub open spec fn join_words(ws: Seq<Seq<char>>) -> Seq<char>
    decreases ws.len(),
{
    if ws.len() == 0 {
        Seq::empty()
    } else if ws.len() == 1 {
        ws[0]
    } else {
        join_words(ws.drop_last()) + seq![' '] + ws.last()
    }
}

/// Every character other than a letter or digit becomes a space.
pub open spec fn blank_punctuation(c: char) -> char {
    if c == '&' {
        ' '
    } else if spec_is_alphanumeric(c) {
        c
    } else {
        ' '
    }
}

/// The comparison key of a title or artist: lower-cased, trailing metadata
/// noise removed (bracketed release annotations, featured-artist credits and
/// ` - <release metadata>` suffixes, see `strip_metadata_suffixes`),
/// punctuation turned into spaces, and words separated by single spaces.
pub open spec fn normalize_spec(value: Seq<char>) -> Seq<char> {
    let stripped = strip_metadata_suffixes(spec_to_lowercase(value));
    join_words(words(stripped.map_values(|c: char| blank_punctuation(c))))
}

// ---------------------------------------------------------------------------
// The shape of a normalised key.
// ---------------------------------------------------------------------------

/// A character that can stand inside a word of a key: alphanumeric, not
/// white space and not `&`.
pub open spec fn key_char(c: char) -> bool {
    spec_is_alphanumeric(c) && c != '&' && !is_white_space(c)
}

/// Whether every character of `w` is a key character.
pub open spec fn all_key_chars(w: Seq<char>) -> bool {
    forall|j: int| 0 <= j < w.len() ==> key_char(#[trigger] w[j])
}

/// Whether every word is non-empty and made of key characters.
pub open spec fn key_words(ws: Seq<Seq<char>>) -> bool {
    forall|k: int| 0 <= k < ws.len() ==> (#[trigger] ws[k]).len() > 0 && all_key_chars(ws[k])
}

/// The shape of a key: words of key characters separated by single spaces,
/// with no space at either end.
pub open spec fn is_key_text(r: Seq<char>) -> bool {
    &&& forall|i: int| 0 <= i < r.len() ==> #[trigger] r[i] == ' ' || key_char(r[i])
    &&& forall|i: int, j: int|
        0 <= i && j == i + 1 && j < r.len() ==> !(#[trigger] r[i] == ' ' && #[trigger] r[j] == ' ')
    &&& r.len() > 0 ==> r[0] != ' ' && r.last() != ' '
}

/// Whether every character is a space, or alphanumeric and not `&`.
pub open spec fn blanked_text(s: Seq<char>) -> bool {
    forall|i: int| 0 <= i < s.len() ==> #[trigger] s[i] == ' ' || (spec_is_alphanumeric(s[i]) && s[i] != '&')
}

/// Splitting blanked text yields words of key characters.
proof fn lemma_split_words_key(s: Seq<char>)
    requires
        blanked_text(s),
    ensures
        key_words(split_words(s).0),
        all_key_chars(split_words(s).1),
    decreases s.len(),
{
    if s.len() > 0 {
        let d = s.drop_last();
        assert forall|i: int| 0 <= i < d.len() implies #[trigger] d[i] == ' ' || (spec_is_alphanumeric(d[i]) && d[i] != '&') by {
            assert(d[i] == s[i]);
        }
        lemma_split_words_key(d);
        let prev = split_words(d);
        let c = s.last();
        assert(s[s.len() - 1] == c);
        assert(is_white_space(' '));
        if is_white_space(c) {
            if prev.1.len() > 0 {
                let n = prev.0.push(prev.1);
                assert forall|k: int| 0 <= k < n.len() implies (#[trigger] n[k]).len() > 0 && all_key_chars(n[k]) by {
                    if k < prev.0.len() {
                        assert(n[k] == prev.0[k]);
                    }
                }
            }
        } else {
            let w = prev.1.push(c);
            assert forall|j: int| 0 <= j < w.len() implies key_char(#[trigger] w[j]) by {
                if j < prev.1.len() {
                    assert(w[j] == prev.1[j]);
                }
            }
        }
    }
}

/// The words of blanked text are non-empty and made of key characters.
proof fn lemma_words_key(s: Seq<char>)
    requires
        blanked_text(s),
    ensures
        key_words(words(s)),
{
    lemma_split_words_key(s);
    let parts = split_words(s);
    if parts.1.len() > 0 {
        let n = parts.0.push(parts.1);
        assert forall|k: int| 0 <= k < n.len() implies (#[trigger] n[k]).len() > 0 && all_key_chars(n[k]) by {
            if k < parts.0.len() {
                assert(n[k] == parts.0[k]);
            }
        }
    }
}

/// Joining words of key characters by single spaces gives key text.
proof fn lemma_join_key(ws: Seq<Seq<char>>)
    requires
        key_words(ws),
    ensures
        is_key_text(join_words(ws)),
        ws.len() > 0 ==> join_words(ws).len() > 0,
    decreases ws.len(),
{
    assert(is_white_space(' '));
    if ws.len() == 1 {
        let w = ws[0];
        assert(w.len() > 0 && all_key_chars(w));
        assert forall|i: int| 0 <= i < w.len() implies #[trigger] w[i] == ' ' || key_char(w[i]) by {}
        assert forall|i: int, j: int| 0 <= i && j == i + 1 && j < w.len() implies !(#[trigger] w[i] == ' '
            && #[trigger] w[j] == ' ') by {
            assert(key_char(w[i]));
        }
        assert(key_char(w[0]) && key_char(w[w.len() - 1]));
    } else if ws.len() > 1 {
        let d = ws.drop_last();
        assert forall|k: int| 0 <= k < d.len() implies (#[trigger] d[k]).len() > 0 && all_key_chars(d[k]) by {
            assert(d[k] == ws[k]);
        }
        lemma_join_key(d);
        let a = join_words(d);
        let w = ws.last();
        assert(w == ws[ws.len() - 1]);
        assert(w.len() > 0 && all_key_chars(w));
        let r = a + seq![' '] + w;
        assert(join_words(ws) == r);
        let n = a.len();
        assert(n > 0);
        assert forall|i: int| 0 <= i < r.len() implies #[trigger] r[i] == ' ' || key_char(r[i]) by {
            if i < n {
                assert(r[i] == a[i]);
            } else if i > n {
                assert(r[i] == w[i - n - 1]);
            }
        }
        assert forall|i: int, j: int| 0 <= i && j == i + 1 && j < r.len() implies !(#[trigger] r[i] == ' '
            && #[trigger] r[j] == ' ') by {
            if j < n {
                assert(r[i] == a[i] && r[j] == a[j]);
            } else if j == n {
                assert(r[i] == a[n - 1]);
            } else if i == n {
                assert(r[j] == w[0]);
                assert(key_char(w[0]));
            } else {
                assert(r[j] == w[j - n - 1]);
                assert(key_char(w[j - n - 1]));
            }
        }
        assert(r[0] == a[0]);
        assert(r.last() == w[w.len() - 1]);
        assert(key_char(w[w.len() - 1]));
    }
}

/// Splitting key text and joining the words again gives it back.  Stated
/// for every prefix of key text: a prefix ending inside a word has that
/// word in progress, one ending in a space has none.
proof fn lemma_split_key_prefix(s: Seq<char>)
    requires
        forall|i: int| 0 <= i < s.len() ==> #[trigger] s[i] == ' ' || key_char(s[i]),
        forall|i: int, j: int| 0 <= i && j == i + 1 && j < s.len() ==> !(#[trigger] s[i] == ' ' && #[trigger] s[j] == ' '),
        s.len() > 0 ==> s[0] != ' ',
    ensures
        s.len() == 0 ==> split_words(s).0.len() == 0 && split_words(s).1.len() == 0,
        s.len() > 0 && s.last() != ' ' ==> split_words(s).1.len() > 0 && join_words(
            split_words(s).0.push(split_words(s).1),
        ) == s,
        s.len() > 0 && s.last() == ' ' ==> split_words(s).1.len() == 0 && split_words(s).0.len() > 0
            && join_words(split_words(s).0) + seq![' '] == s,
    decreases s.len(),
{
    assert(is_white_space(' '));
    if s.len() > 0 {
        let p = s.drop_last();
        let c = s.last();
        assert(s[s.len() - 1] == c);
        assert forall|i: int| 0 <= i < p.len() implies #[trigger] p[i] == ' ' || key_char(p[i]) by {
            assert(p[i] == s[i]);
        }
        assert forall|i: int, j: int| 0 <= i && j == i + 1 && j < p.len() implies !(#[trigger] p[i] == ' '
            && #[trigger] p[j] == ' ') by {
            assert(p[i] == s[i] && p[j] == s[j]);
        }
        if p.len() > 0 {
            assert(p[0] == s[0]);
        }
        lemma_split_key_prefix(p);
        let prev = split_words(p);
        if c == ' ' {
            assert(p.len() > 0);
            assert(p.last() == s[s.len() - 2]);
            assert(p.last() != ' ');
            assert(prev.0.push(prev.1).drop_last() == prev.0);
            assert(join_words(prev.0.push(prev.1)) + seq![' '] =~= s);
        } else {
            assert(key_char(c));
            assert(!is_white_space(c));
            let w = prev.1.push(c);
            if p.len() == 0 {
                assert(seq![w] =~= Seq::<Seq<char>>::empty().push(w));
                assert(w =~= s);
            } else if p.last() != ' ' {
                let ws0 = prev.0.push(prev.1);
                let ws1 = prev.0.push(w);
                assert(ws1.drop_last() =~= prev.0);
                if prev.0.len() == 0 {
                    assert(join_words(ws0) == prev.1);
                    assert(join_words(ws1) == w);
                    assert(w =~= s);
                } else {
                    assert(ws0.drop_last() =~= prev.0);
                    assert(join_words(ws0) == join_words(prev.0) + seq![' '] + prev.1);
                    assert(join_words(ws1) == join_words(prev.0) + seq![' '] + w);
                    assert(join_words(ws0) == p);
                    assert(join_words(ws1) =~= (join_words(prev.0) + seq![' '] + prev.1).push(c));
                    assert(p.push(c) =~= s);
                }
            } else {
                assert(prev.1.len() == 0);
                let ws1 = prev.0.push(w);
                assert(ws1.drop_last() =~= prev.0);
                assert(w =~= seq![c]);
                assert(join_words(ws1) =~= s);
            }
        }
    }
}

/// A key is the join of its own words.
proof fn lemma_join_words_of_key(r: Seq<char>)
    requires
        is_key_text(r),
    ensures
        join_words(words(r)) == r,
{
    lemma_split_key_prefix(r);
    if r.len() > 0 {
        assert(r.last() == r[r.len() - 1]);
    }
}

/// A normalised key is made of words of letters and digits separated by
/// single spaces, with no white space at either end (so trimming leaves it
/// as it is).
pub proof fn normalized_key_shape(value: Seq<char>)
    ensures
        is_key_text(normalize_spec(value)),
        trim(normalize_spec(value)) == normalize_spec(value),
{
    let stripped = strip_metadata_suffixes(spec_to_lowercase(value));
    let m = stripped.map_values(|c: char| blank_punctuation(c));
    assert forall|i: int| 0 <= i < m.len() implies #[trigger] m[i] == ' ' || (spec_is_alphanumeric(m[i]) && m[i] != '&') by {
        assert(m[i] == blank_punctuation(stripped[i]));
    }
    lemma_words_key(m);
    lemma_join_key(words(m));
    let r = normalize_spec(value);
    lemma_key_is_trimmed(r);
}

/// Key text has no white space at either end.
proof fn lemma_key_is_trimmed(r: Seq<char>)
    requires
        is_key_text(r),
    ensures
        trim(r) == r,
{
    if r.len() > 0 {
        assert(r[0] == ' ' || key_char(r[0]));
        assert(r[r.len() - 1] == ' ' || key_char(r[r.len() - 1]));
        assert(r.last() == r[r.len() - 1]);
        assert(trim_start(r) == r);
        assert(trim_end(r) == r);
    }
}

/// Normalising a key again gives the same key, given two facts of Unicode
/// that the trusted items here do not state: lower-casing leaves the key as
/// it is, and `)`, `]` and `-` are not alphanumeric.
pub proof fn normalizing_a_key_again_keeps_it(value: Seq<char>)
    requires
        spec_to_lowercase(normalize_spec(value)) == normalize_spec(value),
        !spec_is_alphanumeric(')'),
        !spec_is_alphanumeric(']'),
        !spec_is_alphanumeric('-'),
    ensures
        normalize_spec(normalize_spec(value)) == normalize_spec(value),
{
    let r = normalize_spec(value);
    normalized_key_shape(value);
    if r.len() > 0 {
        let last = r[r.len() - 1];
        assert(last == ' ' || key_char(last));
        assert(r.last() == last);
        assert(trim_end(r) == r);
        assert(bracket_cut(r) is None);
        crate::text::lemma_rfind_char(r, '-');
        assert(rfind_char(r, '-') is None) by {
            if rfind_char(r, '-') is Some {
                let d = rfind_char(r, '-')->0;
                assert(r[d] == ' ' || key_char(r[d]));
            }
        }
        assert(dash_cut(r) is None);
    }
    assert(strip_metadata_suffixes(r) == r);
    let m = r.map_values(|c: char| blank_punctuation(c));
    assert forall|i: int| 0 <= i < r.len() implies m[i] == r[i] by {
        assert(r[i] == ' ' || key_char(r[i]));
    }
    assert(m =~= r);
    lemma_join_words_of_key(r);
}

/// Collapses `m` into its words separated by single spaces.
fn join_words_of(m: &Vec<char>) -> (r: String)
    ensures
        r@ == join_words(words(m@)),
{
    let n = m.len();
    let mut out = String::new();
    let ghost mut done: Seq<Seq<char>> = Seq::empty();
    let mut cs: usize = 0;
    let mut i: usize = 0;
    let mut have_words = false;
    while i < n
        invariant
            n == m@.len(),
            have_words == (done.len() > 0),
            cs <= i <= n,
            split_words(m@.take(i as int)) == (done, m@.subrange(cs as int, i as int)),
            out@ == join_words(done),
            forall|k: int| 0 <= k < done.len() ==> (#[trigger] done[k]).len() > 0,
        decreases n - i,
    {
        let c = m[i];
        assert(m@.take(i + 1).drop_last() =~= m@.take(i as int));
        assert(m@.take(i + 1).last() == c);
        if crate::text::is_whitespace(c) {
            if cs < i {
                let ghost w = m@.subrange(cs as int, i as int);
                if have_words {
                    push_char(&mut out, ' ');
                }
                let mut j = cs;
                let ghost base = out@;
                while j < i
                    invariant
                        cs <= j <= i < n,
                        n == m@.len(),
                        out@ == base + m@.subrange(cs as int, j as int),
                    decreases i - j,
                {
                    push_char(&mut out, m[j]);
                    assert(base + m@.subrange(cs as int, j + 1) =~= (base + m@.subrange(cs as int, j as int)).push(m@[j as int]));
                    j = j + 1;
                }
                proof {
                    assert(done.push(w).drop_last() =~= done);
                    assert(out@ =~= join_words(done.push(w)));
                    done = done.push(w);
                }
                have_words = true;
            }
            assert(m@.subrange(i + 1, i + 1) =~= Seq::<char>::empty());
            cs = i + 1;
        } else {
            assert(m@.subrange(cs as int, i + 1) =~= m@.subrange(cs as int, i as int).push(c));
        }
        i = i + 1;
    }
    assert(m@.take(n as int) =~= m@);
    if cs < n {
        let ghost w = m@.subrange(cs as int, n as int);
        if have_words {
            push_char(&mut out, ' ');
        }
        let mut j = cs;
        let ghost base = out@;
        while j < n
            invariant
                cs <= j <= n,
                n == m@.len(),
                out@ == base + m@.subrange(cs as int, j as int),
            decreases n - j,
        {
            push_char(&mut out, m[j]);
            assert(base + m@.subrange(cs as int, j + 1) =~= (base + m@.subrange(cs as int, j as int)).push(m@[j as int]));
            j = j + 1;
        }
        proof {
            assert(done.push(w).drop_last() =~= done);
            assert(out@ =~= join_words(done.push(w)));
        }
    }
    out
}

/// The comparison key of a title or artist (see `normalize_spec`).
pub fn normalize_for_match(value: &str) -> (r: String)
    ensures
        r@ == normalize_spec(value@),
{
    let lower = to_lowercase(value);
    let v = chars_of(lower.as_str());
    let mut end = v.len();
    assert(v@.take(end as int) =~= v@);
    loop
        invariant
            end <= v@.len(),
            strip_metadata_suffixes(v@) == strip_metadata_suffixes(v@.take(end as int)),
        ensures
            end <= v@.len(),
            strip_metadata_suffixes(v@) == v@.take(end as int),
        decreases end,
    {
        let ghost cur = v@.take(end as int);
        let t_end = trim_end_index(&v, 0, end);
        assert(v@.subrange(0, end as int) =~= cur);
        assert(v@.subrange(0, t_end as int) =~= trim_end(cur));
        assert(v@.take(t_end as int) =~= trim_end(cur));
        let ghost t = trim_end(cur);
        if t_end == 0 {
            break;
        }
        let cut = match bracket_cut_at(&v, t_end) {
            Some(o) => Some(o),
            None => dash_cut_at(&v, t_end),
        };
        match cut {
            None => {
                break;
            },
            Some(c) => {
                assert(t.take(c as int) =~= v@.take(c as int));
                end = c;
            },
        }
    }
    let ghost stripped = v@.take(end as int);
    assert(stripped == strip_metadata_suffixes(spec_to_lowercase(value@)));
    let mut mapped: Vec<char> = Vec::new();
    let mut i: usize = 0;
    while i < end
        invariant
            end <= v@.len(),
            i <= end,
            stripped == v@.take(end as int),
            mapped@ == stripped.take(i as int).map_values(|c: char| blank_punctuation(c)),
        decreases end - i,
    {
        let c = v[i];
        let m = if c == '&' {
            ' '
        } else if is_alphanumeric(c) {
            c
        } else {
            ' '
        };
        mapped.push(m);
        assert(mapped@ =~= stripped.take(i + 1).map_values(|c: char| blank_punctuation(c)));
        i = i + 1;
    }
    assert(stripped.take(end as int) =~= stripped);
    join_words_of(&mapped)
}


// ---------------------------------------------------------------------------
// Provider records.
// ---------------------------------------------------------------------------

/// The largest accepted difference between a record's duration and the
/// track's, in milliseconds (15 seconds).
pub const MAX_DURATION_DRIFT_MS: i64 = 15000;

/// A record of the lyrics provider, with its duration in milliseconds.
#[derive(Clone, Debug, PartialEq, Eq)]
pub struct LrclibRecord {
    pub track_name: String,
    pub artist_name: String,
    pub duration_ms: Option<i64>,
    pub synced_lyrics: Option<String>,
}

/// The distance between two integers.
pub open spec fn abs_diff(a: int, b: int) -> int {
    if a >= b {
        a - b
    } else {
        b - a
    }
}

/// The synchronised lyrics of a record (empty when it has none).
pub open spec fn synced_text(r: LrclibRecord) -> Seq<char> {
    match r.synced_lyrics {
        Some(s) => s@,
        None => Seq::empty(),
    }
}

/// Whether a record can stand for the track: it has non-blank synchronised
/// lyrics, its title and artist normalise to the track's, and its duration,
/// when known, is within the drift of the track's (any duration matches
/// when the track's is not positive).
pub open spec fn record_matches(r: LrclibRecord, title: Seq<char>, artist: Seq<char>, duration_ms: i64) -> bool {
    &&& r.synced_lyrics is Some
    &&& trim(synced_text(r)).len() > 0
    &&& normalize_spec(r.track_name@) == normalize_spec(title)
    &&& normalize_spec(r.artist_name@) == normalize_spec(artist)
    &&& match r.duration_ms {
        None => true,
        Some(d) => duration_ms <= 0 || abs_diff(d as int, duration_ms as int) <= MAX_DURATION_DRIFT_MS,
    }
}

/// How far a record's duration is from the track's (an unknown duration
/// counts as zero).
pub open spec fn record_distance(r: LrclibRecord, duration_ms: i64) -> int {
    match r.duration_ms {
        Some(d) => abs_diff(d as int, duration_ms as int),
        None => abs_diff(0, duration_ms as int),
    }
}

/// Whether `recs[i]` is the chosen record: a matching record with the
/// smallest distance, the first one among equally close records.
pub open spec fn is_best_record(
    recs: Seq<LrclibRecord>,
    title: Seq<char>,
    artist: Seq<char>,
    duration_ms: i64,
    i: int,
) -> bool {
    &&& 0 <= i < recs.len()
    &&& record_matches(recs[i], title, artist, duration_ms)
    &&& forall|j: int|
        0 <= j < recs.len() && record_matches(#[trigger] recs[j], title, artist, duration_ms)
            ==> record_distance(recs[i], duration_ms) <= record_distance(recs[j], duration_ms)
    &&& forall|j: int|
        0 <= j < i && record_matches(#[trigger] recs[j], title, artist, duration_ms)
            ==> record_distance(recs[i], duration_ms) < record_distance(recs[j], duration_ms)
}

/// The chosen record, if any record matches.
pub open spec fn best_record(
    recs: Seq<LrclibRecord>,
    title: Seq<char>,
    artist: Seq<char>,
    duration_ms: i64,
) -> Option<LrclibRecord> {
    if exists|i: int| is_best_record(recs, title, artist, duration_ms, i) {
        Some(recs[choose|i: int| is_best_record(recs, title, artist, duration_ms, i)])
    } else {
        None
    }
}

/// At most one record is the chosen one.
pub proof fn lemma_best_record_unique(
    recs: Seq<LrclibRecord>,
    title: Seq<char>,
    artist: Seq<char>,
    duration_ms: i64,
    i: int,
    j: int,
)
    requires
        is_best_record(recs, title, artist, duration_ms, i),
        is_best_record(recs, title, artist, duration_ms, j),
    ensures
        i == j,
{
    if i < j {
        assert(record_matches(recs[i], title, artist, duration_ms));
    } else if j < i {
        assert(record_matches(recs[j], title, artist, duration_ms));
    }
}

/// Whether the synchronised lyrics of `r` hold anything but white space.
fn has_synced_lyrics(r: &LrclibRecord) -> (b: bool)
    ensures
        b == (r.synced_lyrics is Some && trim(synced_text(*r)).len() > 0),
{
    match &r.synced_lyrics {
        None => false,
        Some(text) => {
            let v = chars_of(text.as_str());
            let (a, b) = trim_bounds(&v, 0, v.len());
            assert(v@.subrange(0, v@.len() as int) =~= v@);
            a < b
        },
    }
}

/// `abs_diff` on 64-bit values.
fn distance(d: i64, target: i64) -> (r: i128)
    ensures
        r == abs_diff(d as int, target as int),
{
    let a = d as i128;
    let b = target as i128;
    if a >= b {
        a - b
    } else {
        b - a
    }
}

/// Chooses the record whose lyrics stand for the track (see
/// `is_best_record`); `None` when no record matches.
pub fn select_best_record(records: Vec<LrclibRecord>, title: &str, artist: &str, duration_ms: i64) -> (r:
    Option<LrclibRecord>)
    ensures
        r == best_record(records@, title@, artist@, duration_ms),
{
    let title_key = normalize_for_match(title);
    let artist_key = normalize_for_match(artist);
    let mut best: Option<usize> = None;
    let mut best_distance: i128 = 0;
    let mut i: usize = 0;
    let ghost recs = records@;
    while i < records.len()
        invariant
            recs == records@,
            i <= recs.len(),
            title_key@ == normalize_spec(title@),
            artist_key@ == normalize_spec(artist@),
            match best {
                None => forall|j: int| 0 <= j < i ==> !record_matches(#[trigger] recs[j], title@, artist@, duration_ms),
                Some(b) => {
                    &&& b < i
                    &&& best_distance == record_distance(recs[b as int], duration_ms)
                    &&& is_best_record(recs.take(i as int), title@, artist@, duration_ms, b as int)
                },
            },
        decreases recs.len() - i,
    {
        let rec = &records[i];
        let matches = has_synced_lyrics(rec) && normalize_for_match(rec.track_name.as_str()).eq(&title_key)
            && normalize_for_match(rec.artist_name.as_str()).eq(&artist_key) && match rec.duration_ms {
            None => true,
            Some(d) => duration_ms <= 0 || distance(d, duration_ms) <= MAX_DURATION_DRIFT_MS as i128,
        };
        assert(matches == record_matches(recs[i as int], title@, artist@, duration_ms));
        let ghost prefix = recs.take(i as int);
        let ghost next = recs.take(i + 1);
        assert(forall|j: int| 0 <= j < i ==> next[j] == #[trigger] prefix[j]);
        assert(next[i as int] == recs[i as int]);
        if matches {
            let dist = match rec.duration_ms {
                Some(d) => distance(d, duration_ms),
                None => distance(0, duration_ms),
            };
            match best {
                None => {
                    best = Some(i);
                    best_distance = dist;
                    assert(is_best_record(next, title@, artist@, duration_ms, i as int)) by {
                        assert forall|j: int| 0 <= j < next.len() && record_matches(#[trigger] next[j], title@, artist@, duration_ms)
                            implies record_distance(next[i as int], duration_ms) <= record_distance(next[j], duration_ms) by {
                            if j < i {
                                assert(next[j] == prefix[j]);
                                assert(!record_matches(recs[j], title@, artist@, duration_ms));
                            }
                        }
                    }
                },
                Some(b) => {
                    if dist < best_distance {
                        best = Some(i);
                        best_distance = dist;
                        assert(is_best_record(next, title@, artist@, duration_ms, i as int)) by {
                            assert forall|j: int| 0 <= j < next.len() && record_matches(#[trigger] next[j], title@, artist@, duration_ms)
                                implies record_distance(next[i as int], duration_ms) < record_distance(next[j], duration_ms) || j == i by {
                                if j < i {
                                    assert(next[j] == prefix[j]);
                                    assert(record_matches(prefix[j], title@, artist@, duration_ms));
                                }
                            }
                        }
                    } else {
                        assert(is_best_record(next, title@, artist@, duration_ms, b as int)) by {
                            assert(next[b as int] == prefix[b as int]);
                            assert forall|j: int| 0 <= j < next.len() && record_matches(#[trigger] next[j], title@, artist@, duration_ms)
                                implies record_distance(next[b as int], duration_ms) <= record_distance(next[j], duration_ms) by {
                                if j < i {
                                    assert(next[j] == prefix[j]);
                                    assert(record_matches(prefix[j], title@, artist@, duration_ms));
                                }
                            }
                            assert forall|j: int| 0 <= j < b && record_matches(#[trigger] next[j], title@, artist@, duration_ms)
                                implies record_distance(next[b as int], duration_ms) < record_distance(next[j], duration_ms) by {
                                assert(next[j] == prefix[j]);
                                assert(record_matches(prefix[j], title@, artist@, duration_ms));
                            }
                        }
                    }
                },
            }
        } else {
            match best {
                None => {},
                Some(b) => {
                    assert(is_best_record(next, title@, artist@, duration_ms, b as int)) by {
                        assert(next[b as int] == prefix[b as int]);
                        assert forall|j: int| 0 <= j < next.len() && record_matches(#[trigger] next[j], title@, artist@, duration_ms)
                            implies record_distance(next[b as int], duration_ms) <= record_distance(next[j], duration_ms) by {
                            if j < i {
                                assert(next[j] == prefix[j]);
                                assert(record_matches(prefix[j], title@, artist@, duration_ms));
                            }
                        }
                        assert forall|j: int| 0 <= j < b && record_matches(#[trigger] next[j], title@, artist@, duration_ms)
                            implies record_distance(next[b as int], duration_ms) < record_distance(next[j], duration_ms) by {
                            assert(next[j] == prefix[j]);
                            assert(record_matches(prefix[j], title@, artist@, duration_ms));
                        }
                    }
                },
            }
        }
        i = i + 1;
    }
    assert(recs.take(i as int) =~= recs);
    match best {
        None => {
            assert(!exists|j: int| is_best_record(recs, title@, artist@, duration_ms, j));
            None
        },
        Some(b) => {
            proof {
                let c = choose|j: int| is_best_record(recs, title@, artist@, duration_ms, j);
                lemma_best_record_unique(recs, title@, artist@, duration_ms, b as int, c);
            }
            let mut records = records;
            let r = records.remove(b);
            Some(r)
        },
    }
}

/// The lyrics a set of records resolves to: the parsed lyrics of the chosen
/// record, when they hold at least one timed line.
pub open spec fn resolved_lyrics(
    recs: Seq<LrclibRecord>,
    title: Seq<char>,
    artist: Seq<char>,
    duration_ms: i64,
) -> Option<Seq<Entry>> {
    match best_record(recs, title, artist, duration_ms) {
        None => None,
        Some(r) => if parse_lrc_spec(synced_text(r)).len() == 0 {
            None
        } else {
            Some(parse_lrc_spec(synced_text(r)))
        },
    }
}

/// The model of optional lyrics.
pub open spec fn opt_lines(o: Option<Vec<LyricLine>>) -> Option<Seq<Entry>> {
    match o {
        Some(v) => Some(lines_view(v@)),
        None => None,
    }
}

/// The lyrics of the chosen record, when it has any timed line.
pub fn resolve_records(records: Vec<LrclibRecord>, title: &str, artist: &str, duration_ms: i64) -> (r:
    Option<Vec<LyricLine>>)
    ensures
        opt_lines(r) == resolved_lyrics(records@, title@, artist@, duration_ms),
{
    let record = match select_best_record(records, title, artist, duration_ms) {
        None => return None,
        Some(record) => record,
    };
    let lines = match &record.synced_lyrics {
        Some(text) => parse_lrc(text.as_str()),
        None => parse_lrc(""),
    };
    proof {
        if record.synced_lyrics is None {
            assert(""@ =~= Seq::<char>::empty()) by {
                reveal_strlit("");
            }
        }
    }
    if lines.len() == 0 {
        None
    } else {
        Some(lines)
    }
}

/// The lyrics of the search results, or else of the exact-match record.
pub open spec fn search_or_exact_lyrics(
    search: Seq<LrclibRecord>,
    exact: Option<LrclibRecord>,
    title: Seq<char>,
    artist: Seq<char>,
    duration_ms: i64,
) -> Option<Seq<Entry>> {
    match resolved_lyrics(search, title, artist, duration_ms) {
        Some(l) => Some(l),
        None => match exact {
            None => None,
            Some(e) => resolved_lyrics(seq![e], title, artist, duration_ms),
        },
    }
}

/// Resolves the search results, falling back to the exact-match record.
pub fn resolve_search_or_exact(
    search_records: Vec<LrclibRecord>,
    exact_record: Option<LrclibRecord>,
    title: &str,
    artist: &str,
    duration_ms: i64,
) -> (r: Option<Vec<LyricLine>>)
    ensures
        opt_lines(r) == search_or_exact_lyrics(search_records@, exact_record, title@, artist@, duration_ms),
{
    match resolve_records(search_records, title, artist, duration_ms) {
        Some(lines) => Some(lines),
        None => match exact_record {
            None => None,
            Some(record) => {
                let mut single: Vec<LrclibRecord> = Vec::new();
                single.push(record);
                assert(single@ =~= seq![record]);
                resolve_records(single, title, artist, duration_ms)
            },
        },
    }
}

} // verus!
