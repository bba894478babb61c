//! Parsing of LRC lyric documents (`[mm:ss.xx]text` lines).
use vstd::prelude::*;

use crate::lyrics::{lines_view, LyricLine};
use crate::text::{
    decimal, digit_char_spec, chars_of, find_char, find_char_in, lemma_find_char, string_of, trim, trim_bounds,
};

verus! {

/// A timed lyric line in the mathematical model: its timestamp in
/// milliseconds and its text.
pub type Entry = (u64, Seq<char>);

// ---------------------------------------------------------------------------
// Decimal integers (`str::parse::<u64>`).
// ---------------------------------------------------------------------------

/// Whether `c` is an ASCII decimal digit.
pub open spec fn is_digit(c: char) -> bool {
    '0' <= c && c <= '9'
}

/// The value of the decimal digit `c`.
pub open spec fn digit_value(c: char) -> int {
    c as int - '0' as int
}

/// Whether every character of `s` is a decimal digit.
pub open spec fn all_digits(s: Seq<char>) -> bool {
    forall|i: int| 0 <= i < s.len() ==> is_digit(#[trigger] s[i])
}

/// The value of a run of decimal digits.
pub open spec fn digits_value(s: Seq<char>) -> int
    decreases s.len(),
{
    if s.len() == 0 {
        0
    } else {
        digits_value(s.drop_last()) * 10 + digit_value(s.last())
    }
}

/// `u64::from_str`: an optional `+`, then one or more decimal digits whose
/// value fits in a `u64`.
pub open spec fn parse_u64_spec(s: Seq<char>) -> Option<u64> {
    let d = if s.len() > 0 && s[0] == '+' {
        s.drop_first()
    } else {
        s
    };
    if d.len() > 0 && all_digits(d) && digits_value(d) <= u64::MAX {
        Some(digits_value(d) as u64)
    } else {
        None
    }
}

/// Each rendered digit is the ASCII digit of its value.
pub proof fn digit_chars_are_ascii_digits(d: int)
    requires
        0 <= d < 10,
    ensures
        is_digit(digit_char_spec(d)),
        digit_value(digit_char_spec(d)) == d,
        digit_char_spec(d) as int == '0' as int + d,
{
}

/// The decimal text of a number denotes it: it is a non-empty run of
/// digits, without a leading zero unless the number is zero, whose value
/// is the number.
pub proof fn rendered_decimal_reads_back(n: nat)
    ensures
        decimal(n).len() > 0,
        all_digits(decimal(n)),
        digits_value(decimal(n)) == n,
        n >= 10 ==> decimal(n)[0] != '0',
    decreases n,
{
    if n < 10 {
        digit_chars_are_ascii_digits(n as int);
        let t = decimal(n);
        assert(t.drop_last() =~= Seq::<char>::empty());
        assert(digits_value(t.drop_last()) == 0);
        assert(t.last() == digit_char_spec(n as int));
        assert(digits_value(t) == digits_value(t.drop_last()) * 10 + digit_value(t.last()));
    } else {
        rendered_decimal_reads_back(n / 10);
        let s = decimal(n / 10);
        let c = digit_char_spec((n % 10) as int);
        digit_chars_are_ascii_digits((n % 10) as int);
        assert(decimal(n) == s.push(c));
        assert(s.push(c).drop_last() =~= s);
        assert(s.push(c).last() == c);
        assert(digits_value(s.push(c)) == digits_value(s) * 10 + digit_value(c));
        assert((n / 10) * 10 + n % 10 == n);
        assert(s.push(c)[0] == s[0]);
        if n / 10 < 10 {
            digit_chars_are_ascii_digits((n / 10) as int);
        }
        assert forall|i: int| 0 <= i < s.push(c).len() implies is_digit(#[trigger] s.push(c)[i]) by {
            if i < s.len() {
                assert(s.push(c)[i] == s[i]);
            }
        }
    }
}

/// Parsing the decimal text of a `u64` gives the number back.
pub proof fn rendered_u64_parses_back(n: u64)
    ensures
        parse_u64_spec(decimal(n as nat)) == Some(n),
{
    rendered_decimal_reads_back(n as nat);
    assert(decimal(n as nat)[0] != '+') by {
        if n < 10 {
            digit_chars_are_ascii_digits(n as int);
        } else {
            assert(is_digit(decimal(n as nat)[0]));
        }
    }
}

/// A prefix of a digit run never has a larger value than the whole run.
proof fn lemma_digits_prefix(s: Seq<char>, k: int)
    requires
        all_digits(s),
        0 <= k <= s.len(),
    ensures
        0 <= digits_value(s.take(k)) <= digits_value(s),
    decreases s.len(),
{
    if s.len() == 0 {
        assert(s.take(k) =~= s);
    } else if k == s.len() {
        assert(s.take(k) =~= s);
        lemma_digits_prefix(s.drop_last(), 0);
        assert(s.drop_last().take(0) =~= s.take(0));
    } else {
        let t = s.drop_last();
        assert(is_digit(s[s.len() - 1]));
        lemma_digits_prefix(t, k);
        assert(t.take(k) =~= s.take(k));
    }
}

/// Parses `v[lo..hi]` as a `u64` the way `str::parse::<u64>` does.
pub fn parse_u64(v: &Vec<char>, lo: usize, hi: usize) -> (r: Option<u64>)
    requires
        lo <= hi <= v@.len(),
    ensures
        r == parse_u64_spec(v@.subrange(lo as int, hi as int)),
{
    let ghost s = v@.subrange(lo as int, hi as int);
    let start = if lo < hi && v[lo] == '+' {
        lo + 1
    } else {
        lo
    };
    let ghost d = v@.subrange(start as int, hi as int);
    assert(d =~= (if s.len() > 0 && s[0] == '+' {
        s.drop_first()
    } else {
        s
    }));
    if start == hi {
        return None;
    }
    let mut acc: u64 = 0;
    let mut i = start;
    while i < hi
        invariant
            lo <= start <= i <= hi <= v@.len(),
            d == v@.subrange(start as int, hi as int),
            s == v@.subrange(lo as int, hi as int),
            d == (if s.len() > 0 && s[0] == '+' {
                s.drop_first()
            } else {
                s
            }),
            all_digits(d.take(i - start)),
            acc == digits_value(d.take(i - start)),
        decreases hi - i,
    {
        let c = v[i];
        if !('0' <= c && c <= '9') {
            assert(!is_digit(d[i - start]));
            assert(!all_digits(d));
            return None;
        }
        let dv = (c as u32 - '0' as u32) as u64;
        assert(d.take(i - start + 1).drop_last() =~= d.take(i - start));
        assert(all_digits(d.take(i - start + 1)));
        match acc.checked_mul(10) {
            None => {
                proof {
                    self::lemma_overflow(d, i - start);
                }
                return None;
            },
            Some(m) => match m.checked_add(dv) {
                None => {
                    proof {
                        self::lemma_overflow(d, i - start);
                    }
                    return None;
                },
                Some(n) => {
                    acc = n;
                },
            },
        }
        i = i + 1;
    }
    assert(d.take(i - start) =~= d);
    Some(acc)
}

/// Once a prefix of the digits overflows, the whole run does, or it is not a
/// digit run at all.
proof fn lemma_overflow(d: Seq<char>, k: int)
    requires
        0 <= k < d.len(),
        all_digits(d.take(k + 1)),
        digits_value(d.take(k + 1)) > u64::MAX,
    ensures
        !(all_digits(d) && digits_value(d) <= u64::MAX),
{
    if all_digits(d) {
        lemma_digits_prefix(d, k + 1);
    }
}

// ---------------------------------------------------------------------------
// Timestamps.
// ---------------------------------------------------------------------------

/// Saturation into the `u64` range.
pub open spec fn sat(x: int) -> u64 {
    if x > u64::MAX {
        u64::MAX
    } else {
        x as u64
    }
}

/// `u64::saturating_mul`.
fn saturating_mul(x: u64, y: u64) -> (r: u64)
    ensures
        r == sat(x * y),
{
    match x.checked_mul(y) {
        Some(z) => z,
        None => u64::MAX,
    }
}

/// `u64::saturating_add`.
fn saturating_add(x: u64, y: u64) -> (r: u64)
    ensures
        r == sat(x + y),
{
    match x.checked_add(y) {
        Some(z) => z,
        None => u64::MAX,
    }
}

/// The milliseconds denoted by the fractional digits of a timestamp: the
/// first three characters, read as tenths, hundredths or thousandths.
pub open spec fn fraction_ms_spec(fraction: Seq<char>) -> Option<u64> {
    let f = if fraction.len() > 3 {
        fraction.take(3)
    } else {
        fraction
    };
    if f.len() == 0 {
        Some(0)
    } else {
        match parse_u64_spec(f) {
            None => None,
            Some(x) => Some(
                if f.len() == 1 {
                    sat(x * 100)
                } else if f.len() == 2 {
                    sat(x * 10)
                } else {
                    x
                },
            ),
        }
    }
}

/// An LRC time tag `minutes:seconds[.fraction]`, in milliseconds.  Seconds
/// must be below 60; minutes are unbounded and the total saturates.
pub open spec fn parse_timestamp_spec(t: Seq<char>) -> Option<u64> {
    match find_char(t, ':') {
        None => None,
        Some(i) => {
            let minutes = t.take(i);
            let seconds = t.skip(i + 1);
            let whole = match find_char(seconds, '.') {
                Some(j) => seconds.take(j),
                None => seconds,
            };
            let fraction = match find_char(seconds, '.') {
                Some(j) => seconds.skip(j + 1),
                None => Seq::empty(),
            };
            match (parse_u64_spec(minutes), parse_u64_spec(whole), fraction_ms_spec(fraction)) {
                (Some(m), Some(w), Some(f)) => if w >= 60 {
                    None
                } else {
                    Some(sat(sat(sat(m * 60000) + sat(w * 1000)) + f))
                },
                _ => None,
            }
        },
    }
}


/// The milliseconds of the fractional digits `v[lo..hi]` of a time tag.
fn fraction_ms(v: &Vec<char>, lo: usize, hi: usize) -> (r: Option<u64>)
    requires
        lo <= hi <= v@.len(),
    ensures
        r == fraction_ms_spec(v@.subrange(lo as int, hi as int)),
{
    let end = if hi - lo > 3 {
        lo + 3
    } else {
        hi
    };
    let ghost fr = v@.subrange(lo as int, hi as int);
    assert(v@.subrange(lo as int, end as int) =~= (if fr.len() > 3 {
        fr.take(3)
    } else {
        fr
    }));
    let n = end - lo;
    if n == 0 {
        return Some(0);
    }
    match parse_u64(v, lo, end) {
        None => None,
        Some(x) => {
            if n == 1 {
                Some(saturating_mul(x, 100))
            } else if n == 2 {
                Some(saturating_mul(x, 10))
            } else {
                Some(x)
            }
        },
    }
}

/// Parses the time tag `v[lo..hi]` (the text between `[` and `]`).
pub fn parse_timestamp(v: &Vec<char>, lo: usize, hi: usize) -> (r: Option<u64>)
    requires
        lo <= hi <= v@.len(),
    ensures
        r == parse_timestamp_spec(v@.subrange(lo as int, hi as int)),
{
    let ghost t = v@.subrange(lo as int, hi as int);
    let colon = match find_char_in(v, lo, hi, ':') {
        None => return None,
        Some(c) => c,
    };
    let ghost i = colon - lo;
    assert(t.take(i) =~= v@.subrange(lo as int, colon as int));
    let ghost seconds = t.skip(i + 1);
    assert(seconds =~= v@.subrange(colon + 1, hi as int));
    let dot = find_char_in(v, colon + 1, hi, '.');
    let (whole_end, frac_start) = match dot {
        Some(d) => (d, d + 1),
        None => (hi, hi),
    };
    proof {
        match dot {
            Some(d) => {
                let j = d - (colon + 1);
                assert(seconds.take(j) =~= v@.subrange(colon + 1, d as int));
                assert(seconds.skip(j + 1) =~= v@.subrange(d + 1, hi as int));
            },
            None => {
                assert(v@.subrange(hi as int, hi as int) =~= Seq::<char>::empty());
            },
        }
    }
    let minutes = parse_u64(v, lo, colon);
    let whole = parse_u64(v, colon + 1, whole_end);
    let frac = fraction_ms(v, frac_start, hi);
    match (minutes, whole, frac) {
        (Some(m), Some(w), Some(f)) => {
            if w >= 60 {
                None
            } else {
                Some(saturating_add(saturating_add(saturating_mul(m, 60000), saturating_mul(w, 1000)), f))
            }
        },
        _ => None,
    }
}

// ---------------------------------------------------------------------------
// Lines.
// ---------------------------------------------------------------------------

/// The leading time tags of a (trimmed) LRC line: the timestamps of the tags
/// that parse, in order, and the text after the last tag.  A `[` without a
/// matching `]` makes the whole line invalid.
pub open spec fn lrc_tags(r: Seq<char>) -> Option<(Seq<u64>, Seq<char>)>
    decreases r.len(),
{
    if r.len() > 0 && r[0] == '[' {
        match find_char(r, ']') {
            None => None,
            Some(c) => if 1 <= c < r.len() {
                match lrc_tags(r.skip(c + 1)) {
                    None => None,
                    Some(tail) => Some(
                        (
                            match parse_timestamp_spec(r.subrange(1, c)) {
                                Some(t) => seq![t] + tail.0,
                                None => tail.0,
                            },
                            tail.1,
                        ),
                    ),
                }
            } else {
                None
            },
        }
    } else {
        Some((Seq::empty(), r))
    }
}

/// The timed lines that one LRC line denotes: one per valid time tag, all
/// with the trimmed text after the tags.  Lines without a valid tag or
/// without text denote nothing.
pub open spec fn lrc_line_spec(line: Seq<char>) -> Option<Seq<Entry>> {
    match lrc_tags(trim(line)) {
        None => None,
        Some(tags) => {
            let text = trim(tags.1);
            if text.len() == 0 || tags.0.len() == 0 {
                None
            } else {
                Some(tags.0.map_values(|t: u64| (t, text)))
            }
        },
    }
}

/// Prepends already-collected timestamps to the result of `lrc_tags`.
pub open spec fn with_prefix(
    acc: Seq<u64>,
    r: Option<(Seq<u64>, Seq<char>)>,
) -> Option<(Seq<u64>, Seq<char>)> {
    match r {
        None => None,
        Some(tags) => Some((acc + tags.0, tags.1)),
    }
}

/// Parses one LRC line `v[lo..hi]`.
fn parse_lrc_line(v: &Vec<char>, lo: usize, hi: usize) -> (r: Option<Vec<LyricLine>>)
    requires
        lo <= hi <= v@.len(),
    ensures
        match r {
            None => lrc_line_spec(v@.subrange(lo as int, hi as int)) is None,
            Some(ls) => lrc_line_spec(v@.subrange(lo as int, hi as int)) == Some(lines_view(ls@)),
        },
{
    let ghost line = v@.subrange(lo as int, hi as int);
    let (a0, b) = trim_bounds(v, lo, hi);
    let mut a = a0;
    let mut timestamps: Vec<u64> = Vec::new();
    assert(timestamps@ + Seq::<u64>::empty() =~= timestamps@);
    while a < b && v[a] == '['
        invariant
            lo <= a0 <= a <= b <= hi <= v@.len(),
            line == v@.subrange(lo as int, hi as int),
            trim(line) == v@.subrange(a0 as int, b as int),
            lrc_tags(trim(line)) == with_prefix(timestamps@, lrc_tags(v@.subrange(a as int, b as int))),
        decreases b - a,
    {
        let ghost r = v@.subrange(a as int, b as int);
        match find_char_in(v, a, b, ']') {
            None => {
                return None;
            },
            Some(c) => {
                proof {
                    lemma_find_char(r, ']');
                }
                assert(r.skip(c - a + 1) =~= v@.subrange(c + 1, b as int));
                assert(r.subrange(1, c - a) =~= v@.subrange(a + 1, c as int));
                let ghost old_ts = timestamps@;
                let tag = parse_timestamp(v, a + 1, c);
                match tag {
                    Some(t) => {
                        timestamps.push(t);
                        proof {
                            match lrc_tags(v@.subrange(c + 1, b as int)) {
                                Some(tl) => {
                                    assert(old_ts + (seq![t] + tl.0) =~= timestamps@ + tl.0);
                                },
                                None => {},
                            }
                        }
                    },
                    None => {},
                }
                a = c + 1;
            },
        }
    }
    assert(timestamps@ + Seq::<u64>::empty() =~= timestamps@);
    let (ta, tb) = trim_bounds(v, a, b);
    if ta == tb || timestamps.len() == 0 {
        return None;
    }
    let mut out: Vec<LyricLine> = Vec::new();
    let mut k: usize = 0;
    while k < timestamps.len()
        invariant
            lo <= ta <= tb <= v@.len(),
            k <= timestamps@.len(),
            out@.len() == k,
            forall|j: int| 0 <= j < k ==> #[trigger] out@[j]@ == (timestamps@[j], v@.subrange(ta as int, tb as int)),
        decreases timestamps@.len() - k,
    {
        let text = string_of(v, ta, tb);
        out.push(LyricLine { timestamp_ms: timestamps[k], text });
        k = k + 1;
    }
    assert(lines_view(out@) =~= timestamps@.map_values(|t: u64| (t, v@.subrange(ta as int, tb as int))));
    Some(out)
}


// ---------------------------------------------------------------------------
// Documents.
// ---------------------------------------------------------------------------

/// Splits `s` at `\n`: the completed lines and the text after the last
/// line break.
pub open spec fn split_lines(s: Seq<char>) -> (Seq<Seq<char>>, Seq<char>)
    decreases s.len(),
{
    if s.len() == 0 {
        (Seq::empty(), Seq::empty())
    } else {
        let prev = split_lines(s.drop_last());
        if s.last() == '\n' {
            (prev.0.push(prev.1), Seq::empty())
        } else {
            (prev.0, prev.1.push(s.last()))
        }
    }
}

/// The lines of `s` (`str::lines`, up to the `\r` of `\r\n` endings, which
/// every line parser trims anyway): a final line break does not start an
/// empty last line.
pub open spec fn lines_of(s: Seq<char>) -> Seq<Seq<char>> {
    let parts = split_lines(s);
    if parts.1.len() == 0 {
        parts.0
    } else {
        parts.0.push(parts.1)
    }
}

/// The timed lines of one LRC line (none when it is not a lyric line).
pub open spec fn line_entries(line: Seq<char>) -> Seq<Entry> {
    match lrc_line_spec(line) {
        Some(es) => es,
        None => Seq::empty(),
    }
}

/// The timed lines of a list of LRC lines, in document order.
pub open spec fn entries_of_lines(ls: Seq<Seq<char>>) -> Seq<Entry>
    decreases ls.len(),
{
    if ls.len() == 0 {
        Seq::empty()
    } else {
        entries_of_lines(ls.drop_last()) + line_entries(ls.last())
    }
}

/// The timed lines of an LRC document, in document order.
pub open spec fn lrc_entries(s: Seq<char>) -> Seq<Entry> {
    entries_of_lines(lines_of(s))
}

// ---------------------------------------------------------------------------
// Stable ordering by timestamp.
// ---------------------------------------------------------------------------

/// Whether the entries are in non-decreasing timestamp order.
pub open spec fn sorted_by_time(s: Seq<Entry>) -> bool {
    forall|i: int, j: int| 0 <= i <= j < s.len() ==> (#[trigger] s[i]).0 <= (#[trigger] s[j]).0
}

/// Inserts `x` after every entry whose timestamp is not later than its own.
pub open spec fn insert_by_time(s: Seq<Entry>, x: Entry) -> Seq<Entry>
    decreases s.len(),
{
    if s.len() == 0 {
        seq![x]
    } else if s.last().0 <= x.0 {
        s.push(x)
    } else {
        insert_by_time(s.drop_last(), x).push(s.last())
    }
}

/// The stable sort of `s` by timestamp (`slice::sort_by_key`).
pub open spec fn stable_sort(s: Seq<Entry>) -> Seq<Entry>
    decreases s.len(),
{
    if s.len() == 0 {
        s
    } else {
        insert_by_time(stable_sort(s.drop_last()), s.last())
    }
}

/// The timed lines of an LRC document, ordered by timestamp; lines with the
/// same timestamp keep their document order.
pub open spec fn parse_lrc_spec(s: Seq<char>) -> Seq<Entry> {
    stable_sort(lrc_entries(s))
}

/// In a sorted sequence, inserting by time places `x` at the first position
/// whose timestamp is later than `x`'s.
pub proof fn lemma_insert_at(s: Seq<Entry>, x: Entry, p: int)
    requires
        sorted_by_time(s),
        0 <= p <= s.len(),
        forall|i: int| 0 <= i < p ==> (#[trigger] s[i]).0 <= x.0,
        forall|i: int| p <= i < s.len() ==> (#[trigger] s[i]).0 > x.0,
    ensures
        insert_by_time(s, x) == s.take(p).push(x) + s.skip(p),
    decreases s.len(),
{
    if s.len() == 0 {
        assert(s.take(p).push(x) + s.skip(p) =~= seq![x]);
    } else if s.last().0 <= x.0 {
        assert(p == s.len()) by {
            if p < s.len() {
                assert(s[s.len() - 1].0 > x.0);
            }
        }
        assert(s.take(p).push(x) + s.skip(p) =~= s.push(x));
    } else {
        let t = s.drop_last();
        assert(p < s.len());
        assert forall|i: int, j: int| 0 <= i <= j < t.len() implies (#[trigger] t[i]).0 <= (
        #[trigger] t[j]).0 by {
            assert(t[i] == s[i] && t[j] == s[j]);
        }
        assert forall|i: int| 0 <= i < p implies (#[trigger] t[i]).0 <= x.0 by {
            assert(t[i] == s[i]);
        }
        assert forall|i: int| p <= i < t.len() implies (#[trigger] t[i]).0 > x.0 by {
            assert(t[i] == s[i]);
        }
        lemma_insert_at(t, x, p);
        assert((t.take(p).push(x) + t.skip(p)).push(s.last()) =~= s.take(p).push(x) + s.skip(p));
    }
}

/// Inserting by time keeps a sequence sorted.
pub proof fn lemma_insert_sorted(s: Seq<Entry>, x: Entry)
    requires
        sorted_by_time(s),
    ensures
        sorted_by_time(insert_by_time(s, x)),
        insert_by_time(s, x).len() == s.len() + 1,
    decreases s.len(),
{
    if s.len() > 0 && s.last().0 > x.0 {
        let t = s.drop_last();
        assert forall|i: int, j: int| 0 <= i <= j < t.len() implies (#[trigger] t[i]).0 <= (
        #[trigger] t[j]).0 by {
            assert(t[i] == s[i] && t[j] == s[j]);
        }
        lemma_insert_sorted(t, x);
        lemma_insert_members(t, x);
        let r = insert_by_time(t, x);
        assert forall|i: int, j: int| 0 <= i <= j < r.len() + 1 implies (#[trigger] r.push(
            s.last(),
        )[i]).0 <= (#[trigger] r.push(s.last())[j]).0 by {
            if j == r.len() {
                if i < r.len() {
                    let e = r[i];
                    assert(e == x || t.contains(e));
                    if e != x {
                        let k = choose|k: int| 0 <= k < t.len() && t[k] == e;
                        assert(s[k] == e);
                    }
                }
            }
        }
    }
}

/// Every element of `insert_by_time(s, x)` is `x` or an element of `s`.
proof fn lemma_insert_members(s: Seq<Entry>, x: Entry)
    ensures
        forall|i: int| 0 <= i < insert_by_time(s, x).len() ==> #[trigger] insert_by_time(s, x)[i] == x
            || s.contains(insert_by_time(s, x)[i]),
    decreases s.len(),
{
    if s.len() > 0 && s.last().0 > x.0 {
        let t = s.drop_last();
        lemma_insert_members(t, x);
        let r = insert_by_time(t, x);
        assert forall|i: int| 0 <= i < r.push(s.last()).len() implies #[trigger] r.push(s.last())[i]
            == x || s.contains(r.push(s.last())[i]) by {
            if i < r.len() {
                if r[i] != x {
                    let k = choose|k: int| 0 <= k < t.len() && t[k] == r[i];
                    assert(s[k] == r[i]);
                }
            } else {
                assert(s[s.len() - 1] == s.last());
            }
        }
    }
}

/// `stable_sort` yields a sorted sequence of the same length.
pub proof fn lemma_stable_sort_sorted(s: Seq<Entry>)
    ensures
        sorted_by_time(stable_sort(s)),
        stable_sort(s).len() == s.len(),
    decreases s.len(),
{
    if s.len() > 0 {
        lemma_stable_sort_sorted(s.drop_last());
        lemma_insert_sorted(stable_sort(s.drop_last()), s.last());
    }
}

/// The entries of `s` stamped with time `t`, in order.
pub open spec fn at_time(s: Seq<Entry>, t: u64) -> Seq<Entry> {
    s.filter(|e: Entry| e.0 == t)
}

proof fn lemma_at_time_push(s: Seq<Entry>, x: Entry, t: u64)
    ensures
        at_time(s.push(x), t) == if x.0 == t {
            at_time(s, t).push(x)
        } else {
            at_time(s, t)
        },
{
    reveal(Seq::filter);
    assert(s.push(x).drop_last() =~= s);
}

/// Inserting by time places `x` after the entries with its own timestamp and
/// leaves the entries of every other timestamp as they were.
proof fn lemma_insert_at_time(s: Seq<Entry>, x: Entry, t: u64)
    ensures
        at_time(insert_by_time(s, x), t) == if x.0 == t {
            at_time(s, t).push(x)
        } else {
            at_time(s, t)
        },
    decreases s.len(),
{
    if s.len() == 0 {
        lemma_at_time_push(s, x, t);
        assert(s.push(x) =~= seq![x]);
    } else if s.last().0 <= x.0 {
        lemma_at_time_push(s, x, t);
    } else {
        let d = s.drop_last();
        let l = s.last();
        lemma_insert_at_time(d, x, t);
        lemma_at_time_push(insert_by_time(d, x), l, t);
        lemma_at_time_push(d, l, t);
        lemma_at_time_push(d, x, t);
        assert(d.push(l) =~= s);
        if x.0 == t {
            assert(l.0 != t);
        }
    }
}

/// `stable_sort` keeps, for every timestamp, exactly the entries with that
/// timestamp in their original order: it is a stable permutation.
pub proof fn lemma_stable_sort_at_time(s: Seq<Entry>, t: u64)
    ensures
        at_time(stable_sort(s), t) == at_time(s, t),
    decreases s.len(),
{
    if s.len() > 0 {
        let d = s.drop_last();
        lemma_stable_sort_at_time(d, t);
        lemma_insert_at_time(stable_sort(d), s.last(), t);
        lemma_at_time_push(d, s.last(), t);
        assert(d.push(s.last()) =~= s);
    } else {
        assert(at_time(s, t) =~= at_time(stable_sort(s), t));
    }
}

/// Inserts `line` into the time-sorted `out` after every line whose
/// timestamp is not later than its own.
fn insert_by_timestamp(out: &mut Vec<LyricLine>, line: LyricLine)
    requires
        sorted_by_time(lines_view(old(out)@)),
    ensures
        lines_view(final(out)@) == insert_by_time(lines_view(old(out)@), line@),
        sorted_by_time(lines_view(final(out)@)),
{
    let ghost s = lines_view(out@);
    // Binary search for the first line later than `line`.
    let mut lo: usize = 0;
    let mut hi: usize = out.len();
    while lo < hi
        invariant
            0 <= lo <= hi <= out@.len(),
            s == lines_view(out@),
            sorted_by_time(s),
            forall|i: int| 0 <= i < lo ==> (#[trigger] s[i]).0 <= line.timestamp_ms,
            forall|i: int| hi <= i < s.len() ==> (#[trigger] s[i]).0 > line.timestamp_ms,
        decreases hi - lo,
    {
        let mid = lo + (hi - lo) / 2;
        if out[mid].timestamp_ms <= line.timestamp_ms {
            assert(s[mid as int].0 <= line.timestamp_ms);
            assert forall|i: int| 0 <= i < mid + 1 implies (#[trigger] s[i]).0 <= line.timestamp_ms by {
                assert(s[i].0 <= s[mid as int].0);
            }
            lo = mid + 1;
        } else {
            assert(s[mid as int].0 > line.timestamp_ms);
            assert forall|i: int| mid <= i < s.len() implies (#[trigger] s[i]).0 > line.timestamp_ms by {
                assert(s[mid as int].0 <= s[i].0);
            }
            hi = mid;
        }
    }
    proof {
        lemma_insert_at(s, line@, lo as int);
        lemma_insert_sorted(s, line@);
    }
    let ghost lv = line@;
    out.insert(lo, line);
    assert(lines_view(out@) =~= s.take(lo as int).push(lv) + s.skip(lo as int));
}

/// Adds the timed lines of the LRC line `v[lo..hi]` to the sorted `out`.
fn add_line_entries(
    out: &mut Vec<LyricLine>,
    v: &Vec<char>,
    lo: usize,
    hi: usize,
    Ghost(before): Ghost<Seq<Entry>>,
)
    requires
        lo <= hi <= v@.len(),
        lines_view(old(out)@) == stable_sort(before),
        sorted_by_time(lines_view(old(out)@)),
    ensures
        lines_view(final(out)@) == stable_sort(before + line_entries(v@.subrange(lo as int, hi as int))),
        sorted_by_time(lines_view(final(out)@)),
{
    let ghost line = v@.subrange(lo as int, hi as int);
    match parse_lrc_line(v, lo, hi) {
        None => {
            assert(before + line_entries(line) =~= before);
        },
        Some(ls) => {
            let mut ls = ls;
            let ghost all = lines_view(ls@);
            let mut k: usize = 0;
            assert(before + all.take(0) =~= before);
            let total = ls.len();
            while ls.len() > 0
                invariant
                    total == all.len(),
                    k + ls@.len() == all.len(),
                    lines_view(ls@) == all.skip(k as int),
                    lines_view(out@) == stable_sort(before + all.take(k as int)),
                    sorted_by_time(lines_view(out@)),
                decreases ls@.len(),
            {
                let ghost prev = before + all.take(k as int);
                let ghost old_ls = ls@;
                let l = ls.remove(0);
                assert(lines_view(old_ls)[0] == old_ls[0]@);
                assert(all.skip(k as int)[0] == all[k as int]);
                assert(l@ == all[k as int]);
                insert_by_timestamp(out, l);
                assert((before + all.take(k + 1)).drop_last() =~= prev);
                assert(lines_view(ls@) =~= lines_view(old_ls).drop_first());
                assert(all.skip(k as int).drop_first() =~= all.skip(k + 1));
                k = k + 1;
            }
            assert(all.take(k as int) =~= all);
        },
    }
}

/// Parses an LRC document into its timed lines, ordered by timestamp (lines
/// with equal timestamps keep their document order).  Lines that are not
/// lyric lines, time tags that do not parse and lines without text are
/// skipped.
pub fn parse_lrc(input: &str) -> (lines: Vec<LyricLine>)
    ensures
        lines_view(lines@) == parse_lrc_spec(input@),
        sorted_by_time(lines_view(lines@)),
{
    let v = chars_of(input);
    let n = v.len();
    let mut out: Vec<LyricLine> = Vec::new();
    let ghost mut done: Seq<Seq<char>> = Seq::empty();
    let mut start: usize = 0;
    let mut i: usize = 0;
    assert(lines_view(out@) =~= stable_sort(entries_of_lines(done)));
    while i < n
        invariant
            n == v@.len(),
            v@ == input@,
            start <= i <= n,
            split_lines(v@.take(i as int)) == (done, v@.subrange(start as int, i as int)),
            lines_view(out@) == stable_sort(entries_of_lines(done)),
            sorted_by_time(lines_view(out@)),
        decreases n - i,
    {
        let tk = Ghost(v@.take(i + 1));
        assert(tk@.drop_last() =~= v@.take(i as int));
        assert(tk@.last() == v@[i as int]);
        if v[i] == '\n' {
            let ghost line = v@.subrange(start as int, i as int);
            add_line_entries(&mut out, &v, start, i, Ghost(entries_of_lines(done)));
            proof {
                assert(done.push(line).drop_last() =~= done);
                done = done.push(line);
                assert(v@.subrange(i + 1, i + 1) =~= Seq::<char>::empty());
            }
            start = i + 1;
        } else {
            assert(v@.subrange(start as int, i + 1) =~= v@.subrange(start as int, i as int).push(v@[i as int]));
        }
        i = i + 1;
    }
    assert(v@.take(n as int) =~= v@);
    if start < n {
        let ghost line = v@.subrange(start as int, n as int);
        add_line_entries(&mut out, &v, start, n, Ghost(entries_of_lines(done)));
        assert(done.push(line).drop_last() =~= done);
    }
    out
}


/// Parsing orders a document's timed lines by timestamp and loses, adds and
/// reorders nothing else: for every timestamp, the parsed lines with that
/// timestamp are exactly the document's, in document order.
pub proof fn parse_lrc_is_stable_sort(input: Seq<char>, t: u64)
    ensures
        sorted_by_time(parse_lrc_spec(input)),
        parse_lrc_spec(input).len() == lrc_entries(input).len(),
        at_time(parse_lrc_spec(input), t) == at_time(lrc_entries(input), t),
{
    lemma_stable_sort_sorted(lrc_entries(input));
    lemma_stable_sort_at_time(lrc_entries(input), t);
}


/// Whether lyric lines are in non-decreasing timestamp order.
pub fn is_sorted_by_time(lines: &[LyricLine]) -> (r: bool)
    ensures
        r == sorted_by_time(lines_view(lines@)),
{
    let ghost s = lines_view(lines@);
    let n = lines.len();
    if n == 0 {
        return true;
    }
    let mut i: usize = 1;
    while i < n
        invariant
            1 <= i <= n,
            n == lines@.len(),
            s == lines_view(lines@),
            sorted_by_time(s.take(i as int)),
        decreases n - i,
    {
        if lines[i - 1].timestamp_ms > lines[i].timestamp_ms {
            assert(s[i - 1].0 > s[i as int].0);
            return false;
        }
        assert forall|a: int, b: int| 0 <= a <= b < i + 1 implies (#[trigger] s.take(i + 1)[a]).0 <= (
        #[trigger] s.take(i + 1)[b]).0 by {
            assert(s.take(i + 1)[a] == s[a]);
            assert(s.take(i + 1)[b] == s[b]);
            if b == i && a < i {
                assert(s.take(i as int)[a] == s[a]);
                assert(s.take(i as int)[i - 1] == s[i - 1]);
            } else if b < i {
                assert(s.take(i as int)[a] == s[a]);
                assert(s.take(i as int)[b] == s[b]);
            }
        }
        i = i + 1;
    }
    assert(s.take(n as int) =~= s);
    true
}

} // verus!
