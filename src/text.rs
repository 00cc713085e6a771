//! Character-level helpers: trimming and splitting on a delimiter.

use vstd::prelude::*;

verus! {

/// Whether `c` has the Unicode `White_Space` property.
pub open spec fn is_white_space_spec(c: char) -> bool {
    ('\u{9}' <= c && c <= '\u{d}') || c == ' ' || c == '\u{85}' || c == '\u{a0}'
        || c == '\u{1680}' || ('\u{2000}' <= c && c <= '\u{200a}') || c == '\u{2028}'
        || c == '\u{2029}' || c == '\u{202f}' || c == '\u{205f}' || c == '\u{3000}'
}

/// `s` without its leading white space.
pub open spec fn trim_front(s: Seq<char>) -> Seq<char>
    decreases s.len(),
{
    if s.len() > 0 && is_white_space_spec(s[0]) {
        trim_front(s.drop_first())
    } else {
        s
    }
}

/// `s` without its trailing white space.
pub open spec fn trim_back(s: Seq<char>) -> Seq<char>
    decreases s.len(),
{
    if s.len() > 0 && is_white_space_spec(s.last()) {
        trim_back(s.drop_last())
    } else {
        s
    }
}

/// `s` without leading and trailing white space.
pub open spec fn trim(s: Seq<char>) -> Seq<char> {
    trim_back(trim_front(s))
}

/// The pieces of `s` between the leftmost non-overlapping occurrences of
/// `delim`, where `cur` is the piece read so far.
pub open spec fn split_from(s: Seq<char>, delim: Seq<char>, cur: Seq<char>) -> Seq<Seq<char>>
    decreases s.len(),
{
    if s.len() == 0 {
        seq![cur]
    } else if 0 < delim.len() <= s.len() && s.take(delim.len() as int) == delim {
        seq![cur] + split_from(s.skip(delim.len() as int), delim, Seq::empty())
    } else {
        split_from(s.drop_first(), delim, cur.push(s[0]))
    }
}

/// The pieces of `s` between the leftmost non-overlapping occurrences of
/// `delim`; with no occurrence, `s` alone.
pub open spec fn split_on(s: Seq<char>, delim: Seq<char>) -> Seq<Seq<char>> {
    split_from(s, delim, Seq::empty())
}

/// Relies on `String::push`: the character is appended at the end.
pub assume_specification[ String::push ](s: &mut String, ch: char)
    ensures
        final(s)@ == old(s)@.push(ch),
;

/// Whether `c` has the Unicode `White_Space` property.
pub fn is_white_space(c: char) -> (r: bool)
    ensures
        r == is_white_space_spec(c),
{
    ('\u{9}' <= c && c <= '\u{d}') || c == ' ' || c == '\u{85}' || c == '\u{a0}'
        || c == '\u{1680}' || ('\u{2000}' <= c && c <= '\u{200a}') || c == '\u{2028}'
        || c == '\u{2029}' || c == '\u{202f}' || c == '\u{205f}' || c == '\u{3000}'
}

/// The characters of `s`, in order.
pub fn chars_of(s: &str) -> (r: Vec<char>)
    ensures
        r@ == s@,
{
    let mut r: Vec<char> = Vec::new();
    for c in it: s.chars()
        invariant
            it.seq() == s@,
            r@ == it.seq().take(it.index() as int),
    {
        r.push(c);
    }
    r
}

/// A string holding the characters of `v`.
pub fn string_of(v: &Vec<char>) -> (r: String)
    ensures
        r@ == v@,
{
    let mut r = String::new();
    let mut i: usize = 0;
    while i < v.len()
        invariant
            i <= v.len(),
            r@ == v@.take(i as int),
        decreases v.len() - i,
    {
        r.push(v[i]);
        assert(v@.take(i + 1) == v@.take(i as int).push(v@[i as int]));
        i = i + 1;
    }
    assert(v@.take(v.len() as int) == v@);
    r
}

/// The views of a sequence of character vectors.
pub open spec fn pieces_view(v: Seq<Vec<char>>) -> Seq<Seq<char>> {
    v.map_values(|p: Vec<char>| p@)
}

/// `s` without leading and trailing white space.
pub fn trim_chars(s: &Vec<char>) -> (r: Vec<char>)
    ensures
        r@ == trim(s@),
{
    let n = s.len();
    let mut i: usize = 0;
    assert(s@.skip(0) == s@);
    while i < n && is_white_space(s[i])
        invariant
            i <= n == s@.len(),
            trim_front(s@) == trim_front(s@.skip(i as int)),
        decreases n - i,
    {
        assert(s@.skip(i as int).drop_first() == s@.skip(i + 1));
        i = i + 1;
    }
    let ghost front = s@.skip(i as int);
    assert(trim_front(front) == front);
    let mut j: usize = n;
    while j > i && is_white_space(s[j - 1])
        invariant
            i <= j <= n == s@.len(),
            front == s@.subrange(i as int, n as int),
            trim_back(front) == trim_back(s@.subrange(i as int, j as int)),
        decreases j,
    {
        assert(s@.subrange(i as int, j as int).drop_last() == s@.subrange(i as int, j - 1));
        j = j - 1;
    }
    let ghost kept = s@.subrange(i as int, j as int);
    assert(trim_back(kept) == kept);
    let mut r: Vec<char> = Vec::new();
    let mut k: usize = i;
    while k < j
        invariant
            i <= k <= j <= n == s@.len(),
            r@ == s@.subrange(i as int, k as int),
        decreases j - k,
    {
        r.push(s[k]);
        assert(s@.subrange(i as int, k + 1) == s@.subrange(i as int, k as int).push(s@[k as int]));
        k = k + 1;
    }
    r
}

/// Whether `delim` occurs in `s` at position `i`.
pub fn occurs_at(s: &Vec<char>, i: usize, delim: &Vec<char>) -> (r: bool)
    requires
        i <= s.len(),
    ensures
        r == (i + delim.len() <= s.len() && s@.subrange(i as int, i + delim.len()) == delim@),
{
    if delim.len() > s.len() - i {
        return false;
    }
    let mut k: usize = 0;
    while k < delim.len()
        invariant
            k <= delim.len(),
            i + delim.len() <= s.len(),
            s@.subrange(i as int, i + k) == delim@.take(k as int),
        decreases delim.len() - k,
    {
        if s[i + k] != delim[k] {
            assert(s@.subrange(i as int, i + delim.len())[k as int] != delim@[k as int]);
            return false;
        }
        assert(s@.subrange(i as int, i + k + 1) == s@.subrange(i as int, i + k).push(s@[i + k]));
        assert(delim@.take(k + 1) == delim@.take(k as int).push(delim@[k as int]));
        k = k + 1;
    }
    assert(delim@.take(delim.len() as int) == delim@);
    true
}

/// The pieces of `s` between the leftmost non-overlapping occurrences of
/// `delim`.
pub fn split_chars(s: &Vec<char>, delim: &Vec<char>) -> (r: Vec<Vec<char>>)
    ensures
        pieces_view(r@) == split_on(s@, delim@),
{
    let n = s.len();
    let mut out: Vec<Vec<char>> = Vec::new();
    let mut cur: Vec<char> = Vec::new();
    let mut i: usize = 0;
    assert(s@.skip(0) == s@);
    while i < n
        invariant
            i <= n == s@.len(),
            pieces_view(out@) + split_from(s@.skip(i as int), delim@, cur@) == split_on(s@, delim@),
        decreases n - i,
    {
        let ghost rest = s@.skip(i as int);
        if delim.len() > 0 && occurs_at(s, i, delim) {
            assert(rest.take(delim.len() as int) == s@.subrange(i as int, i + delim.len()));
            assert(rest.skip(delim.len() as int) == s@.skip(i + delim.len()));
            let ghost before = pieces_view(out@);
            let piece = cur;
            out.push(piece);
            assert(pieces_view(out@) == before.push(piece@));
            cur = Vec::new();
            assert(before + (seq![piece@] + split_from(s@.skip(i + delim.len()), delim@, cur@))
                == before.push(piece@) + split_from(s@.skip(i + delim.len()), delim@, cur@));
            i = i + delim.len();
        } else {
            assert(!(rest.take(delim.len() as int) == delim@ && 0 < delim.len() <= rest.len()))
                by {
                if 0 < delim.len() <= rest.len() {
                    assert(rest.take(delim.len() as int) == s@.subrange(i as int, i + delim.len()));
                }
            }
            assert(rest.drop_first() == s@.skip(i + 1));
            cur.push(s[i]);
            i = i + 1;
        }
    }
    let ghost before = pieces_view(out@);
    out.push(cur);
    assert(pieces_view(out@) == before.push(cur@));
    assert(before + split_from(s@.skip(n as int), delim@, cur@) == before.push(cur@));
    out
}

} // verus!
