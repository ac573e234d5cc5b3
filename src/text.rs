//! Character-level helpers shared by the parser: whitespace classes,
//! trimming, substring search, and conversions between `&str` and `Vec<char>`.

use vstd::prelude::*;
use vstd::std_specs::iter::IteratorSpec;

verus! {

broadcast use vstd::string::group_string_axioms;

/// A space or a tab: the characters that separate the parts of a tag.
pub open spec fn is_blank(c: char) -> bool {
    c == ' ' || c == '\t'
}

/// The text with its trailing spaces and tabs removed; newlines stay.
pub open spec fn trim_end_blank(s: Seq<char>) -> Seq<char>
    decreases s.len(),
{
    if s.len() > 0 && is_blank(s.last()) {
        trim_end_blank(s.drop_last())
    } else {
        s
    }
}

/// The characters of `s`, in order.
pub fn chars_of(s: &str) -> (r: Vec<char>)
    ensures
        r@ == s@,
{
    let mut it = s.chars();
    let mut v: Vec<char> = Vec::new();
    loop
        invariant
            it.obeys_prophetic_iter_laws(),
            v@ + it.remaining() == s@,
            it.decrease() is Some,
        ensures
            v@ == s@,
        decreases it.decrease()->0,
    {
        match it.next() {
            Some(c) => {
                v.push(c);
            },
            None => {
                assert(v@ + it.remaining() =~= v@);
                break;
            },
        }
    }
    v
}

/// Removes trailing spaces and tabs from a text run, keeping newlines.
pub fn trim_keep_newline(s: &str) -> (r: String)
    ensures
        r@ == trim_end_blank(s@),
{
    let v = chars_of(s);
    let mut end: usize = v.len();
    proof {
        assert(v@.subrange(0, end as int) =~= s@);
    }
    while end > 0 && (v[end - 1] == ' ' || v[end - 1] == '\t')
        invariant
            end <= v@.len(),
            trim_end_blank(v@.subrange(0, end as int)) == trim_end_blank(s@),
            v@ == s@,
        decreases end,
    {
        proof {
            assert(v@.subrange(0, end as int).drop_last() =~= v@.subrange(0, end - 1));
        }
        end = end - 1;
    }
    String::from_str(s.substring_char(0, end))
}

/// A white-space character in the sense of Unicode's `White_Space` property,
/// the set that `char::is_whitespace` tests.
pub open spec fn is_white(c: char) -> bool {
    ('\u{9}' <= c && c <= '\u{d}') || c == ' ' || c == '\u{85}' || c == '\u{a0}'
        || c == '\u{1680}' || ('\u{2000}' <= c && c <= '\u{200a}') || c == '\u{2028}'
        || c == '\u{2029}' || c == '\u{202f}' || c == '\u{205f}' || c == '\u{3000}'
}

/// An ASCII letter or digit.
pub open spec fn is_alnum(c: char) -> bool {
    ('a' <= c && c <= 'z') || ('A' <= c && c <= 'Z') || ('0' <= c && c <= '9')
}

/// The text without its leading white space.
pub open spec fn trim_start_white(s: Seq<char>) -> Seq<char>
    decreases s.len(),
{
    if s.len() > 0 && is_white(s[0]) {
        trim_start_white(s.drop_first())
    } else {
        s
    }
}

/// The text without its trailing white space.
pub open spec fn trim_end_white(s: Seq<char>) -> Seq<char>
    decreases s.len(),
{
    if s.len() > 0 && is_white(s.last()) {
        trim_end_white(s.drop_last())
    } else {
        s
    }
}

/// The text without white space at either end.
pub open spec fn trim_white(s: Seq<char>) -> Seq<char> {
    trim_end_white(trim_start_white(s))
}

/// `w` occurs in `s` starting at position `i`.
pub open spec fn starts_at(s: Seq<char>, i: int, w: Seq<char>) -> bool {
    0 <= i && i + w.len() <= s.len() && s.subrange(i, i + w.len()) == w
}

/// The first position at or after `i` where `w` occurs in `s`, or the length
/// of `s` where it occurs nowhere from `i` on.
pub open spec fn next_at(s: Seq<char>, i: int, w: Seq<char>) -> int
    decreases s.len() - i,
{
    if starts_at(s, i, w) {
        i
    } else if i >= s.len() {
        s.len() as int
    } else {
        next_at(s, i + 1, w)
    }
}

/// `w` occurs in `s` at some position.
pub open spec fn contains(s: Seq<char>, w: Seq<char>) -> bool {
    exists|i: int| #[trigger] starts_at(s, i, w)
}

/// The first position at or after `i` that holds no space or tab.
pub open spec fn skip_blank(s: Seq<char>, i: int) -> int
    decreases s.len() - i,
{
    if 0 <= i < s.len() && is_blank(s[i]) {
        skip_blank(s, i + 1)
    } else {
        i
    }
}

/// The first position at or after `i` that holds no ASCII letter or digit.
pub open spec fn skip_alnum(s: Seq<char>, i: int) -> int
    decreases s.len() - i,
{
    if 0 <= i < s.len() && is_alnum(s[i]) {
        skip_alnum(s, i + 1)
    } else {
        i
    }
}

pub proof fn lemma_next_at_bounds(s: Seq<char>, i: int, w: Seq<char>)
    requires
        0 <= i <= s.len(),
    ensures
        i <= next_at(s, i, w) <= s.len(),
    decreases s.len() - i,
{
    if !starts_at(s, i, w) && i < s.len() {
        lemma_next_at_bounds(s, i + 1, w);
    }
}

/// Where `w` does not occur in `s`, a search from the start runs to the end.
pub proof fn lemma_next_at_absent(s: Seq<char>, i: int, w: Seq<char>)
    requires
        0 <= i <= s.len(),
        !contains(s, w),
    ensures
        next_at(s, i, w) == s.len(),
    decreases s.len() - i,
{
    assert(!starts_at(s, i, w));
    if i < s.len() {
        lemma_next_at_absent(s, i + 1, w);
    }
}

pub fn is_blank_char(c: char) -> (r: bool)
    ensures
        r == is_blank(c),
{
    c == ' ' || c == '\t'
}

pub fn is_white_char(c: char) -> (r: bool)
    ensures
        r == is_white(c),
{
    ('\u{9}' <= c && c <= '\u{d}') || c == ' ' || c == '\u{85}' || c == '\u{a0}'
        || c == '\u{1680}' || ('\u{2000}' <= c && c <= '\u{200a}') || c == '\u{2028}'
        || c == '\u{2029}' || c == '\u{202f}' || c == '\u{205f}' || c == '\u{3000}'
}

pub fn is_alnum_char(c: char) -> (r: bool)
    ensures
        r == is_alnum(c),
{
    ('a' <= c && c <= 'z') || ('A' <= c && c <= 'Z') || ('0' <= c && c <= '9')
}

/// Tells whether `w` occurs in `s` at position `i`.
pub fn starts_at_pos(s: &Vec<char>, i: usize, w: &Vec<char>) -> (r: bool)
    ensures
        r == starts_at(s@, i as int, w@),
        r ==> i + w@.len() <= s.len(),
{
    if i > s.len() || w.len() > s.len() - i {
        return false;
    }
    let mut k: usize = 0;
    while k < w.len()
        invariant
            i + w@.len() <= s@.len(),
            s@.len() == s.len(),
            k <= w@.len(),
            forall|j: int| 0 <= j < k ==> s@[i + j] == w@[j],
        decreases w@.len() - k,
    {
        let j: usize = i + k;
        if s[j] != w[k] {
            proof {
                assert(s@.subrange(i as int, i + w@.len())[k as int] != w@[k as int]);
            }
            return false;
        }
        k = k + 1;
    }
    proof {
        assert(s@.subrange(i as int, i + w@.len()) =~= w@);
    }
    true
}

/// The first position at or after `i` where `w` occurs, or the end of `s`.
pub fn next_at_pos(s: &Vec<char>, i: usize, w: &Vec<char>) -> (r: usize)
    requires
        i <= s@.len(),
    ensures
        r as int == next_at(s@, i as int, w@),
        i <= r <= s@.len(),
{
    proof {
        lemma_next_at_bounds(s@, i as int, w@);
    }
    let mut k: usize = i;
    loop
        invariant
            i <= k <= s@.len(),
            next_at(s@, k as int, w@) == next_at(s@, i as int, w@),
        decreases s@.len() - k,
    {
        if starts_at_pos(s, k, w) {
            return k;
        }
        if k >= s.len() {
            return s.len();
        }
        k = k + 1;
    }
}

/// The first position at or after `i` that holds no space or tab.
pub fn skip_blank_pos(s: &Vec<char>, i: usize) -> (r: usize)
    requires
        i <= s@.len(),
    ensures
        r as int == skip_blank(s@, i as int),
        i <= r <= s@.len(),
{
    let mut k: usize = i;
    while k < s.len() && is_blank_char(s[k])
        invariant
            i <= k <= s@.len(),
            skip_blank(s@, k as int) == skip_blank(s@, i as int),
        decreases s@.len() - k,
    {
        k = k + 1;
    }
    k
}

/// The first position at or after `i` that holds no ASCII letter or digit.
pub fn skip_alnum_pos(s: &Vec<char>, i: usize) -> (r: usize)
    requires
        i <= s@.len(),
    ensures
        r as int == skip_alnum(s@, i as int),
        i <= r <= s@.len(),
{
    let mut k: usize = i;
    while k < s.len() && is_alnum_char(s[k])
        invariant
            i <= k <= s@.len(),
            skip_alnum(s@, k as int) == skip_alnum(s@, i as int),
        decreases s@.len() - k,
    {
        k = k + 1;
    }
    k
}

/// The characters of `src` from `a` to `b`, as a string.
pub fn slice_string(src: &str, a: usize, b: usize) -> (r: String)
    requires
        a <= b <= src@.len(),
    ensures
        r@ == src@.subrange(a as int, b as int),
{
    String::from_str(src.substring_char(a, b))
}

/// The characters of `src` from `a` to `b` with white space trimmed at both
/// ends; `s` holds the characters of `src`.
pub fn slice_trimmed(src: &str, s: &Vec<char>, a: usize, b: usize) -> (r: String)
    requires
        a <= b <= s@.len(),
        s@ == src@,
    ensures
        r@ == trim_white(s@.subrange(a as int, b as int)),
{
    let mut lo: usize = a;
    while lo < b && is_white_char(s[lo])
        invariant
            a <= lo <= b,
            b <= s@.len(),
            trim_start_white(s@.subrange(lo as int, b as int)) == trim_start_white(
                s@.subrange(a as int, b as int),
            ),
        decreases b - lo,
    {
        proof {
            assert(s@.subrange(lo as int, b as int).drop_first() =~= s@.subrange(lo + 1, b as int));
        }
        lo = lo + 1;
    }
    let mut hi: usize = b;
    proof {
        assert(trim_start_white(s@.subrange(lo as int, b as int)) == s@.subrange(lo as int, b as int));
    }
    while hi > lo && is_white_char(s[hi - 1])
        invariant
            lo <= hi <= b,
            b <= s@.len(),
            trim_end_white(s@.subrange(lo as int, hi as int)) == trim_white(
                s@.subrange(a as int, b as int),
            ),
        decreases hi,
    {
        proof {
            assert(s@.subrange(lo as int, hi as int).drop_last() =~= s@.subrange(lo as int, hi - 1));
        }
        hi = hi - 1;
    }
    slice_string(src, lo, hi)
}

/// The characters of `src` from `a` to `b` with trailing spaces and tabs
/// removed; `s` holds the characters of `src`.
pub fn slice_trim_end_blank(src: &str, s: &Vec<char>, a: usize, b: usize) -> (r: String)
    requires
        a <= b <= s@.len(),
        s@ == src@,
    ensures
        r@ == trim_end_blank(s@.subrange(a as int, b as int)),
{
    let mut hi: usize = b;
    while hi > a && is_blank_char(s[hi - 1])
        invariant
            a <= hi <= b,
            b <= s@.len(),
            trim_end_blank(s@.subrange(a as int, hi as int)) == trim_end_blank(
                s@.subrange(a as int, b as int),
            ),
        decreases hi,
    {
        proof {
            assert(s@.subrange(a as int, hi as int).drop_last() =~= s@.subrange(a as int, hi - 1));
        }
        hi = hi - 1;
    }
    slice_string(src, a, hi)
}

} // verus!
