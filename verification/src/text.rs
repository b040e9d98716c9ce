//! Scanning of comment text: whitespace, trimming, searching for a
//! delimiter. The functions work on a window `[lo, hi)` of a sequence of
//! characters, so that no piece of text is copied while it is taken apart.

use vstd::prelude::*;

verus! {

/// The characters that Unicode gives the property `White_Space`.
pub open spec fn is_whitespace(c: char) -> bool {
    let u = c as u32;
    ||| 0x09 <= u <= 0x0D
    ||| u == 0x20
    ||| u == 0x85
    ||| u == 0xA0
    ||| u == 0x1680
    ||| 0x2000 <= u <= 0x200A
    ||| u == 0x2028
    ||| u == 0x2029
    ||| u == 0x202F
    ||| u == 0x205F
    ||| u == 0x3000
}

/// The start of the window once leading whitespace is dropped.
pub open spec fn trim_lo(s: Seq<char>, lo: int, hi: int) -> int
    decreases hi - lo,
{
    if lo < hi && is_whitespace(s[lo]) {
        trim_lo(s, lo + 1, hi)
    } else {
        lo
    }
}

/// The end of the window once trailing whitespace is dropped.
pub open spec fn trim_hi(s: Seq<char>, lo: int, hi: int) -> int
    decreases hi - lo,
{
    if lo < hi && is_whitespace(s[hi - 1]) {
        trim_hi(s, lo, hi - 1)
    } else {
        hi
    }
}

/// The text without its leading and trailing whitespace.
pub open spec fn trim(s: Seq<char>) -> Seq<char> {
    let lo = trim_lo(s, 0, s.len() as int);
    s.subrange(lo, trim_hi(s, lo, s.len() as int))
}

/// The index of the first `c` in the window, or `hi` when there is none.
pub open spec fn find_in(s: Seq<char>, lo: int, hi: int, c: char) -> int
    decreases hi - lo,
{
    if lo < hi && s[lo] != c {
        find_in(s, lo + 1, hi, c)
    } else {
        lo
    }
}

/// How often `c` occurs in the window.
pub open spec fn count_in(s: Seq<char>, lo: int, hi: int, c: char) -> nat
    decreases hi - lo,
{
    if lo < hi {
        count_in(s, lo + 1, hi, c) + if s[lo] == c {
            1nat
        } else {
            0nat
        }
    } else {
        0
    }
}

/// Whether `s` begins with `prefix`.
pub open spec fn starts_with(s: Seq<char>, prefix: Seq<char>) -> bool {
    prefix.len() <= s.len() && s.subrange(0, prefix.len() as int) == prefix
}

/// Whether `s` ends with `suffix`.
pub open spec fn ends_with(s: Seq<char>, suffix: Seq<char>) -> bool {
    suffix.len() <= s.len() && s.subrange(s.len() - suffix.len(), s.len() as int) == suffix
}

/// Trimming keeps a window inside its bounds, leaves whitespace on neither
/// end of what remains, and drops nothing but whitespace.
pub proof fn lemma_trim_bounds(s: Seq<char>, lo: int, hi: int)
    requires
        0 <= lo <= hi <= s.len(),
    ensures
        lo <= trim_lo(s, lo, hi) <= hi,
        lo <= trim_hi(s, lo, hi) <= hi,
        trim_lo(s, lo, hi) < hi ==> !is_whitespace(s[trim_lo(s, lo, hi)]),
        lo < trim_hi(s, lo, hi) ==> !is_whitespace(s[trim_hi(s, lo, hi) - 1]),
        forall|k: int| lo <= k < trim_lo(s, lo, hi) ==> is_whitespace(#[trigger] s[k]),
        forall|k: int| trim_hi(s, lo, hi) <= k < hi ==> is_whitespace(#[trigger] s[k]),
    decreases hi - lo,
{
    if lo < hi {
        if is_whitespace(s[lo]) {
            lemma_trim_bounds(s, lo + 1, hi);
        }
        if is_whitespace(s[hi - 1]) {
            lemma_trim_bounds(s, lo, hi - 1);
        }
    }
}

/// The first occurrence lies in the window, and nothing before it is `c`.
pub proof fn lemma_find_bounds(s: Seq<char>, lo: int, hi: int, c: char)
    requires
        0 <= lo <= hi <= s.len(),
    ensures
        lo <= find_in(s, lo, hi, c) <= hi,
        find_in(s, lo, hi, c) < hi ==> s[find_in(s, lo, hi, c)] == c,
        forall|k: int| lo <= k < find_in(s, lo, hi, c) ==> #[trigger] s[k] != c,
    decreases hi - lo,
{
    if lo < hi && s[lo] != c {
        lemma_find_bounds(s, lo + 1, hi, c);
    }
}

/// Whether `c` is a whitespace character.
pub fn is_whitespace_char(c: char) -> (r: bool)
    ensures
        r == is_whitespace(c),
{
    let u: u32 = c as u32;
    (0x09 <= u && u <= 0x0D) || u == 0x20 || u == 0x85 || u == 0xA0 || u == 0x1680 || (0x2000 <= u
        && u <= 0x200A) || u == 0x2028 || u == 0x2029 || u == 0x202F || u == 0x205F || u
        == 0x3000
}

/// The characters of `s`, in order.
pub fn chars_of(s: &str) -> (v: Vec<char>)
    ensures
        v@ == s@,
{
    let mut v: Vec<char> = Vec::new();
    for c in it: s.chars()
        invariant
            v@ == it.seq().take(it.index() as int),
    {
        v.push(c);
    }
    v
}

/// Drops the whitespace on both ends of the window `[lo, hi)`.
pub fn trim_window(chars: &Vec<char>, lo: usize, hi: usize) -> (r: (usize, usize))
    requires
        lo <= hi <= chars.len(),
    ensures
        r.0 == trim_lo(chars@, lo as int, hi as int),
        r.1 == trim_hi(chars@, r.0 as int, hi as int),
        lo <= r.0 <= r.1 <= hi,
{
    let mut a: usize = lo;
    while a < hi && is_whitespace_char(chars[a])
        invariant
            lo <= a <= hi <= chars.len(),
            trim_lo(chars@, lo as int, hi as int) == trim_lo(chars@, a as int, hi as int),
        decreases hi - a,
    {
        a += 1;
    }
    let mut b: usize = hi;
    while a < b && is_whitespace_char(chars[b - 1])
        invariant
            a <= b <= hi <= chars.len(),
            trim_hi(chars@, a as int, hi as int) == trim_hi(chars@, a as int, b as int),
        decreases b - a,
    {
        b -= 1;
    }
    (a, b)
}

/// Finds the first `c` in the window `[lo, hi)`; gives `hi` when there is none.
pub fn find_char(chars: &Vec<char>, lo: usize, hi: usize, c: char) -> (r: usize)
    requires
        lo <= hi <= chars.len(),
    ensures
        r == find_in(chars@, lo as int, hi as int, c),
        lo <= r <= hi,
{
    let mut i: usize = lo;
    while i < hi && chars[i] != c
        invariant
            lo <= i <= hi <= chars.len(),
            find_in(chars@, lo as int, hi as int, c) == find_in(chars@, i as int, hi as int, c),
        decreases hi - i,
    {
        i += 1;
    }
    i
}

/// Counts the occurrences of `c` in the window `[lo, hi)`.
pub fn count_char(chars: &Vec<char>, lo: usize, hi: usize, c: char) -> (r: usize)
    requires
        lo <= hi <= chars.len(),
    ensures
        r == count_in(chars@, lo as int, hi as int, c),
        r <= hi - lo,
{
    let mut i: usize = hi;
    let mut n: usize = 0;
    while lo < i
        invariant
            lo <= i <= hi <= chars.len(),
            n == count_in(chars@, i as int, hi as int, c),
            n <= hi - i,
        decreases i - lo,
    {
        i -= 1;
        if chars[i] == c {
            n += 1;
        }
    }
    n
}

/// Whether the window `[lo, hi)` spells `word`.
pub fn window_is(chars: &Vec<char>, lo: usize, hi: usize, word: &str) -> (r: bool)
    requires
        lo <= hi <= chars.len(),
    ensures
        r == (chars@.subrange(lo as int, hi as int) == word@),
{
    let expected = chars_of(word);
    if expected.len() != hi - lo {
        return false;
    }
    let mut i: usize = 0;
    while i < expected.len()
        invariant
            lo <= hi <= chars.len(),
            expected.len() == hi - lo,
            expected@ == word@,
            i <= expected.len(),
            forall|k: int| 0 <= k < i ==> chars@[lo + k] == expected@[k],
        decreases expected.len() - i,
    {
        if chars[lo + i] != expected[i] {
            assert(chars@.subrange(lo as int, hi as int)[i as int] != word@[i as int]);
            return false;
        }
        i += 1;
    }
    assert(chars@.subrange(lo as int, hi as int) =~= word@);
    true
}

} // verus!
