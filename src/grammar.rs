//! The grammar of an action line:
//! `!<kind>:<pattern> -> <verb> <argument>`.
//!
//! `<kind>` and `<verb>` are non-empty runs of word characters. The
//! pattern runs from the first `:` to the last ` -> ` that is followed by a
//! verb, a whitespace character and the argument. The separating spaces may
//! be any whitespace character, and neither the pattern nor the argument
//! holds a line break.

use vstd::prelude::*;
use crate::text::{is_white, is_white_char};

verus! {

/// Whether `c` is a Unicode word character, what `\w` matches in a regular expression.
pub uninterp spec fn word_char(c: char) -> bool;

/// Relies on `regex_syntax::is_word_character`, which tells whether `c` is a
/// Unicode word character (it needs the crate's Unicode tables, which are on
/// by default).
#[verifier::external_body]
fn is_word(c: char) -> (r: bool)
    ensures
        r == word_char(c),
{
    regex_syntax::is_word_character(c)
}

/// End of the run of word characters that starts at `i`.
pub open spec fn word_end(s: Seq<char>, i: int) -> int
    decreases s.len() - i,
{
    if 0 <= i < s.len() && word_char(s[i]) {
        word_end(s, i + 1)
    } else {
        i
    }
}

pub open spec fn no_newline(s: Seq<char>, lo: int, hi: int) -> bool {
    forall|i: int| lo <= i < hi ==> s[i] != '\n'
}

/// `s` starts with `!`, a kind and `:`.
pub open spec fn has_header(s: Seq<char>) -> bool {
    &&& s.len() > 0
    &&& s[0] == '!'
    &&& word_end(s, 1) > 1
    &&& word_end(s, 1) < s.len()
    &&& s[word_end(s, 1)] == ':'
}

/// From `p` on, `s` reads: whitespace, `->`, whitespace, a verb, whitespace
/// and an argument without line breaks.
pub open spec fn tail_at(s: Seq<char>, p: int) -> bool {
    &&& 0 <= p
    &&& p + 4 < s.len()
    &&& is_white(s[p])
    &&& s[p + 1] == '-'
    &&& s[p + 2] == '>'
    &&& is_white(s[p + 3])
    &&& word_end(s, p + 4) > p + 4
    &&& word_end(s, p + 4) < s.len()
    &&& is_white(s[word_end(s, p + 4)])
    &&& no_newline(s, word_end(s, p + 4) + 1, s.len() as int)
}

/// The pattern of `s` can end at `p`.
pub open spec fn split_at(s: Seq<char>, p: int) -> bool {
    &&& has_header(s)
    &&& word_end(s, 1) + 1 <= p
    &&& no_newline(s, word_end(s, 1) + 1, p)
    &&& tail_at(s, p)
}

/// `p` is the last place where the pattern of `s` can end.
pub open spec fn last_split(s: Seq<char>, p: int) -> bool {
    &&& split_at(s, p)
    &&& forall|q: int| p < q ==> !#[trigger] split_at(s, q)
}

/// The four parts of an action line.
pub struct LineParts {
    pub kind: Seq<char>,
    pub pattern: Seq<char>,
    pub verb: Seq<char>,
    pub argument: Seq<char>,
}

pub open spec fn parts_at(s: Seq<char>, p: int) -> LineParts {
    let k = word_end(s, 1);
    let v = word_end(s, p + 4);
    LineParts {
        kind: s.subrange(1, k),
        pattern: s.subrange(k + 1, p),
        verb: s.subrange(p + 4, v),
        argument: s.subrange(v + 1, s.len() as int),
    }
}

/// The parts of `s` when it is an action line.
pub open spec fn parse_line(s: Seq<char>) -> Option<LineParts> {
    if exists|p: int| last_split(s, p) {
        Some(parts_at(s, choose|p: int| last_split(s, p)))
    } else {
        None
    }
}

pub fn word_end_of(s: &[char], i: usize) -> (r: usize)
    requires
        i <= s@.len(),
    ensures
        i <= r <= s@.len(),
        r == word_end(s@, i as int),
{
    let mut j = i;
    while j < s.len() && is_word(s[j])
        invariant
            i <= j <= s@.len(),
            word_end(s@, j as int) == word_end(s@, i as int),
        decreases s@.len() - j,
    {
        j = j + 1;
    }
    j
}

fn no_newline_in(s: &[char], lo: usize, hi: usize) -> (r: bool)
    requires
        lo <= hi <= s@.len(),
    ensures
        r == no_newline(s@, lo as int, hi as int),
{
    let mut i = lo;
    while i < hi
        invariant
            lo <= i <= hi <= s@.len(),
            no_newline(s@, lo as int, i as int),
        decreases hi - i,
    {
        if s[i] == '\n' {
            return false;
        }
        i = i + 1;
    }
    true
}

fn tail_at_exec(s: &[char], p: usize) -> (r: bool)
    ensures
        r == tail_at(s@, p as int),
{
    if p >= s.len() || s.len() - p <= 4 {
        return false;
    }
    if !(is_white_char(s[p]) && s[p + 1] == '-' && s[p + 2] == '>' && is_white_char(s[p + 3])) {
        return false;
    }
    let v = word_end_of(s, p + 4);
    if v == p + 4 || v >= s.len() || !is_white_char(s[v]) {
        return false;
    }
    no_newline_in(s, v + 1, s.len())
}

/// Finds the last place where the pattern of an action line can end.
pub fn find_split(s: &[char]) -> (r: Option<usize>)
    ensures
        r matches Some(p) ==> last_split(s@, p as int),
        r is None ==> forall|p: int| !#[trigger] split_at(s@, p),
{
    if s.len() == 0 || s[0] != '!' {
        return None;
    }
    let k = word_end_of(s, 1);
    if k == 1 || k >= s.len() || s[k] != ':' {
        return None;
    }
    let mut hi = k + 1;
    while hi < s.len() && s[hi] != '\n'
        invariant
            k + 1 <= hi <= s@.len(),
            no_newline(s@, k + 1, hi as int),
        decreases s@.len() - hi,
    {
        hi = hi + 1;
    }
    let mut p = hi;
    while p > k
        invariant
            k < p <= hi || p == k,
            hi <= s@.len(),
            k == word_end(s@, 1),
            has_header(s@),
            no_newline(s@, k + 1, hi as int),
            hi < s@.len() ==> s@[hi as int] == '\n',
            forall|q: int| p < q ==> !#[trigger] split_at(s@, q),
        decreases p,
    {
        if tail_at_exec(s, p) {
            return Some(p);
        }
        p = p - 1;
    }
    None
}

/// The last split of a line is unique.
pub proof fn lemma_last_split_unique(s: Seq<char>, p: int, q: int)
    requires
        last_split(s, p),
        last_split(s, q),
    ensures
        p == q,
{
    if p < q {
        assert(split_at(s, q));
    } else if q < p {
        assert(split_at(s, p));
    }
}

} // verus!
