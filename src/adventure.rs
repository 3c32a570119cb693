//! Adventure metadata: a name, an author, an optional version and the
//! scene that the adventure starts with.

use vstd::prelude::*;
use crate::scene::with_file_name;
use crate::text::{chars_of, trim_chars, trimmed};

verus! {

/// An adventure as its `about` file describes it.
#[derive(Debug, PartialEq, Eq)]
pub struct Adventure {
    name: String,
    author: String,
    version: Option<String>,
    start: String,
}

pub struct AdventureModel {
    pub name: Seq<char>,
    pub author: Seq<char>,
    pub version: Option<Seq<char>>,
    pub start: Seq<char>,
}

impl View for Adventure {
    type V = AdventureModel;

    closed spec fn view(&self) -> AdventureModel {
        AdventureModel {
            name: self.name@,
            author: self.author@,
            version: match self.version {
                Some(v) => Some(v@),
                None => None,
            },
            start: self.start@,
        }
    }
}

/// The file name of the start scene when the `about` file names none.
pub open spec fn default_start() -> Seq<char> {
    seq!['s', 't', 'a', 'r', 't', '.', 's', 'c', 'e', 'n', 'e']
}

pub open spec fn missing_name() -> Seq<char> {
    seq!['m', 'i', 's', 's', 'i', 'n', 'g', ' ', 'n', 'a', 'm', 'e']
}

pub open spec fn missing_author() -> Seq<char> {
    seq!['m', 'i', 's', 's', 'i', 'n', 'g', ' ', 'a', 'u', 't', 'h', 'o', 'r']
}

/// The line that presents an adventure: `"<name>" by <author>`, followed by
/// ` (version <version>)` when there is a version.
pub open spec fn title_of(a: AdventureModel) -> Seq<char> {
    seq!['"'] + a.name + seq!['"', ' ', 'b', 'y', ' '] + a.author + match a.version {
        Some(v) => seq![' ', '(', 'v', 'e', 'r', 's', 'i', 'o', 'n', ' '] + v + seq![')'],
        None => seq![],
    }
}

fn push_all(out: &mut Vec<char>, s: &str)
    ensures
        final(out)@ == old(out)@ + s@,
{
    let cs = crate::text::chars_of(s);
    let mut i: usize = 0;
    while i < cs.len()
        invariant
            i <= cs@.len(),
            cs@ == s@,
            out@ == old(out)@ + cs@.subrange(0, i as int),
        decreases cs@.len() - i,
    {
        out.push(cs[i]);
        i = i + 1;
        assert(out@ =~= old(out)@ + cs@.subrange(0, i as int));
    }
    assert(cs@.subrange(0, cs@.len() as int) =~= cs@);
}

fn push_chars(out: &mut Vec<char>, cs: &[char])
    ensures
        final(out)@ == old(out)@ + cs@,
{
    let mut i: usize = 0;
    while i < cs.len()
        invariant
            i <= cs@.len(),
            out@ == old(out)@ + cs@.subrange(0, i as int),
        decreases cs@.len() - i,
    {
        out.push(cs[i]);
        i = i + 1;
        assert(out@ =~= old(out)@ + cs@.subrange(0, i as int));
    }
    assert(cs@.subrange(0, cs@.len() as int) =~= cs@);
}

impl Adventure {
    pub fn new(name: String, author: String, version: Option<String>, start: String) -> (r: Adventure)
        ensures
            r@.name == name@,
            r@.author == author@,
            r@.version == match version {
                Some(v) => Some(v@),
                None => None::<Seq<char>>,
            },
            r@.start == start@,
    {
        Adventure { name, author, version, start }
    }

    /// Builds an adventure from the fields of the `about` file at `about`.
    /// The name and the author are required; the start scene lies beside the
    /// `about` file, and is `start.scene` unless `start` names another file.
    pub fn from_fields(
        about: &str,
        name: Option<String>,
        author: Option<String>,
        version: Option<String>,
        start: Option<String>,
    ) -> (r: Result<Adventure, String>)
        ensures
            name is None ==> (r matches Err(m) && m@ == missing_name()),
            name is Some && author is None ==> (r matches Err(m) && m@ == missing_author()),
            name is Some && author is Some <==> r is Ok,
            r matches Ok(a) ==> {
                &&& a@.name == name->Some_0@
                &&& a@.author == author->Some_0@
                &&& a@.version == match version {
                    Some(v) => Some(v@),
                    None => None::<Seq<char>>,
                }
                &&& a@.start == with_file_name(
                    about@,
                    match start {
                        Some(s) => s@,
                        None => default_start(),
                    },
                )
            },
    {
        let name = match name {
            Some(n) => n,
            None => {
                let m = ['m', 'i', 's', 's', 'i', 'n', 'g', ' ', 'n', 'a', 'm', 'e'];
                assert(m@ =~= missing_name());
                return Err(crate::text::string_of(m.as_slice()));
            },
        };
        let author = match author {
            Some(a) => a,
            None => {
                let m = ['m', 'i', 's', 's', 'i', 'n', 'g', ' ', 'a', 'u', 't', 'h', 'o', 'r'];
                assert(m@ =~= missing_author());
                return Err(crate::text::string_of(m.as_slice()));
            },
        };
        let file = match start {
            Some(s) => s,
            None => {
                let d = ['s', 't', 'a', 'r', 't', '.', 's', 'c', 'e', 'n', 'e'];
                assert(d@ =~= default_start());
                crate::text::string_of(d.as_slice())
            },
        };
        let start = crate::scene::sibling(about, file.as_str());
        Ok(Adventure { name, author, version, start })
    }

    /// The line that presents this adventure.
    pub fn title(&self) -> (r: String)
        ensures
            r@ == title_of(self@),
    {
        let mut out: Vec<char> = Vec::new();
        out.push('"');
        push_all(&mut out, self.name.as_str());
        push_chars(&mut out, ['"', ' ', 'b', 'y', ' '].as_slice());
        push_all(&mut out, self.author.as_str());
        match &self.version {
            Some(v) => {
                push_chars(&mut out, [' ', '(', 'v', 'e', 'r', 's', 'i', 'o', 'n', ' '].as_slice());
                push_all(&mut out, v.as_str());
                out.push(')');
            },
            None => {},
        }
        proof {
            let m = self@;
            assert(out@ =~= title_of(m));
        }
        crate::text::string_of(out.as_slice())
    }

    /// Where the start scene's file lies.
    pub fn start(&self) -> (r: &str)
        ensures
            r@ == self@.start,
    {
        self.start.as_str()
    }
}

pub open spec fn is_digit(c: char) -> bool {
    '0' <= c && c <= '9'
}

/// The value of a string of decimal digits.
pub open spec fn digits_value(s: Seq<char>) -> nat
    decreases s.len(),
{
    if s.len() == 0 {
        0
    } else {
        digits_value(s.drop_last()) * 10 + (s.last() as nat - '0' as nat) as nat
    }
}

/// The digits of a decimal number, with an optional leading `+`.
pub open spec fn number_digits(s: Seq<char>) -> Seq<char> {
    if s.len() > 0 && s[0] == '+' {
        s.subrange(1, s.len() as int)
    } else {
        s
    }
}

/// The number `s` writes in decimal, if it writes one.
pub open spec fn number_of(s: Seq<char>) -> Option<nat> {
    let d = number_digits(s);
    if d.len() > 0 && forall|i: int| 0 <= i < d.len() ==> is_digit(#[trigger] d[i]) {
        Some(digits_value(d))
    } else {
        None
    }
}

/// The adventure that an answer to the selection menu picks among `count`:
/// a number from 1 to `count`, whitespace around it aside, gives the index
/// one below it.
pub open spec fn selection_of(line: Seq<char>, count: nat) -> Option<nat> {
    match number_of(trimmed(line)) {
        Some(v) => if 1 <= v <= count {
            Some((v - 1) as nat)
        } else {
            None
        },
        None => None,
    }
}

/// Reads an answer to the adventure selection menu.
pub fn select(line: &str, count: usize) -> (r: Option<usize>)
    ensures
        match selection_of(line@, count as nat) {
            Some(i) => r == Some(i as usize),
            None => r is None,
        },
{
    let t = trim_chars(chars_of(line).as_slice());
    let n = t.len();
    let start: usize = if n > 0 && t[0] == '+' { 1 } else { 0 };
    let ghost d = number_digits(t@);
    assert(d =~= t@.subrange(start as int, n as int));
    if start == n {
        return None;
    }
    let mut i: usize = start;
    let mut v: usize = 0;
    let mut over = false;
    while i < n
        invariant
            start <= i <= n == t@.len(),
            d == t@.subrange(start as int, n as int),
            d == number_digits(t@),
            t@ == trimmed(line@),
            forall|j: int| start <= j < i ==> is_digit(#[trigger] t@[j]),
            !over ==> v == digits_value(t@.subrange(start as int, i as int)) && v <= count,
            over ==> digits_value(t@.subrange(start as int, i as int)) > count,
        decreases n - i,
    {
        let c = t[i];
        if !('0' <= c && c <= '9') {
            assert(!is_digit(d[i - start]));
            assert(number_of(t@) is None);
            return None;
        }
        let ghost prev = digits_value(t@.subrange(start as int, i as int));
        assert(t@.subrange(start as int, i + 1).drop_last() =~= t@.subrange(start as int, i as int));
        let digit = (c as u32 - '0' as u32) as usize;
        assert(digits_value(t@.subrange(start as int, i + 1)) == prev * 10 + digit);
        if over {
            assert(prev * 10 + digit >= prev) by (nonlinear_arith)
                requires prev >= 0, digit >= 0;
        } else {
            match v.checked_mul(10) {
                Some(m) => match m.checked_add(digit) {
                    Some(w) => {
                        if w <= count {
                            v = w;
                        } else {
                            over = true;
                        }
                    },
                    None => {
                        over = true;
                    },
                },
                None => {
                    over = true;
                },
            }
        }
        i = i + 1;
    }
    assert(t@.subrange(start as int, n as int) == d);
    if over || v == 0 {
        None
    } else {
        Some(v - 1)
    }
}

} // verus!
