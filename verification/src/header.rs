//! Reading the header lines of a unified diff.

use crate::common::{chars_of, devnull, is_blank, is_digit, is_space, string_of, DEVNULL};
use peeking_take_while::PeekableExt;
use vstd::prelude::*;

verus! {

/// A class of characters that a scan can run over.
#[derive(Clone, Copy, Debug, PartialEq, Eq, Structural)]
pub enum CharClass {
    /// Blank space.
    Blank,
    /// The decimal digits.
    Digit,
    /// The path separator.
    Slash,
    /// Everything but the path separator.
    NotSlash,
    /// Everything but the tab.
    NotTab,
}

/// Whether `c` belongs to the class.
pub open spec fn in_class(k: CharClass, c: char) -> bool {
    match k {
        CharClass::Blank => is_space(c),
        CharClass::Digit => is_digit(c),
        CharClass::Slash => c == '/',
        CharClass::NotSlash => c != '/',
        CharClass::NotTab => c != '\t',
    }
}

/// Tells whether `c` is a decimal digit.
pub fn is_decimal(c: char) -> (r: bool)
    ensures
        r == is_digit(c),
{
    '0' <= c && c <= '9'
}

/// Tells whether `c` belongs to the class.
pub fn is_in_class(k: CharClass, c: char) -> (r: bool)
    ensures
        r == in_class(k, c),
{
    match k {
        CharClass::Blank => is_blank(c),
        CharClass::Digit => is_decimal(c),
        CharClass::Slash => c == '/',
        CharClass::NotSlash => c != '/',
        CharClass::NotTab => c != '\t',
    }
}

/// Where the run of characters of class `k` that starts at `p` ends: the
/// first position from `p` on that holds no character of the class.
pub open spec fn run_end(s: Seq<char>, p: int, k: CharClass) -> int
    decreases s.len() - p,
{
    if 0 <= p < s.len() && in_class(k, s[p]) {
        run_end(s, p + 1, k)
    } else {
        p
    }
}

/// A stretch of characters of one class that stops at the end of the
/// text, or before a character outside the class, is the run from its
/// start.
pub proof fn lemma_run_end_is(s: Seq<char>, p: int, e: int, k: CharClass)
    requires
        0 <= p <= e <= s.len(),
        forall|i: int| p <= i < e ==> in_class(k, #[trigger] s[i]),
        e < s.len() ==> !in_class(k, s[e]),
    ensures
        run_end(s, p, k) == e,
    decreases e - p,
{
    if p < e {
        lemma_run_end_is(s, p + 1, e, k);
    }
}

/// Finds where the run of class `k` that starts at `p` ends.
pub fn skip_run(v: &Vec<char>, p: usize, k: CharClass) -> (e: usize)
    requires
        p <= v.len(),
    ensures
        e == run_end(v@, p as int, k),
        p <= e <= v.len(),
        e < v.len() ==> !in_class(k, v[e as int]),
{
    let mut e: usize = p;
    while e < v.len() && is_in_class(k, v[e])
        invariant
            p <= e <= v.len(),
            run_end(v@, p as int, k) == run_end(v@, e as int, k),
        decreases v.len() - e,
    {
        e += 1;
    }
    e
}

/// The number that a run of decimal digits writes.
pub open spec fn number(ds: Seq<char>) -> nat
    decreases ds.len(),
{
    if ds.len() == 0 {
        0
    } else {
        number(ds.drop_last()) * 10 + (ds.last() as nat - '0' as nat) as nat
    }
}

/// `PeekableExt::peeking_take_while` on the characters from `from` on,
/// with the test for a decimal digit: the result is the stretch of digits
/// that starts at `from`, up to the end of the text or the first character
/// that is no digit.
#[verifier::external_body]
fn leading_digits(v: &Vec<char>, from: usize) -> (ds: Vec<char>)
    requires
        from <= v.len(),
    ensures
        from + ds.len() <= v.len(),
        ds@ == v@.subrange(from as int, from + ds.len()),
        forall|i: int| 0 <= i < ds.len() ==> is_digit(#[trigger] ds[i]),
        from + ds.len() < v.len() ==> !is_digit(v[from + ds.len()]),
{
    v[from..].iter().copied().peekable().peeking_take_while(|c| is_decimal(*c)).collect()
}

/// The value of a run of digits, if it fits the machine word.
pub fn value_of(ds: &Vec<char>) -> (r: Option<usize>)
    requires
        forall|i: int| 0 <= i < ds.len() ==> is_digit(#[trigger] ds[i]),
    ensures
        match r {
            Some(n) => n == number(ds@),
            None => number(ds@) > usize::MAX,
        },
{
    let mut n: usize = 0;
    let mut i: usize = 0;
    proof {
        assert(ds@.take(0) =~= Seq::<char>::empty());
    }
    while i < ds.len()
        invariant
            i <= ds.len(),
            forall|i: int| 0 <= i < ds.len() ==> is_digit(#[trigger] ds[i]),
            n == number(ds@.take(i as int)),
        decreases ds.len() - i,
    {
        let c = ds[i];
        let d: usize = (c as u32 - '0' as u32) as usize;
        proof {
            assert(ds@.take(i + 1).drop_last() =~= ds@.take(i as int));
            assert(ds@.take(i + 1).last() == c);
            assert(d == (c as nat - '0' as nat) as nat);
        }
        let next = match n.checked_mul(10) {
            Some(m) => m.checked_add(d),
            None => None,
        };
        match next {
            Some(m) => {
                n = m;
            },
            None => {
                proof {
                    assert(number(ds@.take(i + 1)) > usize::MAX);
                    lemma_number_grows(ds@, i + 1);
                }
                return None;
            },
        }
        i += 1;
    }
    proof {
        assert(ds@.take(i as int) =~= ds@);
    }
    Some(n)
}

/// A run of digits writes a number no smaller than any of its prefixes
/// does.
pub proof fn lemma_number_grows(ds: Seq<char>, k: int)
    requires
        0 <= k <= ds.len(),
    ensures
        number(ds.take(k)) <= number(ds),
    decreases ds.len(),
{
    if k == ds.len() {
        assert(ds.take(k) =~= ds);
    } else {
        assert(ds.drop_last().take(k) =~= ds.take(k));
        lemma_number_grows(ds.drop_last(), k);
    }
}

/// A number found in a text, and the position after it.
pub ghost struct Figure {
    pub value: nat,
    pub end: int,
}

/// Two numbers found in a text, and the position after them.
pub ghost struct Pair {
    pub start: nat,
    pub len: nat,
    pub end: int,
}

/// The four numbers of a hunk header, whatever their size.
pub ghost struct Quad {
    pub oldline: nat,
    pub oldlen: nat,
    pub newline: nat,
    pub newlen: nat,
}

/// A number written at `p`: blank space, then at least one digit.
pub open spec fn number_at(s: Seq<char>, p: int) -> Option<Figure> {
    let b = run_end(s, p, CharClass::Blank);
    let e = run_end(s, b, CharClass::Digit);
    if e > b {
        Some(Figure { value: number(s.subrange(b, e)), end: e })
    } else {
        None
    }
}

/// What reading a number gave: its value, if it fits the machine word, and
/// the position after it.
pub struct Numeral {
    pub value: Option<usize>,
    pub end: usize,
}

/// Reads a number written at `p`.
pub fn read_number(v: &Vec<char>, p: usize) -> (r: Option<Numeral>)
    requires
        p <= v.len(),
    ensures
        match r {
            Some(n) => number_at(v@, p as int) is Some && n.end == number_at(
                v@,
                p as int,
            )->0.end && p < n.end <= v.len() && match n.value {
                Some(x) => x == number_at(v@, p as int)->0.value,
                None => number_at(v@, p as int)->0.value > usize::MAX,
            },
            None => number_at(v@, p as int) is None,
        },
{
    let b = skip_run(v, p, CharClass::Blank);
    let ds = leading_digits(v, b);
    let e = b + ds.len();
    proof {
        assert forall|i: int| b <= i < e implies in_class(CharClass::Digit, #[trigger] v@[i]) by {
            assert(v@[i] == ds@[i - b]);
        }
        lemma_run_end_is(v@, b as int, e as int, CharClass::Digit);
    }
    if ds.len() == 0 {
        return None;
    }
    Some(Numeral { value: value_of(&ds), end: e })
}

/// A range written at `p`: a number, then, after a comma, a second one,
/// which is 1 where it is left out.
pub open spec fn range_at(s: Seq<char>, p: int) -> Option<Pair> {
    match number_at(s, p) {
        None => None,
        Some(first) => if 0 <= first.end < s.len() && s[first.end] == ',' {
            match number_at(s, first.end + 1) {
                None => None,
                Some(second) => Some(
                    Pair { start: first.value, len: second.value, end: second.end },
                ),
            }
        } else {
            Some(Pair { start: first.value, len: 1, end: first.end })
        },
    }
}

/// The four numbers of a hunk header.
#[derive(Clone, Copy, Debug, PartialEq, Eq, Structural)]
pub struct Span {
    pub oldline: usize,
    pub oldlen: usize,
    pub newline: usize,
    pub newlen: usize,
}

/// The numbers that a hunk header writes, whatever their size: the line
/// starts with `@@ -`, then comes the range of the old side, a space and
/// `+`, and the range of the new side. What follows is not looked at.
pub open spec fn hunk_header(s: Seq<char>) -> Option<Quad> {
    if !is_hunk_header(s) {
        None
    } else {
        match range_at(s, 4) {
            None => None,
            Some(old) => if !(0 <= old.end && old.end + 1 < s.len() && s[old.end] == ' '
                && s[old.end + 1] == '+') {
                None
            } else {
                match range_at(s, old.end + 2) {
                    None => None,
                    Some(new) => Some(
                        Quad {
                            oldline: old.start,
                            oldlen: old.len,
                            newline: new.start,
                            newlen: new.len,
                        },
                    ),
                }
            },
        }
    }
}

/// The span that a line declares, if it is a hunk header whose numbers fit
/// the machine word.
pub open spec fn span_of(s: Seq<char>) -> Option<Span> {
    match hunk_header(s) {
        Some(q) => if q.oldline <= usize::MAX && q.oldlen <= usize::MAX && q.newline
            <= usize::MAX && q.newlen <= usize::MAX {
            Some(
                Span {
                    oldline: q.oldline as usize,
                    oldlen: q.oldlen as usize,
                    newline: q.newline as usize,
                    newlen: q.newlen as usize,
                },
            )
        } else {
            None
        },
        None => None,
    }
}

/// What reading a range gave.
struct Extent {
    start: Option<usize>,
    len: Option<usize>,
    end: usize,
}

/// Reads a range written at `p`.
fn read_range(v: &Vec<char>, p: usize) -> (r: Option<Extent>)
    requires
        p <= v.len(),
    ensures
        match r {
            Some(x) => range_at(v@, p as int) is Some && x.end == range_at(v@, p as int)->0.end
                && x.end <= v.len() && (match x.start {
                Some(n) => n == range_at(v@, p as int)->0.start,
                None => range_at(v@, p as int)->0.start > usize::MAX,
            }) && (match x.len {
                Some(n) => n == range_at(v@, p as int)->0.len,
                None => range_at(v@, p as int)->0.len > usize::MAX,
            }),
            None => range_at(v@, p as int) is None,
        },
{
    let first = match read_number(v, p) {
        Some(n) => n,
        None => {
            return None;
        },
    };
    if first.end < v.len() && v[first.end] == ',' {
        match read_number(v, first.end + 1) {
            Some(second) => Some(Extent { start: first.value, len: second.value, end: second.end }),
            None => None,
        }
    } else {
        Some(Extent { start: first.value, len: Some(1), end: first.end })
    }
}

/// Reads a hunk header.
pub fn parse_hunk_header(line: &str) -> (r: Option<Span>)
    ensures
        r == span_of(line@),
{
    let v = chars_of(line);
    if !(v.len() >= 4 && v[0] == '@' && v[1] == '@' && v[2] == ' ' && v[3] == '-') {
        return None;
    }
    let old = match read_range(&v, 4) {
        Some(x) => x,
        None => {
            return None;
        },
    };
    if !(old.end < v.len() && v.len() - old.end > 1 && v[old.end] == ' ' && v[old.end + 1] == '+') {
        return None;
    }
    let new = match read_range(&v, old.end + 2) {
        Some(x) => x,
        None => {
            return None;
        },
    };
    match (old.start, old.len, new.start, new.len) {
        (Some(a), Some(b), Some(c), Some(d)) => Some(
            Span { oldline: a, oldlen: b, newline: c, newlen: d },
        ),
        _ => None,
    }
}

/// Whether a line is the header of an old file.
pub open spec fn is_old_header(s: Seq<char>) -> bool {
    s.len() >= 4 && s[0] == '-' && s[1] == '-' && s[2] == '-' && s[3] == ' '
}

/// Whether a line is the header of a new file.
pub open spec fn is_new_header(s: Seq<char>) -> bool {
    s.len() >= 4 && s[0] == '+' && s[1] == '+' && s[2] == '+' && s[3] == ' '
}

/// Whether a line starts a hunk.
pub open spec fn is_hunk_header(s: Seq<char>) -> bool {
    s.len() >= 4 && s[0] == '@' && s[1] == '@' && s[2] == ' ' && s[3] == '-'
}

/// The file that a file header names. The name runs from the fifth
/// character to the first tab. Where a number of at most 1970 follows the
/// tab, the file is dated at or before the epoch, which says that it does
/// not exist: the name is then the one that stands for no file.
pub open spec fn header_name(s: Seq<char>) -> Seq<char> {
    let tab = run_end(s, 4, CharClass::NotTab);
    match number_at(s, tab) {
        Some(year) => if year.value <= 1970 {
            devnull()
        } else {
            s.subrange(4, tab)
        },
        None => s.subrange(4, tab),
    }
}

/// Reads the name from a file header.
pub fn parse_header_name(line: &str) -> (name: String)
    requires
        line@.len() >= 4,
    ensures
        name@ == header_name(line@),
{
    let v = chars_of(line);
    let tab = skip_run(&v, 4, CharClass::NotTab);
    let gone = match read_number(&v, tab) {
        Some(n) => match n.value {
            Some(year) => year <= 1970,
            None => false,
        },
        None => false,
    };
    if gone {
        DEVNULL().to_owned()
    } else {
        string_of(&v, 4, tab)
    }
}

} // verus!
