//! Text helpers shared by the whole engine.

use std::cmp::Ordering;
use vstd::prelude::*;
use vstd::std_specs::iter::IteratorSpec;

verus! {

broadcast use vstd::string::group_string_axioms;

/// The characters that count as blank space: space, tab, line feed, form
/// feed and carriage return.
pub open spec fn is_space(c: char) -> bool {
    c == ' ' || c == '\t' || c == '\n' || c == '\x0C' || c == '\r'
}

/// Tells whether `c` is blank space.
pub fn is_blank(c: char) -> (r: bool)
    ensures
        r == is_space(c),
{
    c == ' ' || c == '\t' || c == '\n' || c == '\x0C' || c == '\r'
}

/// The decimal digits.
pub open spec fn is_digit(c: char) -> bool {
    '0' <= c && c <= '9'
}

/// `s` with every blank character taken out.
pub open spec fn squeeze(s: Seq<char>) -> Seq<char>
    decreases s.len(),
{
    if s.len() == 0 {
        Seq::empty()
    } else if is_space(s.last()) {
        squeeze(s.drop_last())
    } else {
        squeeze(s.drop_last()).push(s.last())
    }
}

/// Whether two lines count as the same text: character for character, or,
/// when `loose`, after all blank space has been taken out of both.
pub open spec fn same_text(a: Seq<char>, b: Seq<char>, loose: bool) -> bool {
    if loose {
        squeeze(a) == squeeze(b)
    } else {
        a == b
    }
}

/// The name that stands for a file that does not exist.
pub open spec fn devnull() -> Seq<char> {
    seq!['/', 'd', 'e', 'v', '/', 'n', 'u', 'l', 'l']
}

/// The name that stands for "this side of the diff does not exist".
#[allow(non_snake_case)]
pub fn DEVNULL() -> (r: &'static str)
    ensures
        r@ == devnull(),
{
    let r = "/dev/null";
    proof {
        reveal_strlit("/dev/null");
        assert(r@ =~= devnull());
    }
    r
}

/// Copies the characters of a string slice into a vector.
pub fn chars_of(s: &str) -> (v: Vec<char>)
    ensures
        v@ == s@,
{
    let mut v: Vec<char> = Vec::new();
    let mut it = s.chars();
    loop
        invariant
            it.obeys_prophetic_iter_laws(),
            v@ + it.remaining() == s@,
            it.decrease() is Some,
        decreases it.decrease()->0,
    {
        match it.next() {
            Some(c) => {
                v.push(c);
            },
            None => {
                return v;
            },
        }
    }
}

/// `String::push`: the string afterwards is the string before with `c`
/// appended.
#[verifier::external_body]
fn push_char(s: &mut String, c: char)
    ensures
        final(s)@ == old(s)@.push(c),
{
    s.push(c)
}

/// Builds a string from the characters `v[from..to]`.
pub fn string_of(v: &Vec<char>, from: usize, to: usize) -> (s: String)
    requires
        from <= to <= v.len(),
    ensures
        s@ == v@.subrange(from as int, to as int),
{
    let mut s = String::new();
    let mut i: usize = from;
    while i < to
        invariant
            from <= i <= to <= v.len(),
            s@ == v@.subrange(from as int, i as int),
        decreases to - i,
    {
        push_char(&mut s, v[i]);
        i += 1;
    }
    s
}

/// The characters of `s` that are not blank, in order.
pub fn squeezed(s: &str) -> (v: Vec<char>)
    ensures
        v@ == squeeze(s@),
{
    let mut v: Vec<char> = Vec::new();
    let mut it = s.chars();
    let ghost mut seen: Seq<char> = Seq::empty();
    loop
        invariant
            it.obeys_prophetic_iter_laws(),
            seen + it.remaining() == s@,
            v@ == squeeze(seen),
            it.decrease() is Some,
        decreases it.decrease()->0,
    {
        match it.next() {
            Some(c) => {
                proof {
                    assert(seen.push(c).drop_last() =~= seen);
                    seen = seen.push(c);
                }
                if !is_blank(c) {
                    v.push(c);
                }
            },
            None => {
                proof {
                    assert(seen =~= s@);
                }
                return v;
            },
        }
    }
}

/// The line with every NUL character turned into a space.
pub open spec fn normal(raw: Seq<char>) -> Seq<char> {
    Seq::new(
        raw.len(),
        |i: int|
            if raw[i] == '\0' {
                ' '
            } else {
                raw[i]
            },
    )
}

/// Turns every NUL character of a line into a space.
pub fn normalize(raw: &str) -> (line: String)
    ensures
        line@ == normal(raw@),
{
    let v = chars_of(raw);
    let mut line = String::new();
    let mut i: usize = 0;
    while i < v.len()
        invariant
            i <= v.len(),
            v@ == raw@,
            line@ == normal(raw@).take(i as int),
        decreases v.len() - i,
    {
        let c = if v[i] == '\0' {
            ' '
        } else {
            v[i]
        };
        push_char(&mut line, c);
        proof {
            assert(line@ =~= normal(raw@).take(i + 1));
        }
        i += 1;
    }
    proof {
        assert(normal(raw@).take(i as int) =~= normal(raw@));
    }
    line
}

/// Tells whether two texts are the same.
pub fn str_equal(a: &str, b: &str) -> (r: bool)
    ensures
        r == (a@ == b@),
{
    a.to_owned() == b.to_owned()
}

/// Whether two lines agree once all blank space is taken out of both.
pub fn loose_equal(aa: &str, bb: &str) -> (r: bool)
    ensures
        r == (squeeze(aa@) == squeeze(bb@)),
{
    let a = squeezed(aa);
    let b = squeezed(bb);
    if a.len() != b.len() {
        return false;
    }
    let mut i: usize = 0;
    while i < a.len()
        invariant
            a@ == squeeze(aa@),
            b@ == squeeze(bb@),
            a.len() == b.len(),
            i <= a.len(),
            a@.take(i as int) == b@.take(i as int),
        decreases a.len() - i,
    {
        if a[i] != b[i] {
            assert(a@[i as int] != b@[i as int]);
            return false;
        }
        proof {
            assert(a@.take(i + 1) =~= a@.take(i as int).push(a@[i as int]));
            assert(b@.take(i + 1) =~= b@.take(i as int).push(b@[i as int]));
        }
        i += 1;
    }
    proof {
        assert(a@.take(i as int) =~= a@);
        assert(b@.take(i as int) =~= b@);
    }
    true
}

/// Compares two lines ignoring blank space. The answer is `Equal` when the
/// lines agree once all blank space is taken out of both, and `Greater`
/// otherwise: it says whether the lines differ, not which comes first.
pub fn loosecmp(aa: &str, bb: &str) -> (r: Ordering)
    ensures
        r == Ordering::Equal <==> squeeze(aa@) == squeeze(bb@),
        r == Ordering::Equal || r == Ordering::Greater,
{
    if loose_equal(aa, bb) {
        Ordering::Equal
    } else {
        Ordering::Greater
    }
}

/// Compares two lines the way the configuration asks: exactly, or ignoring
/// blank space.
pub fn lines_match(a: &String, b: &String, loose: bool) -> (r: bool)
    ensures
        r == same_text(a@, b@, loose),
{
    if loose {
        loose_equal(a.as_str(), b.as_str())
    } else {
        *a == *b
    }
}

} // verus!
