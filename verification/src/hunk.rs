//! Hunk lines and what a hunk says about itself before any input is read.

use crate::common::{chars_of, is_blank, is_space, string_of};
use vstd::prelude::*;

verus! {

/// What a line in the body of a hunk asks for.
#[derive(Clone, Copy, Debug, PartialEq, Eq, Structural)]
pub enum LineKind {
    /// The line is present on both sides.
    Context,
    /// The line is present on the old side only.
    Remove,
    /// The line is present on the new side only.
    Add,
}

/// One line of a hunk's body: its kind and its text without the marker.
#[derive(Clone, Debug, PartialEq, Eq)]
pub struct HunkLine {
    pub kind: LineKind,
    pub text: String,
}

/// The mathematical content of a hunk line.
pub ghost struct Row {
    pub kind: LineKind,
    pub text: Seq<char>,
}

impl View for HunkLine {
    type V = Row;

    open spec fn view(&self) -> Row {
        Row { kind: self.kind, text: self.text@ }
    }
}

/// The rows that a vector of hunk lines stands for.
pub open spec fn rows(v: Seq<HunkLine>) -> Seq<Row> {
    Seq::new(v.len(), |i: int| v[i]@)
}

/// The texts that a vector of lines stands for.
pub open spec fn texts(v: Seq<String>) -> Seq<Seq<char>> {
    Seq::new(v.len(), |i: int| v[i]@)
}

/// The row that a raw body line stands for, if it is one: the first
/// character is the marker, the rest is the text.
pub open spec fn body_row(raw: Seq<char>) -> Option<Row> {
    if raw.len() == 0 {
        None
    } else if raw[0] == ' ' {
        Some(Row { kind: LineKind::Context, text: raw.skip(1) })
    } else if raw[0] == '-' {
        Some(Row { kind: LineKind::Remove, text: raw.skip(1) })
    } else if raw[0] == '+' {
        Some(Row { kind: LineKind::Add, text: raw.skip(1) })
    } else {
        None
    }
}

/// In the given direction, a line of this kind is written to the output
/// without consuming input: an added line going forward, a removed line
/// going in reverse.
pub open spec fn inserts(kind: LineKind, reverse: bool) -> bool {
    if reverse {
        kind == LineKind::Remove
    } else {
        kind == LineKind::Add
    }
}

/// The number of input lines that the rows stand for: every row that is
/// not an insertion.
pub open spec fn consumed(h: Seq<Row>, reverse: bool) -> nat
    decreases h.len(),
{
    if h.len() == 0 {
        0
    } else if inserts(h.last().kind, reverse) {
        consumed(h.drop_last(), reverse)
    } else {
        consumed(h.drop_last(), reverse) + 1
    }
}

/// The number of context rows at the head of the hunk.
pub open spec fn leading_context(h: Seq<Row>) -> nat
    decreases h.len(),
{
    if h.len() == 0 || h[0].kind != LineKind::Context {
        0
    } else {
        1 + leading_context(h.skip(1))
    }
}

/// The number of context rows at the tail of the hunk.
pub open spec fn trailing_context(h: Seq<Row>) -> nat
    decreases h.len(),
{
    if h.len() == 0 || h.last().kind != LineKind::Context {
        0
    } else {
        1 + trailing_context(h.drop_last())
    }
}

/// The number of blank characters at the head of `s`.
pub open spec fn lead_blank(s: Seq<char>) -> nat
    decreases s.len(),
{
    if s.len() == 0 || !is_space(s[0]) {
        0
    } else {
        1 + lead_blank(s.skip(1))
    }
}

/// A text is substantial when, past its leading blank space, it has at
/// least two characters and the second of them is not blank.
pub open spec fn substantial(s: Seq<char>) -> bool {
    let n = lead_blank(s) as int;
    s.len() >= n + 2 && !is_space(s[n + 1])
}

/// The number of rows that can vouch for a fuzzy match: rows matched
/// against the input (context and removals) whose text is substantial.
pub open spec fn vouchers(h: Seq<Row>, reverse: bool) -> nat
    decreases h.len(),
{
    if h.len() == 0 {
        0
    } else if !inserts(h.last().kind, reverse) && substantial(h.last().text) {
        vouchers(h.drop_last(), reverse) + 1
    } else {
        vouchers(h.drop_last(), reverse)
    }
}

/// How one hunk is to be matched: direction, comparison, the number of
/// context mismatches tolerated, and the two anchors.
#[derive(Clone, Copy, Debug, PartialEq, Eq, Structural)]
pub struct Tuning {
    /// Apply the hunk backwards.
    pub reverse: bool,
    /// Compare lines ignoring blank space.
    pub loose: bool,
    /// The number of context lines that may differ from the input.
    pub budget: usize,
    /// The hunk must end where the input ends.
    pub at_end: bool,
    /// The hunk must start at the first line read.
    pub anchored: bool,
}

/// The tuning that a hunk calls for. It must end at the end of input when
/// it has no trailing context, or less of it than leading context; it must
/// start at the first line read when it has no leading context, or less of
/// it than trailing context. Context mismatches are tolerated only when at
/// least two rows vouch for the match: then as many as `fuzz` says, and,
/// where it says nothing, one fewer than there are leading context rows.
pub open spec fn tuning(h: Seq<Row>, reverse: bool, loose: bool, fuzz: Option<usize>) -> Tuning {
    let lead = leading_context(h);
    let trail = trailing_context(h);
    Tuning {
        reverse,
        loose,
        budget: if vouchers(h, reverse) < 2 {
            0usize
        } else {
            match fuzz {
                Some(v) => v,
                None => if lead > 0 {
                    (lead - 1) as usize
                } else {
                    0usize
                },
            }
        },
        at_end: trail == 0 || trail < lead,
        anchored: lead == 0 || trail > lead,
    }
}

impl HunkLine {
    /// A copy of the line.
    pub fn duplicate(&self) -> (r: HunkLine)
        ensures
            r@ == self@,
    {
        HunkLine { kind: self.kind, text: self.text.clone() }
    }

    /// Reads a raw line of a hunk's body. The first character says what
    /// the line is: a space for context, `-` for a removal, `+` for an
    /// addition. Anything else is not a body line.
    pub fn parse(raw: &str) -> (r: Option<HunkLine>)
        ensures
            match r {
                Some(l) => body_row(raw@) == Some(l@),
                None => body_row(raw@) is None,
            },
    {
        let v = chars_of(raw);
        if v.len() == 0 {
            return None;
        }
        let kind = if v[0] == ' ' {
            LineKind::Context
        } else if v[0] == '-' {
            LineKind::Remove
        } else if v[0] == '+' {
            LineKind::Add
        } else {
            return None;
        };
        let text = string_of(&v, 1, v.len());
        proof {
            assert(v@.subrange(1, v.len() as int) =~= raw@.skip(1));
        }
        Some(HunkLine { kind, text })
    }
}

/// Tells whether a line of this kind is an insertion in the given
/// direction.
pub fn is_insertion(kind: LineKind, reverse: bool) -> (r: bool)
    ensures
        r == inserts(kind, reverse),
{
    match kind {
        LineKind::Context => false,
        LineKind::Remove => reverse,
        LineKind::Add => !reverse,
    }
}

/// Tells whether a text is substantial.
pub fn is_substantial(s: &str) -> (r: bool)
    ensures
        r == substantial(s@),
{
    let v = chars_of(s);
    let mut n: usize = 0;
    assert(v@.skip(0) =~= v@);
    while n < v.len() && is_blank(v[n])
        invariant
            n <= v.len(),
            lead_blank(v@) == n + lead_blank(v@.skip(n as int)),
        decreases v.len() - n,
    {
        proof {
            assert(v@.skip(n as int).skip(1) =~= v@.skip(n + 1));
        }
        n += 1;
    }
    assert(lead_blank(v@) == n);
    if v.len() - n < 2 {
        return false;
    }
    !is_blank(v[n + 1])
}

/// Works out how a hunk is to be matched.
pub fn tune(h: &Vec<HunkLine>, reverse: bool, loose: bool, fuzz: Option<usize>) -> (t: Tuning)
    ensures
        t == tuning(rows(h@), reverse, loose, fuzz),
{
    let ghost hr = rows(h@);
    let mut lead: usize = 0;
    assert(hr.skip(0) =~= hr);
    while lead < h.len() && h[lead].kind == LineKind::Context
        invariant
            lead <= h.len(),
            hr == rows(h@),
            leading_context(hr) == lead + leading_context(hr.skip(lead as int)),
        decreases h.len() - lead,
    {
        proof {
            assert(hr.skip(lead as int).skip(1) =~= hr.skip(lead + 1));
        }
        lead += 1;
    }
    assert(leading_context(hr) == lead);
    let mut trail: usize = 0;
    let mut votes: usize = 0;
    let mut k: usize = 0;
    while k < h.len()
        invariant
            k <= h.len(),
            hr == rows(h@),
            trail == trailing_context(hr.take(k as int)),
            votes == vouchers(hr.take(k as int), reverse),
            trail <= k,
            votes <= k,
        decreases h.len() - k,
    {
        proof {
            assert(hr.take(k + 1).drop_last() =~= hr.take(k as int));
            assert(hr.take(k + 1).last() == hr[k as int]);
        }
        if h[k].kind == LineKind::Context {
            trail += 1;
        } else {
            trail = 0;
        }
        if !is_insertion(h[k].kind, reverse) && is_substantial(h[k].text.as_str()) {
            votes += 1;
        }
        k += 1;
    }
    proof {
        assert(hr.take(k as int) =~= hr);
    }
    let budget: usize = if votes < 2 {
        0
    } else {
        match fuzz {
            Some(v) => v,
            None => if lead > 0 {
                lead - 1
            } else {
                0
            },
        }
    };
    Tuning { reverse, loose, budget, at_end: trail == 0 || trail < lead, anchored: lead == 0 || trail > lead }
}

} // verus!
