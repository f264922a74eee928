//! Finding the place in the input that a hunk describes.
//!
//! A hunk is laid against the input at a position: its rows that are not
//! insertions are paired, in order, with the input lines from that position
//! on. The search tries the first line read, then the next, and so on,
//! until the hunk agrees with the input or the input runs out.

use crate::common::{lines_match, same_text};
use crate::hunk::{consumed, inserts, is_insertion, rows, texts, HunkLine, LineKind, Row, Tuning};
use vstd::prelude::*;

verus! {

/// Every removal among the rows has its text in the input, when the rows
/// are laid against the input at `at`.
pub open spec fn removals_found(h: Seq<Row>, t: Tuning, input: Seq<Seq<char>>, at: int) -> bool
    decreases h.len(),
{
    if h.len() == 0 {
        true
    } else {
        let head = h.drop_last();
        let row = h.last();
        &&& removals_found(head, t, input, at)
        &&& (!inserts(row.kind, t.reverse) && row.kind != LineKind::Context ==> same_text(
            input[at + consumed(head, t.reverse)],
            row.text,
            t.loose,
        ))
    }
}

/// The number of context rows whose text differs from the input line they
/// are paired with, when the rows are laid against the input at `at`.
pub open spec fn misses(h: Seq<Row>, t: Tuning, input: Seq<Seq<char>>, at: int) -> nat
    decreases h.len(),
{
    if h.len() == 0 {
        0
    } else {
        let head = h.drop_last();
        let row = h.last();
        if row.kind == LineKind::Context && !same_text(
            input[at + consumed(head, t.reverse)],
            row.text,
            t.loose,
        ) {
            misses(head, t, input, at) + 1
        } else {
            misses(head, t, input, at)
        }
    }
}

/// The rows agree with the input at `at`: the input has a line for every
/// row that is not an insertion, every removal has its text there, and no
/// more context rows differ than the budget allows.
pub open spec fn agrees(h: Seq<Row>, t: Tuning, input: Seq<Seq<char>>, at: int) -> bool {
    &&& at + consumed(h, t.reverse) <= input.len()
    &&& removals_found(h, t, input, at)
    &&& misses(h, t, input, at) <= t.budget
}

/// The hunk fits the input at `at`: it agrees with the input there and, if
/// it must end where the input ends, does so.
pub open spec fn fits(h: Seq<Row>, t: Tuning, input: Seq<Seq<char>>, at: int) -> bool {
    &&& agrees(h, t, input, at)
    &&& (t.at_end ==> at + consumed(h, t.reverse) == input.len())
}

/// The number of leading rows walked when the hunk is laid against the
/// input at `at`, starting from row `k`: the walk goes on for as long as
/// the rows up to and including the next one agree with the input.
pub open spec fn reach_from(h: Seq<Row>, t: Tuning, input: Seq<Seq<char>>, at: int, k: int) -> int
    decreases h.len() - k,
{
    if 0 <= k < h.len() && agrees(h.take(k + 1), t, input, at) {
        reach_from(h, t, input, at, k + 1)
    } else {
        k
    }
}

/// The number of leading rows walked when the hunk is laid against the
/// input at `at`.
pub open spec fn reach(h: Seq<Row>, t: Tuning, input: Seq<Seq<char>>, at: int) -> int {
    reach_from(h, t, input, at, 0)
}

/// Among the rows there is an insertion whose text is already in the
/// input, at the line where the row after it would be matched. A hunk that
/// fails where this holds may have been applied before.
pub open spec fn suspect(h: Seq<Row>, t: Tuning, input: Seq<Seq<char>>, at: int) -> bool
    decreases h.len(),
{
    if h.len() == 0 {
        false
    } else {
        let head = h.drop_last();
        let row = h.last();
        let line = at + consumed(head, t.reverse);
        ||| suspect(head, t, input, at)
        ||| (inserts(row.kind, t.reverse) && line < input.len() && same_text(
            input[line],
            row.text,
            t.loose,
        ))
    }
}

/// How a search for a hunk ends.
pub ghost enum Outcome {
    /// The hunk fits at line `at` of the input.
    Found { at: int },
    /// The hunk has no place. `read` is the line up to which the input was
    /// read, `at_end` says that the input ran out during the search, and
    /// `warned` that an insertion of the hunk was seen in the input.
    Lost { read: int, at_end: bool, warned: bool },
}

/// Adds what an earlier position saw to the outcome of the positions after
/// it.
pub open spec fn noting(o: Outcome, seen: bool) -> Outcome {
    match o {
        Outcome::Found { at } => o,
        Outcome::Lost { read, at_end, warned } => Outcome::Lost {
            read,
            at_end,
            warned: warned || seen,
        },
    }
}

/// Searches for the hunk from line `at` of the input on. At each position
/// the rows are walked for as long as they agree with the input. If all of
/// them do, and the hunk ends where it must, it is found. If the input
/// runs out under the walk, the hunk is lost. Otherwise the position is
/// given up: an anchored hunk is lost, any other is tried one line on.
pub open spec fn search(h: Seq<Row>, t: Tuning, input: Seq<Seq<char>>, at: int) -> Outcome
    decreases input.len() - at,
{
    let k = reach(h, t, input, at);
    let walked = h.take(k);
    let next = at + consumed(walked, t.reverse);
    let warned = suspect(walked, t, input, at);
    if k == h.len() && (!t.at_end || next == input.len()) {
        Outcome::Found { at }
    } else if k < h.len() && next >= input.len() {
        Outcome::Lost { read: input.len() as int, at_end: true, warned }
    } else if t.anchored || at >= input.len() {
        Outcome::Lost { read: next + 1, at_end: false, warned }
    } else {
        noting(search(h, t, input, at + 1), warned)
    }
}

/// What takes the place of the matched lines when the hunk is applied at
/// `at`: each context row gives the input line it was paired with, each
/// insertion its own text, and removals give nothing.
pub open spec fn replacement(h: Seq<Row>, t: Tuning, input: Seq<Seq<char>>, at: int) -> Seq<
    Seq<char>,
>
    decreases h.len(),
{
    if h.len() == 0 {
        Seq::empty()
    } else {
        let head = h.drop_last();
        let row = h.last();
        if inserts(row.kind, t.reverse) {
            replacement(head, t, input, at).push(row.text)
        } else if row.kind == LineKind::Context {
            replacement(head, t, input, at).push(input[at + consumed(head, t.reverse)])
        } else {
            replacement(head, t, input, at)
        }
    }
}

/// The side of the hunk that is matched against the input: the texts of
/// its rows that are not insertions, in order. Going forward this is the
/// old side, in reverse the new one.
pub open spec fn side(h: Seq<Row>, reverse: bool) -> Seq<Seq<char>>
    decreases h.len(),
{
    if h.len() == 0 {
        Seq::empty()
    } else if inserts(h.last().kind, reverse) {
        side(h.drop_last(), reverse)
    } else {
        side(h.drop_last(), reverse).push(h.last().text)
    }
}

/// The input with the hunk applied at `at`: the lines before, the
/// replacement, and the lines after those that the hunk matched.
pub open spec fn patched(h: Seq<Row>, t: Tuning, input: Seq<Seq<char>>, at: int) -> Seq<Seq<char>> {
    input.take(at) + replacement(h, t, input, at) + input.skip(at + consumed(h, t.reverse))
}

/// The same tuning for the opposite direction, with a budget of its own.
pub open spec fn turned(t: Tuning, budget: usize) -> Tuning {
    Tuning { reverse: !t.reverse, budget, ..t }
}

/// What one walk of the rows found.
pub struct Walk {
    /// The number of rows walked.
    pub rows: usize,
    /// The number of input lines they were paired with.
    pub lines: usize,
    /// An insertion among them was seen in the input.
    pub warned: bool,
}

/// Lays the hunk against the input at `at` and walks its rows for as long
/// as they agree with the input.
pub fn walk(h: &Vec<HunkLine>, t: Tuning, input: &Vec<String>, at: usize) -> (w: Walk)
    requires
        at <= input.len(),
    ensures
        w.rows == reach(rows(h@), t, texts(input@), at as int),
        w.rows <= h.len(),
        w.lines == consumed(rows(h@).take(w.rows as int), t.reverse),
        at + w.lines <= input.len(),
        w.warned == suspect(rows(h@).take(w.rows as int), t, texts(input@), at as int),
        w.rows < h.len() ==> !inserts(h[w.rows as int].kind, t.reverse),
{
    let ghost hr = rows(h@);
    let ghost inp = texts(input@);
    let mut k: usize = 0;
    let mut j: usize = 0;
    let mut used: usize = 0;
    let mut warned = false;
    proof {
        assert(hr.take(0) =~= Seq::<Row>::empty());
    }
    while k < h.len()
        invariant
            hr == rows(h@),
            inp == texts(input@),
            k <= h.len(),
            at + j <= input.len(),
            j == consumed(hr.take(k as int), t.reverse),
            used == misses(hr.take(k as int), t, inp, at as int),
            used <= t.budget,
            removals_found(hr.take(k as int), t, inp, at as int),
            warned == suspect(hr.take(k as int), t, inp, at as int),
            reach(hr, t, inp, at as int) == reach_from(hr, t, inp, at as int, k as int),
        decreases h.len() - k,
    {
        proof {
            assert(hr.take(k + 1).drop_last() =~= hr.take(k as int));
            assert(hr.take(k + 1).last() == hr[k as int]);
            assert(hr[k as int] == h@[k as int]@);
        }
        let row = &h[k];
        if is_insertion(row.kind, t.reverse) {
            if at + j < input.len() {
                proof {
                    assert(inp[at + j] == input@[at + j]@);
                }
                if lines_match(&input[at + j], &row.text, t.loose) {
                    warned = true;
                }
            }
        } else {
            if at + j >= input.len() {
                return Walk { rows: k, lines: j, warned };
            }
            proof {
                assert(inp[at + j] == input@[at + j]@);
            }
            if lines_match(&input[at + j], &row.text, t.loose) {
                j += 1;
            } else if row.kind == LineKind::Context && used < t.budget {
                used += 1;
                j += 1;
            } else {
                return Walk { rows: k, lines: j, warned };
            }
        }
        k += 1;
    }
    Walk { rows: k, lines: j, warned }
}

/// How a search ended, in executable form.
pub enum Located {
    /// The hunk fits at this line of the input.
    Found { at: usize },
    /// The hunk has no place.
    Lost { read: usize, at_end: bool, warned: bool },
}

impl View for Located {
    type V = Outcome;

    open spec fn view(&self) -> Outcome {
        match *self {
            Located::Found { at } => Outcome::Found { at: at as int },
            Located::Lost { read, at_end, warned } => Outcome::Lost {
                read: read as int,
                at_end,
                warned,
            },
        }
    }
}

/// Searches for the hunk in the input from line `from` on.
pub fn locate(h: &Vec<HunkLine>, t: Tuning, input: &Vec<String>, from: usize) -> (r: Located)
    requires
        from <= input.len(),
    ensures
        r@ == search(rows(h@), t, texts(input@), from as int),
        match r {
            Located::Found { at } => from <= at && at + consumed(rows(h@), t.reverse)
                <= input.len(),
            Located::Lost { read, .. } => from <= read <= input.len(),
        },
{
    let ghost hr = rows(h@);
    let ghost inp = texts(input@);
    let mut at: usize = from;
    let mut seen = false;
    loop
        invariant
            hr == rows(h@),
            inp == texts(input@),
            from <= at <= input.len(),
            search(hr, t, inp, from as int) == noting(search(hr, t, inp, at as int), seen),
        decreases input.len() - at,
    {
        let w = walk(h, t, input, at);
        if w.rows == h.len() && (!t.at_end || at + w.lines == input.len()) {
            proof {
                assert(hr.take(w.rows as int) =~= hr);
            }
            return Located::Found { at };
        }
        let warned = seen || w.warned;
        if w.rows < h.len() && at + w.lines >= input.len() {
            return Located::Lost { read: input.len(), at_end: true, warned };
        }
        if t.anchored || at >= input.len() {
            proof {
                if w.rows == h.len() {
                    assert(hr.take(w.rows as int) =~= hr);
                }
            }
            return Located::Lost { read: at + w.lines + 1, at_end: false, warned };
        }
        seen = warned;
        at += 1;
    }
}

} // verus!
