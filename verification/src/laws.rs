//! What holds of the search for a hunk and of applying it, whatever the
//! hunk and the input.

use crate::hunk::{
    consumed, inserts, leading_context, trailing_context, tuning, vouchers, LineKind, Row, Tuning,
};
use crate::matching::{
    agrees, fits, misses, noting, patched, reach, reach_from, removals_found, replacement, search,
    side, turned, Outcome,
};
use crate::patch::{applied, ended, finished, lemma_consumed_grows, Change, Config, Engine, ParserState};
use vstd::prelude::*;

verus! {

/// Rows that agree with the input still agree when rows are taken off
/// their end.
pub proof fn lemma_agrees_prefix(h: Seq<Row>, t: Tuning, input: Seq<Seq<char>>, at: int, k: int)
    requires
        0 <= k <= h.len(),
        agrees(h, t, input, at),
    ensures
        agrees(h.take(k), t, input, at),
    decreases h.len(),
{
    if k == h.len() {
        assert(h.take(k) =~= h);
    } else {
        assert(h.drop_last().take(k) =~= h.take(k));
        lemma_agrees_prefix(h.drop_last(), t, input, at, k);
    }
}

/// A walk from row `k` ends between `k` and the end of the hunk.
pub proof fn lemma_reach_bounds(h: Seq<Row>, t: Tuning, input: Seq<Seq<char>>, at: int, k: int)
    requires
        0 <= k <= h.len(),
    ensures
        k <= reach_from(h, t, input, at, k) <= h.len(),
    decreases h.len() - k,
{
    if k < h.len() && agrees(h.take(k + 1), t, input, at) {
        lemma_reach_bounds(h, t, input, at, k + 1);
    }
}

/// Where a walk from row `k` ends, the rows walked agree with the input
/// and the next row, if there is one, does not: it is a row that is
/// matched against the input, and either the input has run out or its line
/// is not the one wanted.
pub proof fn lemma_reach_stops(h: Seq<Row>, t: Tuning, input: Seq<Seq<char>>, at: int, k: int)
    requires
        0 <= k <= h.len(),
        agrees(h.take(k), t, input, at),
    ensures
        agrees(h.take(reach_from(h, t, input, at, k)), t, input, at),
        reach_from(h, t, input, at, k) < h.len() ==> !agrees(
            h.take(reach_from(h, t, input, at, k) + 1),
            t,
            input,
            at,
        ) && !inserts(h[reach_from(h, t, input, at, k)].kind, t.reverse),
    decreases h.len() - k,
{
    if k < h.len() && agrees(h.take(k + 1), t, input, at) {
        lemma_reach_stops(h, t, input, at, k + 1);
    } else if k < h.len() {
        assert(h.take(k + 1).drop_last() =~= h.take(k));
        assert(h.take(k + 1).last() == h[k]);
    }
}

/// A walk reaches the end of the hunk exactly when the whole hunk agrees
/// with the input.
pub proof fn lemma_reach_full(h: Seq<Row>, t: Tuning, input: Seq<Seq<char>>, at: int)
    requires
        0 <= at <= input.len(),
    ensures
        reach(h, t, input, at) == h.len() <==> agrees(h, t, input, at),
        0 <= reach(h, t, input, at) <= h.len(),
{
    assert(h.take(0) =~= Seq::<Row>::empty());
    lemma_reach_bounds(h, t, input, at, 0);
    lemma_reach_stops(h, t, input, at, 0);
    let k = reach(h, t, input, at);
    if k == h.len() {
        assert(h.take(k) =~= h);
    } else if agrees(h, t, input, at) {
        lemma_agrees_prefix(h, t, input, at, k + 1);
    }
}

/// Where the input runs out under a walk, the hunk is too long to fit at
/// that line or at any later one.
pub proof fn lemma_no_room(h: Seq<Row>, t: Tuning, input: Seq<Seq<char>>, at: int, s: int)
    requires
        0 <= at <= s,
        at <= input.len(),
        reach(h, t, input, at) < h.len(),
        at + consumed(h.take(reach(h, t, input, at)), t.reverse) >= input.len(),
    ensures
        !fits(h, t, input, s),
{
    assert(h.take(0) =~= Seq::<Row>::empty());
    lemma_reach_bounds(h, t, input, at, 0);
    lemma_reach_stops(h, t, input, at, 0);
    let k = reach(h, t, input, at);
    assert(h.take(k + 1).drop_last() =~= h.take(k));
    assert(h.take(k + 1).last() == h[k]);
    lemma_consumed_grows(h, t.reverse, k + 1);
}

/// What a search finds is the first line at which the hunk fits.
///
/// A hunk that is found fits where it is found, and at no line between the
/// start of the search and that place; an anchored hunk is found at the
/// start of the search or not at all. A hunk that is lost fits at no line
/// from the start of the search on; of an anchored hunk this says only
/// that it does not fit at the start.
pub proof fn law_search_finds_first_fit(h: Seq<Row>, t: Tuning, input: Seq<Seq<char>>, from: int)
    requires
        0 <= from <= input.len(),
    ensures
        match search(h, t, input, from) {
            Outcome::Found { at } => {
                &&& from <= at <= input.len()
                &&& fits(h, t, input, at)
                &&& forall|s: int| from <= s < at ==> !fits(h, t, input, s)
                &&& (t.anchored ==> at == from)
            },
            Outcome::Lost { read, at_end, warned } => {
                &&& from <= read <= input.len()
                &&& !fits(h, t, input, from)
                &&& (!t.anchored ==> forall|s: int| from <= s ==> !fits(h, t, input, s))
            },
        },
    decreases input.len() - from,
{
    lemma_reach_full(h, t, input, from);
    assert(h.take(0) =~= Seq::<Row>::empty());
    lemma_reach_stops(h, t, input, from, 0);
    let k = reach(h, t, input, from);
    let next = from + consumed(h.take(k), t.reverse);
    if k == h.len() {
        assert(h.take(k) =~= h);
    }
    if k == h.len() && (!t.at_end || next == input.len()) {
    } else if k < h.len() && next >= input.len() {
        assert forall|s: int| from <= s implies !fits(h, t, input, s) by {
            lemma_no_room(h, t, input, from, s);
        }
    } else if t.anchored || from >= input.len() {
        assert forall|s: int| from <= s && !t.anchored implies !fits(h, t, input, s) by {
            if s > from {
                assert(s > input.len());
            }
        }
    } else {
        law_search_finds_first_fit(h, t, input, from + 1);
        let rest = search(h, t, input, from + 1);
        assert(search(h, t, input, from) == noting(
            rest,
            crate::matching::suspect(h.take(k), t, input, from),
        ));
        match rest {
            Outcome::Found { at } => {
                assert forall|s: int| from <= s < at implies !fits(h, t, input, s) by {
                    if s > from {
                    }
                }
            },
            Outcome::Lost { read, at_end, warned } => {
                assert forall|s: int| from <= s implies !fits(h, t, input, s) by {
                    if s > from {
                    }
                }
            },
        }
    }
}

/// A side of the hunk has as many lines as the hunk consumes in that
/// direction.
pub proof fn lemma_side_len(h: Seq<Row>, reverse: bool)
    ensures
        side(h, reverse).len() == consumed(h, reverse),
    decreases h.len(),
{
    if h.len() > 0 {
        lemma_side_len(h.drop_last(), reverse);
    }
}

/// The replacement has as many lines as the hunk consumes in the opposite
/// direction.
pub proof fn lemma_replacement_len(h: Seq<Row>, t: Tuning, input: Seq<Seq<char>>, at: int)
    ensures
        replacement(h, t, input, at).len() == consumed(h, !t.reverse),
    decreases h.len(),
{
    if h.len() > 0 {
        lemma_replacement_len(h.drop_last(), t, input, at);
    }
}

/// Where the input holds the matched side of the hunk word for word, the
/// hunk agrees with it without a single mismatch, and the replacement is
/// the other side of the hunk word for word.
pub proof fn lemma_verbatim(h: Seq<Row>, t: Tuning, input: Seq<Seq<char>>, at: int)
    requires
        0 <= at,
        at + consumed(h, t.reverse) <= input.len(),
        input.subrange(at, at + consumed(h, t.reverse)) == side(h, t.reverse),
    ensures
        removals_found(h, t, input, at),
        misses(h, t, input, at) == 0,
        agrees(h, t, input, at),
        replacement(h, t, input, at) == side(h, !t.reverse),
    decreases h.len(),
{
    if h.len() > 0 {
        let head = h.drop_last();
        let row = h.last();
        let n = consumed(head, t.reverse) as int;
        lemma_side_len(head, t.reverse);
        lemma_side_len(h, t.reverse);
        let window = input.subrange(at, at + consumed(h, t.reverse));
        if inserts(row.kind, t.reverse) {
            lemma_verbatim(head, t, input, at);
        } else {
            assert(input.subrange(at, at + n) =~= window.take(n));
            assert(window.take(n) =~= side(head, t.reverse));
            lemma_verbatim(head, t, input, at);
            assert(input[at + n] == window[n]);
            assert(window[n] == row.text);
        }
    }
}

/// A hunk applies to a file that holds its matched side word for word.
///
/// The input is some lines, then the matched side of the hunk, then some
/// more lines; where the hunk must end at the end of input nothing
/// follows, and where it must start at the first line nothing precedes.
/// Then the search from the first line finds the hunk, no later than
/// where the matched side stands.
pub proof fn law_unmodified_target_applies(
    h: Seq<Row>,
    t: Tuning,
    pre: Seq<Seq<char>>,
    post: Seq<Seq<char>>,
)
    requires
        t.at_end ==> post.len() == 0,
        t.anchored ==> pre.len() == 0,
    ensures
        search(h, t, pre + side(h, t.reverse) + post, 0) is Found,
        search(h, t, pre + side(h, t.reverse) + post, 0)->at <= pre.len(),
        fits(h, t, pre + side(h, t.reverse) + post, pre.len() as int),
{
    let input = pre + side(h, t.reverse) + post;
    let at = pre.len() as int;
    lemma_side_len(h, t.reverse);
    assert(input.subrange(at, at + consumed(h, t.reverse)) =~= side(h, t.reverse));
    lemma_verbatim(h, t, input, at);
    assert(input.len() == pre.len() + consumed(h, t.reverse) + post.len());
    assert(fits(h, t, input, at));
    law_search_finds_first_fit(h, t, input, 0);
}

/// Applying a hunk where the input holds its matched side word for word
/// puts the other side of the hunk in its place, word for word, and leaves
/// the lines around it as they were.
pub proof fn law_unmodified_target_result(h: Seq<Row>, t: Tuning, input: Seq<Seq<char>>, at: int)
    requires
        0 <= at,
        at + consumed(h, t.reverse) <= input.len(),
        input.subrange(at, at + consumed(h, t.reverse)) == side(h, t.reverse),
    ensures
        patched(h, t, input, at) == input.take(at) + side(h, !t.reverse) + input.skip(
            at + consumed(h, t.reverse),
        ),
{
    lemma_verbatim(h, t, input, at);
}

/// Applying a hunk to the file it was made from gives the file it leads
/// to. The input is some lines, then the matched side of the hunk, then
/// some more lines, with nothing after where the hunk must end at the end
/// of input and nothing before where it must start at the first line; and
/// the hunk fits at no earlier line. Then the hunk is found where its
/// matched side stands, and the result is the lines before, the other side
/// of the hunk, and the lines after.
pub proof fn law_unmodified_target(
    h: Seq<Row>,
    t: Tuning,
    pre: Seq<Seq<char>>,
    post: Seq<Seq<char>>,
)
    requires
        t.at_end ==> post.len() == 0,
        t.anchored ==> pre.len() == 0,
        forall|s: int| 0 <= s < pre.len() ==> !fits(h, t, pre + side(h, t.reverse) + post, s),
    ensures
        search(h, t, pre + side(h, t.reverse) + post, 0) == (Outcome::Found {
            at: pre.len() as int,
        }),
        patched(h, t, pre + side(h, t.reverse) + post, pre.len() as int) == pre + side(
            h,
            !t.reverse,
        ) + post,
{
    let input = pre + side(h, t.reverse) + post;
    let at = pre.len() as int;
    lemma_side_len(h, t.reverse);
    assert(input.subrange(at, at + consumed(h, t.reverse)) =~= side(h, t.reverse));
    law_unmodified_target_applies(h, t, pre, post);
    law_search_finds_first_fit(h, t, input, 0);
    law_unmodified_target_result(h, t, input, at);
    assert(input.take(at) =~= pre);
    assert(input.skip(at + consumed(h, t.reverse)) =~= post);
}

/// A hunk that fits at exactly one line is found there. The search starts
/// at or before that line, and at that line if the hunk is anchored.
pub proof fn law_single_fit_is_found(
    h: Seq<Row>,
    t: Tuning,
    input: Seq<Seq<char>>,
    from: int,
    at: int,
)
    requires
        0 <= from <= at <= input.len(),
        fits(h, t, input, at),
        forall|s: int| s != at ==> !fits(h, t, input, s),
        t.anchored ==> at == from,
    ensures
        search(h, t, input, from) == (Outcome::Found { at }),
{
    law_search_finds_first_fit(h, t, input, from);
}

/// The line numbers that a hunk header declares have no part in where the
/// hunk is applied: whatever they are, a hunk that fits at exactly one
/// line is applied there.
pub proof fn law_declared_lines_are_not_used(
    e: Engine,
    c: Config,
    oldline: nat,
    newline: nat,
    at: int,
)
    requires
        e.wf(),
        e.input is Some,
        e.linenum <= at <= e.input->0.len(),
        fits(e.hunk, tuning(e.hunk, c.reverse, c.loose, c.fuzz), e.input->0, at),
        forall|s: int|
            s != at ==> !fits(e.hunk, tuning(e.hunk, c.reverse, c.loose, c.fuzz), e.input->0, s),
        tuning(e.hunk, c.reverse, c.loose, c.fuzz).anchored ==> at == e.linenum,
    ensures
        applied(Engine { oldline, newline, ..e }, c) == (Engine {
            oldline,
            newline,
            hunk: Seq::empty(),
            linenum: (at + consumed(e.hunk, c.reverse)) as nat,
            output: e.output + e.input->0.subrange(e.linenum as int, at) + replacement(
                e.hunk,
                tuning(e.hunk, c.reverse, c.loose, c.fuzz),
                e.input->0,
                at,
            ),
            outnum: (e.output + e.input->0.subrange(e.linenum as int, at) + replacement(
                e.hunk,
                tuning(e.hunk, c.reverse, c.loose, c.fuzz),
                e.input->0,
                at,
            )).len(),
            state: ParserState::NewHeaderSeen,
            ..e
        }),
{
    let t = tuning(e.hunk, c.reverse, c.loose, c.fuzz);
    law_single_fit_is_found(e.hunk, t, e.input->0, e.linenum as int, at);
}

/// A hunk that must end at the end of input is found only where the lines
/// it matches are the last of the input: it is lost both where the input
/// ends before the hunk does and where lines follow the place it agrees
/// with.
pub proof fn law_end_anchor(h: Seq<Row>, t: Tuning, input: Seq<Seq<char>>, from: int)
    requires
        0 <= from <= input.len(),
        t.at_end,
    ensures
        match search(h, t, input, from) {
            Outcome::Found { at } => agrees(h, t, input, at) && at + consumed(h, t.reverse)
                == input.len(),
            Outcome::Lost { read, at_end, warned } => {
                &&& !(agrees(h, t, input, from) && from + consumed(h, t.reverse) == input.len())
                &&& (!t.anchored ==> forall|s: int|
                    from <= s ==> !(#[trigger] agrees(h, t, input, s) && s + consumed(
                        h,
                        t.reverse,
                    ) == input.len()))
            },
        },
{
    law_search_finds_first_fit(h, t, input, from);
    if search(h, t, input, from) is Lost && !t.anchored {
        assert forall|s: int| from <= s implies !(#[trigger] agrees(h, t, input, s) && s
            + consumed(h, t.reverse) == input.len()) by {
            assert(!fits(h, t, input, s));
        }
    }
}

/// A hunk has its end anchor exactly when it has no trailing context, or
/// less of it than leading context.
pub proof fn law_end_anchor_of_hunk(h: Seq<Row>, reverse: bool, loose: bool, fuzz: Option<usize>)
    ensures
        tuning(h, reverse, loose, fuzz).at_end <==> trailing_context(h) == 0 || trailing_context(h)
            < leading_context(h),
{
}

/// One context line that differs is forgiven under a budget of one or
/// more, and not under a budget of none.
///
/// The hunk has at least two rows that vouch for it; laid against the
/// input at `at`, where it ends as it must, all its removals are found and
/// exactly one context row differs. Then with a fuzz setting of one or
/// more the hunk fits there and the search finds it, there or earlier;
/// with a fuzz setting of none it does not fit there, and if it fits
/// nowhere else either, the search loses it.
pub proof fn law_one_mismatch_needs_fuzz(
    h: Seq<Row>,
    reverse: bool,
    loose: bool,
    fuzz: usize,
    input: Seq<Seq<char>>,
    from: int,
    at: int,
)
    requires
        0 <= from <= at,
        at + consumed(h, reverse) <= input.len(),
        vouchers(h, reverse) >= 2,
        removals_found(h, tuning(h, reverse, loose, Some(fuzz)), input, at),
        misses(h, tuning(h, reverse, loose, Some(fuzz)), input, at) == 1,
        tuning(h, reverse, loose, Some(fuzz)).at_end ==> at + consumed(h, reverse) == input.len(),
        tuning(h, reverse, loose, Some(fuzz)).anchored ==> at == from,
    ensures
        fuzz >= 1 ==> fits(h, tuning(h, reverse, loose, Some(fuzz)), input, at) && search(
            h,
            tuning(h, reverse, loose, Some(fuzz)),
            input,
            from,
        ) is Found,
        fuzz == 0 ==> !fits(h, tuning(h, reverse, loose, Some(fuzz)), input, at),
        fuzz == 0 && (forall|s: int|
            s != at ==> !fits(h, tuning(h, reverse, loose, Some(fuzz)), input, s)) ==> search(
            h,
            tuning(h, reverse, loose, Some(fuzz)),
            input,
            from,
        ) is Lost,
{
    let t = tuning(h, reverse, loose, Some(fuzz));
    assert(t.budget == fuzz);
    if fuzz >= 1 {
        assert(fits(h, t, input, at));
    } else {
        assert(!fits(h, t, input, at));
    }
    law_search_finds_first_fit(h, t, input, from);
}

/// What the opposite direction sees of a hunk that has been applied.
///
/// `there` holds, from line `at` on, the replacement that the hunk gave
/// at line `at` of `here`. Then, laid against `there` at `at` in the
/// opposite direction, the hunk has all its removals found and as many
/// context rows that differ as it had against `here`; and if the
/// comparison is exact and the hunk's removals were found in `here`, its
/// replacement in the opposite direction is the lines of `here` that it
/// had matched.
pub proof fn lemma_turned_rows(
    h: Seq<Row>,
    t: Tuning,
    budget: usize,
    here: Seq<Seq<char>>,
    there: Seq<Seq<char>>,
    at: int,
)
    requires
        0 <= at,
        at + consumed(h, t.reverse) <= here.len(),
        at + consumed(h, !t.reverse) <= there.len(),
        forall|j: int|
            0 <= j < consumed(h, !t.reverse) ==> there[at + j] == replacement(h, t, here, at)[j],
    ensures
        removals_found(h, turned(t, budget), there, at),
        misses(h, turned(t, budget), there, at) == misses(h, t, here, at),
        !t.loose && removals_found(h, t, here, at) ==> replacement(
            h,
            turned(t, budget),
            there,
            at,
        ) == here.subrange(at, at + consumed(h, t.reverse)),
    decreases h.len(),
{
    let back = turned(t, budget);
    if h.len() == 0 {
        assert(here.subrange(at, at) =~= Seq::<Seq<char>>::empty());
    } else {
        let head = h.drop_last();
        let row = h.last();
        let n = consumed(head, t.reverse) as int;
        let m = consumed(head, !t.reverse) as int;
        lemma_replacement_len(head, t, here, at);
        lemma_replacement_len(h, t, here, at);
        assert forall|j: int| 0 <= j < consumed(head, !t.reverse) implies there[at + j]
            == replacement(head, t, here, at)[j] by {
            assert(there[at + j] == replacement(h, t, here, at)[j]);
        }
        lemma_turned_rows(head, t, budget, here, there, at);
        if row.kind == LineKind::Context {
            assert(there[at + m] == replacement(h, t, here, at)[m]);
            assert(replacement(h, t, here, at)[m] == here[at + n]);
            if !t.loose && removals_found(h, t, here, at) {
                assert(here.subrange(at, at + n + 1) =~= here.subrange(at, at + n).push(
                    here[at + n],
                ));
            }
        } else if inserts(row.kind, t.reverse) {
            assert(there[at + m] == replacement(h, t, here, at)[m]);
            assert(replacement(h, t, here, at)[m] == row.text);
        } else {
            if !t.loose && removals_found(h, t, here, at) {
                assert(here[at + n] == row.text);
                assert(here.subrange(at, at + n + 1) =~= here.subrange(at, at + n).push(
                    here[at + n],
                ));
            }
        }
    }
}

/// Applying a hunk and then applying it in the opposite direction gives
/// back the lines one started with.
///
/// The comparison is exact. The hunk is found at line `at` of the input,
/// and the opposite direction forgives as many context mismatches as the
/// hunk had there. The opposite direction, searching the result from the
/// same line as the first search, finds no place for the hunk before `at`.
/// Then it finds the hunk at `at`, and applying it there gives the input
/// back.
pub proof fn law_round_trip(
    h: Seq<Row>,
    t: Tuning,
    budget: usize,
    input: Seq<Seq<char>>,
    from: int,
    at: int,
)
    requires
        0 <= from <= input.len(),
        !t.loose,
        search(h, t, input, from) == (Outcome::Found { at }),
        misses(h, t, input, at) <= budget,
        forall|s: int| from <= s < at ==> !fits(h, turned(t, budget), patched(h, t, input, at), s),
    ensures
        search(h, turned(t, budget), patched(h, t, input, at), from) == (Outcome::Found { at }),
        patched(h, turned(t, budget), patched(h, t, input, at), at) == input,
{
    let back = turned(t, budget);
    let there = patched(h, t, input, at);
    let n = consumed(h, t.reverse) as int;
    let m = consumed(h, !t.reverse) as int;
    law_search_finds_first_fit(h, t, input, from);
    lemma_replacement_len(h, t, input, at);
    assert(there.len() == input.len() - n + m);
    assert forall|j: int| 0 <= j < m implies there[at + j] == replacement(h, t, input, at)[j] by {
    }
    lemma_turned_rows(h, t, budget, input, there, at);
    assert(fits(h, back, there, at));
    law_search_finds_first_fit(h, back, there, from);
    assert(there.take(at) =~= input.take(at));
    assert(there.skip(at + m) =~= input.skip(at + n));
    assert(patched(h, back, there, at) =~= input);
}

/// The two directions of a hunk have the same anchors.
pub proof fn law_anchors_do_not_turn(h: Seq<Row>, loose: bool, fuzz: Option<usize>)
    ensures
        tuning(h, true, loose, fuzz).at_end == tuning(h, false, loose, fuzz).at_end,
        tuning(h, true, loose, fuzz).anchored == tuning(h, false, loose, fuzz).anchored,
        tuning(h, true, loose, fuzz) == turned(
            tuning(h, false, loose, fuzz),
            tuning(h, true, loose, fuzz).budget,
        ),
{
}

/// A file that is patched by one hunk and then finished becomes the input
/// with the hunk applied where it was found, provided the output so far is
/// the input up to where reading stands.
pub proof fn law_commit_is_patched_input(e: Engine, c: Config)
    requires
        e.wf(),
        e.input is Some,
        e.pending,
        e.output == e.input->0.take(e.linenum as int),
        search(e.hunk, tuning(e.hunk, c.reverse, c.loose, c.fuzz), e.input->0, e.linenum as int)
            is Found,
    ensures
        finished(applied(e, c)).1 == Some(
            Change {
                name: e.destname->0,
                lines: patched(
                    e.hunk,
                    tuning(e.hunk, c.reverse, c.loose, c.fuzz),
                    e.input->0,
                    search(
                        e.hunk,
                        tuning(e.hunk, c.reverse, c.loose, c.fuzz),
                        e.input->0,
                        e.linenum as int,
                    )->at,
                ),
            },
        ),
{
    let t = tuning(e.hunk, c.reverse, c.loose, c.fuzz);
    let input = e.input->0;
    let at = search(e.hunk, t, input, e.linenum as int)->at;
    law_search_finds_first_fit(e.hunk, t, input, e.linenum as int);
    assert(input.take(e.linenum as int) + input.subrange(e.linenum as int, at) =~= input.take(at));
    let after = applied(e, c);
    assert(after.output + input.skip(after.linenum as int) =~= patched(e.hunk, t, input, at));
}

/// A hunk that finds no place leaves the file as it was: the exit status
/// becomes 1, and neither finishing the file nor ending the patch hands
/// back anything to put in its place.
pub proof fn law_failure_leaves_file_alone(e: Engine, c: Config)
    requires
        e.wf(),
        e.input is Some,
        e.hunk.len() > 0,
        c.dry_run ==> !e.pending,
        search(e.hunk, tuning(e.hunk, c.reverse, c.loose, c.fuzz), e.input->0, e.linenum as int)
            is Lost,
    ensures
        applied(e, c).exitval == Some(1i32),
        applied(e, c).state == ParserState::Preamble,
        finished(applied(e, c)).1 is None,
        ended(applied(e, c), c).1 is None,
{
}

/// The output follows the input. Where the hunk is found, the output
/// grows by the input lines passed on the way and by what the hunk puts in
/// place of the lines it matched, and reading goes on after those. Where
/// it is lost in a dry run, which keeps the output, the output grows by
/// the input lines read, so that it is still a copy of the input read.
pub proof fn law_output_follows_input(e: Engine, c: Config)
    requires
        e.wf(),
        e.input is Some,
    ensures
        applied(e, c).wf(),
        match search(
            e.hunk,
            tuning(e.hunk, c.reverse, c.loose, c.fuzz),
            e.input->0,
            e.linenum as int,
        ) {
            Outcome::Found { at } => applied(e, c).output == e.output + e.input->0.subrange(
                e.linenum as int,
                at,
            ) + replacement(e.hunk, tuning(e.hunk, c.reverse, c.loose, c.fuzz), e.input->0, at)
                && applied(e, c).linenum == at + consumed(e.hunk, c.reverse),
            Outcome::Lost { read, at_end, warned } => c.dry_run ==> applied(e, c).output
                == e.output + e.input->0.subrange(e.linenum as int, read) && applied(e, c).linenum
                == read,
        },
{
    let t = tuning(e.hunk, c.reverse, c.loose, c.fuzz);
    law_search_finds_first_fit(e.hunk, t, e.input->0, e.linenum as int);
    lemma_consumed_bound(e.hunk, t, e.input->0, e.linenum as int);
}

/// A hunk that is found ends within the input.
pub proof fn lemma_consumed_bound(h: Seq<Row>, t: Tuning, input: Seq<Seq<char>>, from: int)
    requires
        0 <= from <= input.len(),
    ensures
        search(h, t, input, from) is Found ==> search(h, t, input, from)->at + consumed(
            h,
            t.reverse,
        ) <= input.len(),
{
    law_search_finds_first_fit(h, t, input, from);
}

} // verus!
