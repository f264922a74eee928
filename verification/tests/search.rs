use patchtoy::hunk::{tune, HunkLine, Tuning};
use patchtoy::matching::{locate, walk, Located};
use patchtoy::patch::count_consumed;

fn hunk(raw: &[&str]) -> Vec<HunkLine> {
    raw.iter().map(|l| HunkLine::parse(l).unwrap()).collect()
}

fn lines(text: &[&str]) -> Vec<String> {
    text.iter().map(|l| l.to_string()).collect()
}

fn plain(budget: usize) -> Tuning {
    Tuning { reverse: false, loose: false, budget, at_end: false, anchored: false }
}

fn found(r: Located) -> usize {
    match r {
        Located::Found { at } => at,
        Located::Lost { .. } => panic!("the hunk was lost"),
    }
}

fn lost(r: Located) -> (usize, bool, bool) {
    match r {
        Located::Found { at } => panic!("the hunk was found at {}", at),
        Located::Lost { read, at_end, warned } => (read, at_end, warned),
    }
}

#[test]
fn a_walk_counts_rows_and_lines() {
    let h = hunk(&[" a", "+x", "-b", " c"]);
    let input = lines(&["a", "b", "c"]);
    let w = walk(&h, plain(0), &input, 0);
    assert_eq!((w.rows, w.lines, w.warned), (4, 3, false));
    let w = walk(&h, plain(0), &input, 1);
    assert_eq!((w.rows, w.lines, w.warned), (0, 0, false));
}

#[test]
fn a_walk_stops_at_the_first_row_that_differs() {
    let h = hunk(&[" a", "-b", " c"]);
    let w = walk(&h, plain(0), &lines(&["a", "z", "c"]), 0);
    assert_eq!((w.rows, w.lines), (1, 1));
    let w = walk(&h, plain(0), &lines(&["a", "b", "z"]), 0);
    assert_eq!((w.rows, w.lines), (2, 2));
}

#[test]
fn a_walk_stops_where_the_input_ends() {
    let h = hunk(&[" a", "-b", "+x", " c"]);
    let w = walk(&h, plain(0), &lines(&["a", "b"]), 0);
    assert_eq!((w.rows, w.lines), (3, 2));
    let w = walk(&h, plain(0), &lines(&[]), 0);
    assert_eq!((w.rows, w.lines), (0, 0));
}

#[test]
fn a_walk_forgives_context_within_the_budget() {
    let h = hunk(&[" a", " b", "-c", " d"]);
    let input = lines(&["A", "b", "c", "D"]);
    let w = walk(&h, plain(2), &input, 0);
    assert_eq!((w.rows, w.lines), (4, 4));
    let w = walk(&h, plain(1), &input, 0);
    assert_eq!((w.rows, w.lines), (3, 3));
    let w = walk(&h, plain(0), &input, 0);
    assert_eq!((w.rows, w.lines), (0, 0));
}

#[test]
fn a_walk_never_forgives_a_removal() {
    let h = hunk(&[" a", "-c", " d"]);
    let w = walk(&h, plain(9), &lines(&["a", "C", "d"]), 0);
    assert_eq!((w.rows, w.lines), (1, 1));
}

#[test]
fn a_walk_sees_an_insertion_that_is_already_there() {
    let h = hunk(&[" a", "+x", " c"]);
    let w = walk(&h, plain(0), &lines(&["a", "x", "c"]), 0);
    assert_eq!((w.rows, w.lines, w.warned), (2, 1, true));
    let w = walk(&h, plain(0), &lines(&["a", "c"]), 0);
    assert_eq!((w.rows, w.lines, w.warned), (3, 2, false));
    let w = walk(&h, plain(0), &lines(&["a"]), 0);
    assert_eq!((w.rows, w.lines, w.warned), (2, 1, false));
}

#[test]
fn the_first_place_that_fits_is_found() {
    let h = hunk(&[" a", "-b", " c"]);
    let input = lines(&["x", "a", "b", "c", "a", "b", "c"]);
    assert_eq!(found(locate(&h, plain(0), &input, 0)), 1);
    assert_eq!(found(locate(&h, plain(0), &input, 1)), 1);
    assert_eq!(found(locate(&h, plain(0), &input, 2)), 4);
}

#[test]
fn a_hunk_with_no_place_is_lost_at_the_end_of_input() {
    let h = hunk(&[" x", "-b", " c"]);
    let input = lines(&["a", "b", "c"]);
    assert_eq!(lost(locate(&h, plain(0), &input, 0)), (3, true, false));
    assert_eq!(lost(locate(&h, plain(0), &lines(&[]), 0)), (0, true, false));
}

#[test]
fn an_anchored_hunk_is_tried_once() {
    let h = hunk(&["-b", " c"]);
    let t = tune(&h, false, false, None);
    assert!(t.anchored);
    let input = lines(&["a", "b", "c", "d"]);
    assert_eq!(lost(locate(&h, t, &input, 0)), (1, false, false));
    assert_eq!(found(locate(&h, t, &input, 1)), 1);
    let input = lines(&["b", "x", "c"]);
    assert_eq!(lost(locate(&h, t, &input, 0)), (2, false, false));
    let input = lines(&["b"]);
    assert_eq!(lost(locate(&h, t, &input, 0)), (1, true, false));
}

#[test]
fn a_hunk_that_must_end_the_input_is_not_found_earlier() {
    let h = hunk(&[" a", " b", "-c"]);
    let t = tune(&h, false, false, None);
    assert!(t.at_end && !t.anchored);
    assert_eq!(found(locate(&h, t, &lines(&["a", "b", "c"]), 0)), 0);
    assert_eq!(found(locate(&h, t, &lines(&["a", "b", "c", "a", "b", "c"]), 0)), 3);
    assert_eq!(lost(locate(&h, t, &lines(&["a", "b", "c", "d"]), 0)), (4, true, false));
    assert_eq!(lost(locate(&h, t, &lines(&["a", "b"]), 0)), (2, true, false));
}

#[test]
fn a_hunk_of_additions_fits_only_an_input_at_its_end() {
    let h = hunk(&["+one", "+two"]);
    let t = tune(&h, false, false, None);
    assert_eq!(found(locate(&h, t, &lines(&[]), 0)), 0);
    assert_eq!(found(locate(&h, t, &lines(&["a", "b"]), 2)), 2);
    assert_eq!(lost(locate(&h, t, &lines(&["a"]), 0)), (1, false, false));
    assert_eq!(lost(locate(&h, t, &lines(&["one"]), 0)), (1, false, true));
}

#[test]
fn one_context_mismatch_needs_a_budget() {
    let h = hunk(&[" alpha", " beta", "-gamma", "+GAMMA", " delta", " epsilon"]);
    let input = lines(&["alpha", "BETA", "gamma", "delta", "epsilon"]);
    let with = tune(&h, false, false, Some(1));
    assert_eq!(with.budget, 1);
    assert_eq!(found(locate(&h, with, &input, 0)), 0);
    let by_default = tune(&h, false, false, None);
    assert_eq!(by_default.budget, 1);
    assert_eq!(found(locate(&h, by_default, &input, 0)), 0);
    let without = tune(&h, false, false, Some(0));
    assert_eq!(without.budget, 0);
    assert_eq!(lost(locate(&h, without, &input, 0)), (5, true, false));
}

#[test]
fn loose_comparison_finds_lines_that_differ_in_blank_space() {
    let h = hunk(&[" if (x) {", "-  y = 1;", " }"]);
    let input = lines(&["if(x){", "y=1;", "}"]);
    let exact = Tuning { reverse: false, loose: false, budget: 0, at_end: false, anchored: false };
    let loose = Tuning { loose: true, ..exact };
    assert_eq!(lost(locate(&h, exact, &input, 0)), (3, true, false));
    assert_eq!(found(locate(&h, loose, &input, 0)), 0);
}

#[test]
fn in_reverse_additions_are_what_is_looked_for() {
    let h = hunk(&[" a", "-b", "+B", " c"]);
    let t = Tuning { reverse: true, loose: false, budget: 0, at_end: false, anchored: false };
    assert_eq!(found(locate(&h, t, &lines(&["a", "B", "c"]), 0)), 0);
    assert_eq!(lost(locate(&h, t, &lines(&["a", "b", "c"]), 0)), (3, true, true));
}

#[test]
fn a_failed_search_reports_an_insertion_seen_on_the_way() {
    let h = hunk(&[" a", "-b", "+B", " c"]);
    let input = lines(&["a", "B", "c"]);
    assert_eq!(lost(locate(&h, plain(0), &input, 0)), (3, true, false));
    let h = hunk(&[" a", "+B", "-b", " c"]);
    assert_eq!(lost(locate(&h, plain(0), &input, 0)), (3, true, true));
}

#[test]
fn consumed_counts_what_is_not_inserted() {
    let h = hunk(&[" a", "-b", "-c", "+B", " d"]);
    assert_eq!(count_consumed(&h, false), 4);
    assert_eq!(count_consumed(&h, true), 3);
    assert_eq!(count_consumed(&hunk(&[]), false), 0);
}
