use patchtoy::hunk::{is_insertion, is_substantial, tune, HunkLine, LineKind, Tuning};

fn hunk(raw: &[&str]) -> Vec<HunkLine> {
    raw.iter().map(|l| HunkLine::parse(l).unwrap()).collect()
}

#[test]
fn body_lines_are_told_by_their_first_character() {
    assert_eq!(
        HunkLine::parse(" keep"),
        Some(HunkLine { kind: LineKind::Context, text: String::from("keep") })
    );
    assert_eq!(
        HunkLine::parse("-gone"),
        Some(HunkLine { kind: LineKind::Remove, text: String::from("gone") })
    );
    assert_eq!(
        HunkLine::parse("+new"),
        Some(HunkLine { kind: LineKind::Add, text: String::from("new") })
    );
    assert_eq!(
        HunkLine::parse(" "),
        Some(HunkLine { kind: LineKind::Context, text: String::new() })
    );
    assert_eq!(
        HunkLine::parse("--- a/x"),
        Some(HunkLine { kind: LineKind::Remove, text: String::from("-- a/x") })
    );
}

#[test]
fn other_lines_are_no_body_lines() {
    assert_eq!(HunkLine::parse(""), None);
    assert_eq!(HunkLine::parse("@@ -1 +1 @@"), None);
    assert_eq!(HunkLine::parse("\\ No newline at end of file"), None);
    assert_eq!(HunkLine::parse("diff --git a/x b/x"), None);
}

#[test]
fn duplicate_copies_kind_and_text() {
    let l = HunkLine::parse("+text").unwrap();
    assert_eq!(l.duplicate(), l);
}

#[test]
fn insertion_depends_on_direction() {
    assert!(is_insertion(LineKind::Add, false));
    assert!(!is_insertion(LineKind::Remove, false));
    assert!(!is_insertion(LineKind::Context, false));
    assert!(is_insertion(LineKind::Remove, true));
    assert!(!is_insertion(LineKind::Add, true));
    assert!(!is_insertion(LineKind::Context, true));
}

#[test]
fn substantial_text_has_a_second_character_that_is_not_blank() {
    assert!(is_substantial("ab"));
    assert!(is_substantial("   return x;"));
    assert!(!is_substantial(""));
    assert!(!is_substantial("}"));
    assert!(!is_substantial("    }"));
    assert!(!is_substantial("   "));
    assert!(!is_substantial("a b"));
    assert!(is_substantial("\t\tif"));
}

#[test]
fn an_inner_hunk_has_no_anchors() {
    let h = hunk(&[" one", " two", "-old", "+new", " three", " four"]);
    assert_eq!(
        tune(&h, false, false, None),
        Tuning { reverse: false, loose: false, budget: 1, at_end: false, anchored: false }
    );
}

#[test]
fn short_trailing_context_anchors_at_the_end() {
    let h = hunk(&[" one", " two", "-old", "+new", " three"]);
    let t = tune(&h, false, false, None);
    assert!(t.at_end);
    assert!(!t.anchored);
    let h = hunk(&[" one", "-old"]);
    let t = tune(&h, false, false, None);
    assert!(t.at_end);
    assert!(!t.anchored);
}

#[test]
fn short_leading_context_anchors_at_the_start() {
    let h = hunk(&[" one", "-old", "+new", " two", " three"]);
    let t = tune(&h, false, false, None);
    assert!(!t.at_end);
    assert!(t.anchored);
    let h = hunk(&["-old", "+new", " two"]);
    let t = tune(&h, false, false, None);
    assert!(!t.at_end);
    assert!(t.anchored);
}

#[test]
fn a_hunk_of_additions_has_both_anchors() {
    let h = hunk(&["+first", "+second"]);
    let t = tune(&h, false, false, None);
    assert!(t.at_end);
    assert!(t.anchored);
    assert_eq!(t.budget, 0);
}

#[test]
fn the_budget_defaults_to_one_less_than_the_leading_context() {
    let h = hunk(&[" aa", " bb", " cc", "-dd", " ee", " ff", " gg"]);
    assert_eq!(tune(&h, false, false, None).budget, 2);
    assert_eq!(tune(&h, false, false, Some(0)).budget, 0);
    assert_eq!(tune(&h, false, false, Some(7)).budget, 7);
    let h = hunk(&[" aa", "-bb", " cc"]);
    assert_eq!(tune(&h, false, false, None).budget, 0);
    let h = hunk(&["-aa", "-bb"]);
    assert_eq!(tune(&h, false, false, None).budget, 0);
    assert_eq!(tune(&h, false, false, Some(3)).budget, 3);
}

#[test]
fn fewer_than_two_vouchers_allow_no_fuzz() {
    let h = hunk(&[" }", " ", "-x", " {", " "]);
    assert_eq!(tune(&h, false, false, Some(5)).budget, 0);
    let h = hunk(&[" }", " real", "-x", " {", " "]);
    assert_eq!(tune(&h, false, false, Some(5)).budget, 0);
    let h = hunk(&[" }", " real", "-xy", " {", " "]);
    assert_eq!(tune(&h, false, false, Some(5)).budget, 5);
}

#[test]
fn vouchers_are_counted_for_the_direction() {
    let h = hunk(&[" real", "-gone line", "+x", " }"]);
    assert_eq!(tune(&h, false, false, Some(2)).budget, 2);
    assert_eq!(tune(&h, true, false, Some(2)).budget, 0);
    let t = tune(&h, true, true, Some(2));
    assert!(t.reverse);
    assert!(t.loose);
}
