use patchtoy::header::Span;
use patchtoy::patch::PatchToy;
use patchtoy::target::{resolve_target, strip_name, Target};

fn settings() -> PatchToy {
    PatchToy {
        loose: false,
        strip: Some(1),
        reverse: false,
        fuzz: None,
        silent: false,
        dry_run: false,
        file: None,
    }
}

fn span(oldline: usize, oldlen: usize, newline: usize, newlen: usize) -> Span {
    Span { oldline, oldlen, newline, newlen }
}

#[test]
fn strip_takes_leading_segments_off() {
    assert_eq!(strip_name("a/b/c.txt", Some(0)), "a/b/c.txt");
    assert_eq!(strip_name("a/b/c.txt", Some(1)), "b/c.txt");
    assert_eq!(strip_name("a/b/c.txt", Some(2)), "c.txt");
    assert_eq!(strip_name("a/b/c.txt", Some(3)), "c.txt");
    assert_eq!(strip_name("a/b/c.txt", Some(99)), "c.txt");
}

#[test]
fn strip_without_a_count_keeps_the_last_segment() {
    assert_eq!(strip_name("a/b/c.txt", None), "c.txt");
    assert_eq!(strip_name("c.txt", None), "c.txt");
    assert_eq!(strip_name("/usr/lib/x", None), "x");
    assert_eq!(strip_name("dir/", None), "");
    assert_eq!(strip_name("", None), "");
}

#[test]
fn strip_takes_runs_of_separators_as_one() {
    assert_eq!(strip_name("a//b///c", Some(1)), "b///c");
    assert_eq!(strip_name("a//b///c", Some(2)), "c");
    assert_eq!(strip_name("/abs/path", Some(1)), "abs/path");
    assert_eq!(strip_name("//abs/path", Some(1)), "abs/path");
    assert_eq!(strip_name("/abs/path", Some(0)), "/abs/path");
}

#[test]
fn forward_patches_the_new_name() {
    let t = resolve_target("a/x.c", "b/y.c", span(1, 3, 1, 3), &settings());
    assert_eq!(t, Target { name: String::from("y.c"), delete: false, create: false });
}

#[test]
fn reverse_patches_the_old_name() {
    let mut toy = settings();
    toy.reverse = true;
    let t = resolve_target("a/x.c", "b/y.c", span(1, 3, 1, 3), &toy);
    assert_eq!(t, Target { name: String::from("x.c"), delete: false, create: false });
}

#[test]
fn a_missing_old_side_allows_creation() {
    let t = resolve_target("/dev/null", "b/dir/new.c", span(0, 0, 1, 2), &settings());
    assert_eq!(t, Target { name: String::from("dir/new.c"), delete: false, create: true });
    let t = resolve_target("/dev/null", "b/new.c", span(1, 1, 1, 2), &settings());
    assert_eq!(t, Target { name: String::from("new.c"), delete: false, create: true });
    let t = resolve_target("a/new.c", "b/new.c", span(0, 0, 1, 2), &settings());
    assert_eq!(t, Target { name: String::from("new.c"), delete: false, create: true });
}

#[test]
fn a_missing_new_side_means_deletion() {
    let t = resolve_target("a/old.c", "/dev/null", span(0, 0, 0, 0), &settings());
    assert_eq!(t, Target { name: String::from("old.c"), delete: true, create: false });
    let t = resolve_target("a/old.c", "/dev/null", span(1, 4, 0, 0), &settings());
    assert_eq!(t, Target { name: String::from("old.c"), delete: true, create: false });
    let t = resolve_target("a/old.c", "b/old.c", span(1, 4, 0, 0), &settings());
    assert_eq!(t, Target { name: String::from("old.c"), delete: true, create: false });
}

#[test]
fn in_reverse_the_sides_change_places() {
    let mut toy = settings();
    toy.reverse = true;
    let t = resolve_target("/dev/null", "b/new.c", span(0, 0, 1, 2), &toy);
    assert_eq!(t, Target { name: String::from("new.c"), delete: true, create: false });
    let t = resolve_target("a/old.c", "/dev/null", span(1, 4, 0, 0), &toy);
    assert_eq!(t, Target { name: String::from("old.c"), delete: false, create: true });
}

#[test]
fn a_named_file_stands_for_every_name() {
    let mut toy = settings();
    toy.file = Some(String::from("some/where/else.c"));
    let t = resolve_target("a/x.c", "b/y.c", span(1, 3, 1, 3), &toy);
    assert_eq!(t, Target { name: String::from("some/where/else.c"), delete: false, create: false });
    toy.reverse = true;
    let t = resolve_target("a/x.c", "b/y.c", span(1, 3, 1, 3), &toy);
    assert_eq!(t, Target { name: String::from("some/where/else.c"), delete: false, create: false });
    toy.reverse = false;
    let t = resolve_target("/dev/null", "b/y.c", span(0, 0, 1, 3), &toy);
    assert_eq!(t, Target { name: String::from("some/where/else.c"), delete: false, create: true });
    let t = resolve_target("a/x.c", "/dev/null", span(1, 3, 0, 0), &toy);
    assert_eq!(t, Target { name: String::from("some/where/else.c"), delete: true, create: false });
}

#[test]
fn names_are_stripped_as_the_settings_say() {
    let mut toy = settings();
    toy.strip = Some(0);
    assert_eq!(resolve_target("a/x.c", "b/y.c", span(1, 1, 1, 1), &toy).name, "b/y.c");
    toy.strip = Some(2);
    assert_eq!(resolve_target("a/x.c", "b/d/y.c", span(1, 1, 1, 1), &toy).name, "y.c");
    toy.strip = None;
    assert_eq!(resolve_target("a/x.c", "b/d/e/y.c", span(1, 1, 1, 1), &toy).name, "y.c");
}
