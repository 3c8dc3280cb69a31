use switchable::shell::replace_quotes;
use switchable::order::{sort_strings, str_lt};
use switchable::slang::{Metadata, Split2};
use switchable::util::{join_with_spaces, same_text, set_diff, shell_escape, starts_with};

fn strings(v: &[&str]) -> Vec<String> {
    v.iter().map(|s| s.to_string()).collect()
}

#[test]
fn set_diff_of_sets() {
    let (l, r) = set_diff(strings(&["d", "a", "c"]), strings(&["c", "e", "a"]));
    assert_eq!(l, strings(&["d"]));
    assert_eq!(r, strings(&["e"]));
}

#[test]
fn set_diff_sorts_results() {
    let (l, r) = set_diff(strings(&["zz", "b", "x", "a"]), strings(&["x", "y", "c"]));
    assert_eq!(l, strings(&["a", "b", "zz"]));
    assert_eq!(r, strings(&["c", "y"]));
}

#[test]
fn set_diff_counts_occurrences() {
    let (l, r) = set_diff(strings(&["a", "a", "b"]), strings(&["a", "b", "b", "b"]));
    assert_eq!(l, strings(&["a"]));
    assert_eq!(r, strings(&["b", "b"]));
}

#[test]
fn set_diff_with_an_empty_side_returns_inputs() {
    let (l, r) = set_diff(strings(&["b", "a"]), Vec::new());
    assert_eq!(l, strings(&["b", "a"]));
    assert!(r.is_empty());
    let (l, r) = set_diff(Vec::new(), strings(&["z", "y"]));
    assert!(l.is_empty());
    assert_eq!(r, strings(&["z", "y"]));
}

#[test]
fn set_diff_equal_lists() {
    let (l, r) = set_diff(strings(&["b", "a"]), strings(&["a", "b"]));
    assert!(l.is_empty());
    assert!(r.is_empty());
}

#[test]
fn set_diff_results_are_disjoint_and_cover() {
    let a = strings(&["p", "q", "r", "s"]);
    let b = strings(&["r", "s", "t"]);
    let (drop, add) = set_diff(a.clone(), b.clone());
    assert_eq!(drop, strings(&["p", "q"]));
    assert_eq!(add, strings(&["t"]));
    for x in a.iter().chain(b.iter()) {
        let both = a.contains(x) && b.contains(x);
        assert!(drop.contains(x) || add.contains(x) || both);
        assert!(!(drop.contains(x) && add.contains(x)));
    }
}

#[test]
fn order_is_by_code_point() {
    assert!(str_lt("B", "a"));
    assert!(str_lt("ab", "abc"));
    assert!(!str_lt("abc", "ab"));
    assert!(!str_lt("same", "same"));
    assert!(str_lt("z", "é"));
    assert_eq!(
        sort_strings(strings(&["é", "b", "a", "B", "ab", "a"])),
        strings(&["B", "a", "a", "ab", "b", "é"])
    );
}

#[test]
fn shell_escape_quotes() {
    assert_eq!(shell_escape("glxgears"), "'glxgears'");
    assert_eq!(shell_escape("it's"), "'it'\\''s'");
    assert_eq!(shell_escape(""), "''");
    assert_eq!(shell_escape("''"), "''\\'''\\'''");
}

#[test]
fn text_helpers() {
    assert!(starts_with("# Generated from: []", "# Generated from: "));
    assert!(!starts_with("# Generated", "# Generated from: "));
    assert!(same_text("run", "run"));
    assert!(!same_text("run", "runs"));
    assert_eq!(join_with_spaces(&strings(&["echo", "a", "b"])), "echo a b");
    assert_eq!(join_with_spaces(&[]), "");
}

#[test]
fn split2_splits_pairs() {
    assert_eq!(Some((1, "a")).split2(), (Some(1), Some("a")));
    assert_eq!(None::<(u8, u8)>.split2(), (None, None));
    let Metadata(m, d) = Metadata(true, 3);
    assert!(m);
    assert_eq!(d, 3);
}

#[test]
fn quote_escaping_of_every_quote() {
    assert_eq!(replace_quotes("it's-a-cmd"), "it'\\''s-a-cmd");
    assert_eq!(replace_quotes("'"), "'\\''");
    assert_eq!(replace_quotes("a''b'"), "a'\\'''\\''b'\\''");
    assert_eq!(replace_quotes("plain"), "plain");
    assert_eq!(replace_quotes(""), "");
}
