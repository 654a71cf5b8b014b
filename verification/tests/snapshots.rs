use browser_mcp_rs::actions::find;
use browser_mcp_rs::snapshot::{checked_delta, delta_from_ops, indent, DiffOp};

fn some(s: &str) -> Option<String> {
    Some(s.to_string())
}

#[test]
fn nothing_changed() {
    assert_eq!(checked_delta("- a\n- b", "- a\n- b"), Some(some("")));
    assert_eq!(checked_delta("", ""), Some(some("")));
}

#[test]
fn a_changed_line_comes_with_its_ancestors() {
    let old = "- list:\n  - item one\n  - item two\n- footer\n- more";
    let new = "- list:\n  - item one\n  - item 2\n- footer\n- more";
    assert_eq!(checked_delta(old, new), Some(some("- list: # unchanged\n  - item 2")));
}

#[test]
fn removed_lines_are_counted() {
    let old = "- a\n- b\n- c\n- d";
    assert_eq!(checked_delta(old, "- a\n- d"), Some(some("# 2 line(s) removed")));
}

#[test]
fn a_shorter_replacement_counts_what_is_gone() {
    let old = "- a\n- b\n- c\n- d\n- e\n- f";
    let new = "- a\n- x\n- d\n- e\n- f";
    assert_eq!(checked_delta(old, new), Some(some("- x\n# 1 line(s) removed")));
}

#[test]
fn too_much_changed() {
    assert_eq!(checked_delta("- a\n- b", "- x\n- y"), Some(None));
    assert_eq!(checked_delta("- a", ""), Some(None));
    let old = "- a\n- b\n- c\n- d\n- e";
    assert_eq!(checked_delta(old, "- a\n- b\n- x\n- y\n- z"), Some(some("- x\n- y\n- z")));
    assert_eq!(checked_delta(old, "- a\n- w\n- x\n- y\n- z"), Some(None));
}

#[test]
fn a_last_line_feed_is_a_change() {
    assert_eq!(checked_delta("- a\n- b\n- c\n", "- a\n- b\n- c"), Some(some("- c")));
    assert_eq!(checked_delta("- a\n- b\n- c\n", "- a\n- b\n- c\n"), Some(some("")));
    assert_eq!(checked_delta("- a\n", "- a"), Some(None));
    assert_eq!(checked_delta("- a", ""), Some(None));
    assert_eq!(checked_delta("", ""), Some(some("")));
}

#[test]
fn an_empty_line_alone_says_nothing() {
    assert_eq!(checked_delta("- a\n- b\n- c", "- a\n- b\n\n- c"), Some(some("")));
}

#[test]
fn ops_decide_what_changed() {
    let ops = vec![
        DiffOp::Equal { old_index: 0, new_index: 0, len: 1 },
        DiffOp::Insert { old_index: 1, new_index: 1, new_len: 1 },
        DiffOp::Delete { old_index: 1, old_len: 3, new_index: 2 },
    ];
    assert_eq!(delta_from_ops("- a\n  - b\n- c", &ops), some("- a # unchanged\n  - b\n# 3 line(s) removed"));
}

#[test]
fn indentation_is_in_bytes() {
    assert_eq!(indent("    - x"), 4);
    assert_eq!(indent(""), 0);
    assert_eq!(indent("\u{a0}x"), 2);
}

#[test]
fn found_lines_come_with_their_ancestors() {
    let snap = "- main:\n  - heading Hello\n  - list:\n    - item World\n- footer";
    assert_eq!(
        find(snap, &some("world"), &None).unwrap(),
        "1 match(es):\n```yaml\n- main:\n  - list:\n    - item World\n```"
    );
    assert_eq!(find(snap, &None, &some("^- ")).unwrap(), "2 match(es):\n```yaml\n- main:\n- footer\n```");
    assert_eq!(find(snap, &some("a.b"), &None).unwrap(), "No matches");
    assert_eq!(find(snap, &None, &None).unwrap_err(), "pass text or regex");
    assert!(find(snap, &some("x"), &some("(")).unwrap_err().starts_with("invalid regex: "));
}
