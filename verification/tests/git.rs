use dyad::git::{
    diff_against_head, parse_diff, parse_diff_checked, parse_hunk_new_start, parse_log, parse_status,
    LineChange, LineStatus,
};

#[test]
fn parse_diff_handles_pure_insertion() {
    let diff = "\
@@ -1,2 +1,4 @@
 unchanged_a
+new_a
+new_b
 unchanged_b
";
    let changes = parse_diff(diff);
    assert_eq!(
        changes,
        vec![
            LineChange { line: 1, status: LineStatus::Added },
            LineChange { line: 2, status: LineStatus::Added },
        ]
    );
}

#[test]
fn parse_diff_pairs_minuses_with_pluses_as_modifications() {
    let diff = "\
@@ -1,3 +1,3 @@
 unchanged_a
-old_x
+new_x
 unchanged_b
";
    let changes = parse_diff(diff);
    assert_eq!(
        changes,
        vec![LineChange { line: 1, status: LineStatus::Modified }]
    );
}

#[test]
fn parse_diff_records_pure_deletion_as_deleted_above() {
    let diff = "\
@@ -1,3 +1,2 @@
 unchanged_a
-deleted
 unchanged_b
";
    let changes = parse_diff(diff);
    assert_eq!(
        changes,
        vec![LineChange { line: 1, status: LineStatus::DeletedAbove }]
    );
}

#[test]
fn parse_diff_mixes_modified_and_added_in_one_hunk() {
    let diff = "\
@@ -1,3 +1,5 @@
 unchanged
-old1
-old2
+new1
+new2
+new3
 ctx
";
    let changes = parse_diff(diff);
    assert_eq!(
        changes,
        vec![
            LineChange { line: 1, status: LineStatus::Modified },
            LineChange { line: 2, status: LineStatus::Modified },
            LineChange { line: 3, status: LineStatus::Added },
        ]
    );
}

#[test]
fn parse_diff_ignores_diff_envelope_lines() {
    let diff = "\
diff --git a/foo b/foo
index 1111111..2222222 100644
--- a/foo
+++ b/foo
@@ -1 +1,2 @@
 unchanged
+added
";
    let changes = parse_diff(diff);
    assert_eq!(
        changes,
        vec![LineChange { line: 1, status: LineStatus::Added }]
    );
}

#[test]
fn parse_hunk_new_start_handles_single_line_form() {
    assert_eq!(parse_hunk_new_start("-1 +1 @@"), Some(1));
    assert_eq!(parse_hunk_new_start("-1,5 +1,5 @@ fn foo()"), Some(1));
}

#[test]
fn changes_of_a_hunk_ascend() {
    let diff = "@@ -1,9 +4,9 @@\n a\n-b\n+c\n d\n+e\n";
    let changes = parse_diff(diff);
    let lines: Vec<usize> = changes.iter().map(|c| c.line).collect();
    assert_eq!(lines, vec![4, 6]);
}

#[test]
fn a_diff_that_cannot_be_had_is_passed_on() {
    assert_eq!(diff_against_head(Err("no git".to_string())), Err("no git".to_string()));
    let one = diff_against_head(Ok("@@ -0,0 +1 @@\n+x\n".to_string())).unwrap();
    assert_eq!(one, Some(vec![LineChange { line: 0, status: LineStatus::Added }]));
    assert_eq!(parse_diff_checked(""), Some(vec![]));
}

#[test]
fn states_and_commits_are_read_line_by_line() {
    let found = parse_status(" M src/a b.rs\n?? new.txt\nA  c\n\nxx\n");
    let parts: Vec<(&str, char, char)> =
        found.iter().map(|e| (e.path.as_str(), e.staged, e.unstaged)).collect();
    assert_eq!(
        parts,
        vec![("src/a b.rs", ' ', 'M'), ("new.txt", '?', '?'), ("c", 'A', ' ')]
    );
    let log = parse_log("abc\u{1f}a\u{1f}Me\u{1f}2026-01-02\u{1f}Do: it\nbroken\n");
    assert_eq!(log.len(), 1);
    assert_eq!(log[0].sha, "abc");
    assert_eq!(log[0].author, "Me");
    assert_eq!(log[0].subject, "Do: it");
}
