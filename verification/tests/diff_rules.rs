use codex_monitor::diff::{
    build_combined_diff, collect_workspace_diff, parse_pr_diff, staged_diff_is_shown,
    strip_leading, GitHubPullRequestDiff, Patch,
};
use codex_monitor::text::{from_chars, to_chars};

fn entry(path: &str, status: &str, diff: &str) -> GitHubPullRequestDiff {
    GitHubPullRequestDiff {
        path: path.to_string(),
        status: status.to_string(),
        diff: diff.to_string(),
    }
}

#[test]
fn a_pull_request_is_cut_into_its_files() {
    let diff = "diff --git a/src/a.rs b/src/a.rs\nindex 1..2 100644\n--- a/src/a.rs\n+++ b/src/a.rs\n@@ -1 +1 @@\n-old\n+new\ndiff --git a/b.txt b/b.txt\nnew file mode 100644\n--- /dev/null\n+++ b/b.txt\n@@ -0,0 +1 @@\n+hi\n";
    assert_eq!(
        parse_pr_diff(diff),
        vec![
            entry(
                "src/a.rs",
                "M",
                "diff --git a/src/a.rs b/src/a.rs\nindex 1..2 100644\n--- a/src/a.rs\n+++ b/src/a.rs\n@@ -1 +1 @@\n-old\n+new"
            ),
            entry(
                "b.txt",
                "A",
                "diff --git a/b.txt b/b.txt\nnew file mode 100644\n--- /dev/null\n+++ b/b.txt\n@@ -0,0 +1 @@\n+hi"
            ),
        ]
    );
}

#[test]
fn a_deleted_file_is_filed_under_its_old_path() {
    let diff = "diff --git a/gone.txt b/gone.txt\ndeleted file mode 100644\n--- a/gone.txt\n+++ /dev/null\n";
    assert_eq!(
        parse_pr_diff(diff),
        vec![entry(
            "gone.txt",
            "D",
            "diff --git a/gone.txt b/gone.txt\ndeleted file mode 100644\n--- a/gone.txt\n+++ /dev/null"
        )]
    );
    assert_eq!(
        parse_pr_diff("diff --git a/old.txt\ndeleted file mode 1\n"),
        vec![entry("old.txt", "D", "diff --git a/old.txt\ndeleted file mode 1")]
    );
}

#[test]
fn a_rename_takes_its_paths_from_the_rename_lines() {
    let diff = "diff --git a/x b/y\nsimilarity index 100%\nrename from dir/old name.txt\nrename to dir/new name.txt\n";
    assert_eq!(
        parse_pr_diff(diff),
        vec![entry(
            "dir/new name.txt",
            "R",
            "diff --git a/x b/y\nsimilarity index 100%\nrename from dir/old name.txt\nrename to dir/new name.txt"
        )]
    );
    assert_eq!(
        parse_pr_diff("diff --git a/x b/y\nrename from \nrename to   \n"),
        vec![entry("y", "R", "diff --git a/x b/y\nrename from \nrename to   ")]
    );
}

#[test]
fn the_last_telling_line_decides_the_status() {
    let diff = "diff --git a/x b/y\nnew file mode 1\nrename to z\ndeleted file mode 1\n";
    assert_eq!(
        parse_pr_diff(diff),
        vec![entry("x", "D", "diff --git a/x b/y\nnew file mode 1\nrename to z\ndeleted file mode 1")]
    );
}

#[test]
fn text_before_the_first_header_has_no_path_and_is_dropped() {
    assert_eq!(parse_pr_diff(""), vec![]);
    assert_eq!(parse_pr_diff("\n\n"), vec![]);
    assert_eq!(parse_pr_diff("warning: something\nnew file mode 1\n"), vec![]);
    assert_eq!(
        parse_pr_diff("noise\ndiff --git a/f b/f\n+x"),
        vec![entry("f", "M", "diff --git a/f b/f\n+x")]
    );
    assert_eq!(
        parse_pr_diff("rename to early.txt\nmore\ndiff --git a/f b/f\n"),
        vec![
            entry("early.txt", "R", "rename to early.txt\nmore"),
            entry("f", "M", "diff --git a/f b/f"),
        ]
    );
}

#[test]
fn headers_are_read_word_by_word() {
    assert_eq!(
        parse_pr_diff("diff --git   a/one   b/two   three\n"),
        vec![entry("two", "M", "diff --git   a/one   b/two   three")]
    );
    assert_eq!(
        parse_pr_diff("diff --git a/a/a/x b/b/b/y\n"),
        vec![entry("y", "M", "diff --git a/a/a/x b/b/b/y")]
    );
    assert_eq!(
        parse_pr_diff("diff --git diff --git a/x\n"),
        vec![entry("x", "M", "diff --git diff --git a/x")]
    );
    assert_eq!(
        parse_pr_diff("diff --git a\\w\\x b\\w\\y\n"),
        vec![entry("b/w/y", "M", "diff --git a\\w\\x b\\w\\y")]
    );
    assert_eq!(parse_pr_diff("diff --git \n"), vec![]);
    assert_eq!(parse_pr_diff("diff --git a/ b/\n"), vec![]);
    assert_eq!(
        parse_pr_diff("diff --git a/ b/q\n"),
        vec![entry("q", "M", "diff --git a/ b/q")]
    );
    assert_eq!(parse_pr_diff(" diff --git a/x b/x\n"), vec![]);
}

#[test]
fn carriage_returns_are_dropped_with_the_line_ends() {
    assert_eq!(
        parse_pr_diff("diff --git a/x b/x\r\n+a\r\n"),
        vec![entry("x", "M", "diff --git a/x b/x\n+a")]
    );
}

#[test]
fn leading_copies_of_a_prefix_are_all_taken_off() {
    for (text, prefix) in [
        ("a/a/x", "a/"),
        ("x", "a/"),
        ("", "a/"),
        ("a/", "a/"),
        ("aaa", "a"),
        ("abab-ab", "ab"),
        ("rename from rename from x", "rename from "),
    ] {
        assert_eq!(
            from_chars(&strip_leading(&to_chars(text), &to_chars(prefix))),
            text.trim_start_matches(prefix),
            "{:?} {:?}",
            text,
            prefix
        );
    }
    assert_eq!(from_chars(&strip_leading(&to_chars("abc"), &[])), "abc");
}

fn patch(path: &str, content: &str) -> Patch {
    Patch { path: path.to_string(), content: content.to_string() }
}

#[test]
fn patches_are_put_under_headings() {
    assert_eq!(build_combined_diff(&vec![]), "");
    assert_eq!(build_combined_diff(&vec![patch("a.txt", "+a\n")]), "=== a.txt ===\n+a\n");
    assert_eq!(
        build_combined_diff(&vec![
            patch("a.txt", "+a\n"),
            patch("blank.txt", " \n\t"),
            patch("dir/b.txt", "-b"),
            patch("empty.txt", ""),
        ]),
        "=== a.txt ===\n+a\n\n\n=== dir/b.txt ===\n-b"
    );
    assert_eq!(build_combined_diff(&vec![patch("x", ""), patch("y", "\n")]), "");
}

#[test]
fn staged_changes_are_shown_where_there_are_any() {
    let staged = "=== staged.txt ===\n+staged\n".to_string();
    let unstaged = "=== unstaged.txt ===\n+unstaged\n".to_string();
    let diff = collect_workspace_diff(staged, unstaged);
    assert!(diff.contains("staged.txt"));
    assert!(diff.contains("staged"));
    assert!(!diff.contains("unstaged.txt"));
}

#[test]
fn the_working_tree_is_shown_where_nothing_is_staged() {
    let unstaged = "=== unstaged.txt ===\n+unstaged\n".to_string();
    let diff = collect_workspace_diff(String::new(), unstaged.clone());
    assert!(diff.contains("unstaged.txt"));
    assert!(diff.contains("unstaged"));
    assert_eq!(collect_workspace_diff(" \n".to_string(), unstaged.clone()), unstaged);
    assert_eq!(collect_workspace_diff(" \n".to_string(), String::new()), "");
}

#[test]
fn the_staged_diff_is_shown_where_it_holds_more_than_whitespace() {
    assert!(staged_diff_is_shown("=== a ===\n+a\n"));
    assert!(staged_diff_is_shown(" x "));
    assert!(!staged_diff_is_shown(""));
    assert!(!staged_diff_is_shown(" \n\r\t"));
    for staged in ["", "  ", "+a", "\n=== a ===\n"] {
        let shown = collect_workspace_diff(staged.to_string(), "work".to_string());
        assert_eq!(shown == staged, staged_diff_is_shown(staged));
    }
}
