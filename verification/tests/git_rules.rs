use base64::Engine;
use codex_monitor::git::{
    action_paths_for_file, blob_to_base64, blob_to_lines, bytes_look_binary,
    check_ignore_succeeded, command_failure, command_result, encode_image_base64,
    github_repo_remote, includes_index, includes_workdir, is_text_file, log_limit,
    next_ignore_step, normalize_git_path, parse_upstream_ref, pick_remote, read_image_base64, run_gh_command,
    run_git_command, scan_depth, should_skip_ignored_path_with_cache, skips_worktree,
    split_lines_preserving_newlines, status_for_delta, status_for_file, status_for_index,
    status_for_workdir, Delta, IgnoreStep, StatusDelta, INDEX_DELETED, INDEX_MODIFIED, INDEX_NEW,
    INDEX_RENAMED, INDEX_SKIP_WORKTREE_FLAG, INDEX_TYPECHANGE, MAX_IMAGE_BYTES,
    MAX_TEXT_DIFF_BYTES, WT_DELETED, WT_MODIFIED, WT_NEW, WT_RENAMED, WT_TYPECHANGE,
};

#[test]
fn status_bits_are_those_of_git2() {
    assert_eq!(INDEX_NEW, git2::Status::INDEX_NEW.bits());
    assert_eq!(INDEX_MODIFIED, git2::Status::INDEX_MODIFIED.bits());
    assert_eq!(INDEX_DELETED, git2::Status::INDEX_DELETED.bits());
    assert_eq!(INDEX_RENAMED, git2::Status::INDEX_RENAMED.bits());
    assert_eq!(INDEX_TYPECHANGE, git2::Status::INDEX_TYPECHANGE.bits());
    assert_eq!(WT_NEW, git2::Status::WT_NEW.bits());
    assert_eq!(WT_MODIFIED, git2::Status::WT_MODIFIED.bits());
    assert_eq!(WT_DELETED, git2::Status::WT_DELETED.bits());
    assert_eq!(WT_TYPECHANGE, git2::Status::WT_TYPECHANGE.bits());
    assert_eq!(WT_RENAMED, git2::Status::WT_RENAMED.bits());
}

#[test]
fn status_letters_follow_the_order_of_precedence() {
    assert_eq!(status_for_index(0), None);
    assert_eq!(status_for_index(INDEX_NEW), Some("A"));
    assert_eq!(status_for_index(INDEX_MODIFIED), Some("M"));
    assert_eq!(status_for_index(INDEX_DELETED), Some("D"));
    assert_eq!(status_for_index(INDEX_RENAMED), Some("R"));
    assert_eq!(status_for_index(INDEX_TYPECHANGE), Some("T"));
    assert_eq!(status_for_index(INDEX_RENAMED | INDEX_MODIFIED), Some("M"));
    assert_eq!(status_for_index(INDEX_TYPECHANGE | INDEX_NEW | WT_DELETED), Some("A"));
    assert_eq!(status_for_index(WT_NEW | WT_MODIFIED), None);
    assert_eq!(status_for_workdir(0), None);
    assert_eq!(status_for_workdir(WT_NEW), Some("A"));
    assert_eq!(status_for_workdir(WT_MODIFIED), Some("M"));
    assert_eq!(status_for_workdir(WT_DELETED), Some("D"));
    assert_eq!(status_for_workdir(WT_RENAMED), Some("R"));
    assert_eq!(status_for_workdir(WT_TYPECHANGE), Some("T"));
    assert_eq!(status_for_workdir(WT_RENAMED | WT_TYPECHANGE), Some("R"));
    assert_eq!(status_for_workdir(INDEX_NEW), None);
    assert_eq!(status_for_file(WT_DELETED | INDEX_NEW), "D");
    assert_eq!(status_for_file(INDEX_RENAMED), "R");
    assert_eq!(status_for_file(1 << 14), "--");
}

#[test]
fn status_sides_are_told_apart() {
    assert!(includes_index(INDEX_TYPECHANGE));
    assert!(includes_index(INDEX_NEW | WT_NEW));
    assert!(!includes_index(WT_NEW | WT_RENAMED));
    assert!(!includes_index(0));
    assert!(includes_workdir(WT_RENAMED));
    assert!(!includes_workdir(INDEX_NEW | (1 << 12) | (1 << 14)));
    assert!(skips_worktree(INDEX_SKIP_WORKTREE_FLAG));
    assert!(skips_worktree(0xffff));
    assert!(!skips_worktree(0x2000));
}

#[test]
fn delta_letters() {
    assert_eq!(status_for_delta(Delta::Added), "A");
    assert_eq!(status_for_delta(Delta::Modified), "M");
    assert_eq!(status_for_delta(Delta::Deleted), "D");
    assert_eq!(status_for_delta(Delta::Renamed), "R");
    assert_eq!(status_for_delta(Delta::Typechange), "T");
    for other in [
        Delta::Unmodified,
        Delta::Copied,
        Delta::Ignored,
        Delta::Untracked,
        Delta::Unreadable,
        Delta::Conflicted,
    ] {
        assert_eq!(status_for_delta(other), "M");
    }
}

#[test]
fn binary_is_a_zero_byte_among_the_first_8192() {
    assert!(!bytes_look_binary(b""));
    assert!(!bytes_look_binary(b"plain text"));
    assert!(bytes_look_binary(b"\0"));
    assert!(bytes_look_binary(b"abc\0def"));
    let mut data = vec![b'a'; 8192];
    assert!(!bytes_look_binary(&data));
    data.push(0);
    assert!(!bytes_look_binary(&data));
    data[8191] = 0;
    assert!(bytes_look_binary(&data));
}

#[test]
fn images_are_encoded_up_to_the_limit() {
    assert_eq!(encode_image_base64(b""), Some(String::new()));
    assert_eq!(encode_image_base64(b"hello world~"), Some("aGVsbG8gd29ybGR+".to_string()));
    assert_eq!(encode_image_base64(b"a"), Some("YQ==".to_string()));
    assert_eq!(encode_image_base64(&[0xfb, 0xff]), Some("+/8=".to_string()));
    let at_limit = vec![7u8; MAX_IMAGE_BYTES];
    let encoded = encode_image_base64(&at_limit).expect("an image at the limit");
    assert_eq!(encoded, base64::engine::general_purpose::STANDARD.encode(&at_limit));
    let over = vec![7u8; MAX_IMAGE_BYTES + 1];
    assert_eq!(encode_image_base64(&over), None);
    assert_eq!(MAX_IMAGE_BYTES, 10485760);
}

#[test]
fn blobs_and_files_respect_their_declared_size() {
    assert_eq!(blob_to_base64(3, b"abc"), Some("YWJj".to_string()));
    assert_eq!(blob_to_base64(MAX_IMAGE_BYTES + 1, b"abc"), None);
    assert_eq!(blob_to_base64(MAX_IMAGE_BYTES, b"abc"), Some("YWJj".to_string()));
    assert_eq!(read_image_base64(3, b"abc"), Some("YWJj".to_string()));
    assert_eq!(read_image_base64(MAX_IMAGE_BYTES as u64 + 1, b"abc"), None);
    assert_eq!(read_image_base64(u64::MAX, b"abc"), None);
}

#[test]
fn lines_keep_their_line_feeds() {
    for s in ["", "a", "a\n", "a\nb", "\n", "\n\n", "a\r\nb\r\n", "x\n\ny", "é\n"] {
        let expected: Vec<String> = s.split_inclusive('\n').map(|p| p.to_string()).collect();
        let pieces = split_lines_preserving_newlines(s);
        assert_eq!(pieces, expected, "{:?}", s);
        assert_eq!(pieces.concat(), s);
    }
    assert_eq!(split_lines_preserving_newlines(""), Vec::<String>::new());
    assert_eq!(split_lines_preserving_newlines("a\nb"), vec!["a\n", "b"]);
}

#[test]
fn large_or_binary_content_has_no_lines() {
    assert_eq!(blob_to_lines(3, false, "a\nb"), Some(vec!["a\n".to_string(), "b".to_string()]));
    assert_eq!(blob_to_lines(3, true, "a\nb"), None);
    assert_eq!(blob_to_lines(MAX_TEXT_DIFF_BYTES + 1, false, "a"), None);
    assert_eq!(blob_to_lines(MAX_TEXT_DIFF_BYTES, false, ""), Some(vec![]));
    assert!(is_text_file(4, b"text"));
    assert!(!is_text_file(4, b"te\0t"));
    assert!(!is_text_file(MAX_TEXT_DIFF_BYTES as u64 + 1, b"text"));
    assert!(is_text_file(MAX_TEXT_DIFF_BYTES as u64, b""));
    assert_eq!(MAX_TEXT_DIFF_BYTES, 2097152);
}

#[test]
fn upstream_names_are_cut_at_the_first_slash() {
    assert_eq!(
        parse_upstream_ref("refs/remotes/origin/main"),
        Some(("origin".to_string(), "main".to_string()))
    );
    assert_eq!(
        parse_upstream_ref("origin/feature/x"),
        Some(("origin".to_string(), "feature/x".to_string()))
    );
    assert_eq!(
        parse_upstream_ref("refs/remotes/up/a/b"),
        Some(("up".to_string(), "a/b".to_string()))
    );
    assert_eq!(
        parse_upstream_ref("refs/heads/main"),
        Some(("refs".to_string(), "heads/main".to_string()))
    );
    for bad in ["", "origin", "origin/", "/main", "/", "refs/remotes/", "refs/remotes/origin", "refs/remotes//x"] {
        assert_eq!(parse_upstream_ref(bad), None, "{:?}", bad);
    }
}

#[test]
fn git_paths_use_forward_slashes() {
    assert_eq!(normalize_git_path("a\\b\\c.txt"), "a/b/c.txt");
    assert_eq!(normalize_git_path("a/b"), "a/b");
    assert_eq!(normalize_git_path(""), "");
    assert_eq!(normalize_git_path("\\"), "/");
}

fn rename(bits: u32, old_path: &str, new_path: &str) -> StatusDelta {
    StatusDelta {
        bits,
        old_path: Some(old_path.to_string()),
        new_path: Some(new_path.to_string()),
    }
}

#[test]
fn a_renamed_file_is_named_by_both_paths() {
    let entries = vec![
        rename(WT_MODIFIED, "a.txt", "a.txt"),
        rename(INDEX_RENAMED, "x.txt", "y.txt"),
        rename(INDEX_RENAMED, "a.txt", "b.txt"),
        rename(WT_RENAMED, "a.txt", "c.txt"),
    ];
    assert_eq!(action_paths_for_file("b.txt", Some(&entries)), vec!["a.txt", "b.txt"]);
    assert_eq!(action_paths_for_file("a.txt", Some(&entries)), vec!["a.txt", "b.txt"]);
    assert_eq!(action_paths_for_file("c.txt", Some(&entries)), vec!["a.txt", "c.txt"]);
    assert_eq!(action_paths_for_file(" y.txt\n", Some(&entries)), vec!["x.txt", "y.txt"]);
    assert_eq!(action_paths_for_file("other.txt", Some(&entries)), vec!["other.txt"]);
}

#[test]
fn action_paths_without_a_status_list_are_the_path() {
    assert_eq!(action_paths_for_file("dir\\file.txt", None), vec!["dir/file.txt"]);
    assert_eq!(action_paths_for_file("  a.txt ", Some(&vec![])), vec!["a.txt"]);
    assert_eq!(action_paths_for_file("", None), Vec::<String>::new());
    assert_eq!(action_paths_for_file("   ", Some(&vec![])), Vec::<String>::new());
}

#[test]
fn action_paths_pass_over_entries_that_are_no_renames() {
    let entries = vec![
        rename(INDEX_MODIFIED | WT_MODIFIED, "a.txt", "b.txt"),
        StatusDelta { bits: WT_RENAMED, old_path: None, new_path: Some("b.txt".to_string()) },
        StatusDelta { bits: WT_RENAMED, old_path: Some("b.txt".to_string()), new_path: None },
    ];
    assert_eq!(action_paths_for_file("b.txt", Some(&entries)), vec!["b.txt"]);
}

#[test]
fn action_paths_for_odd_renames() {
    assert_eq!(
        action_paths_for_file("a.txt", Some(&vec![rename(WT_RENAMED, "a.txt", "a.txt")])),
        vec!["a.txt"]
    );
    assert_eq!(
        action_paths_for_file("a.txt", Some(&vec![rename(WT_RENAMED, "a.txt", "")])),
        vec!["a.txt"]
    );
    assert_eq!(
        action_paths_for_file("b.txt", Some(&vec![rename(WT_RENAMED, "", "b.txt")])),
        vec!["b.txt"]
    );
    assert_eq!(
        action_paths_for_file("d/b.txt", Some(&vec![rename(WT_RENAMED, "d\\a.txt", "d\\b.txt")])),
        vec!["d/a.txt", "d/b.txt"]
    );
}

#[test]
fn the_default_remote_is_origin_or_the_first() {
    let name = |s: &str| Some(s.to_string());
    assert_eq!(pick_remote(&vec![]), None);
    assert_eq!(pick_remote(&vec![None, None]), None);
    assert_eq!(pick_remote(&vec![name("up"), name("origin")]), Some("origin".to_string()));
    assert_eq!(pick_remote(&vec![None, name("up"), name("fork")]), Some("up".to_string()));
    assert_eq!(pick_remote(&vec![name(""), name("fork")]), None);
    assert_eq!(pick_remote(&vec![name(""), name("origin")]), Some("origin".to_string()));
    assert_eq!(pick_remote(&vec![name("Origin")]), Some("Origin".to_string()));
    assert_eq!(github_repo_remote(&vec![name("x")]), Ok("x".to_string()));
    assert_eq!(
        github_repo_remote(&vec![None]),
        Err("No git remote configured.".to_string())
    );
}

#[test]
fn a_failed_command_says_what_it_can() {
    assert_eq!(command_failure("out", "err", "fallback"), "err");
    assert_eq!(command_failure(" out \n", "  \n", "fallback"), "out");
    assert_eq!(command_failure("", "", "fallback"), "fallback");
    assert_eq!(command_failure("\n", "\t", ""), "");
    assert_eq!(command_result(true, "out", "err", "f"), Ok(()));
    assert_eq!(command_result(false, "out", "err\n", "f"), Err("err".to_string()));
    assert_eq!(run_git_command(true, "", "warning"), Ok(()));
    assert_eq!(run_git_command(false, "", ""), Err("Git command failed.".to_string()));
    assert_eq!(
        run_git_command(false, "nothing to commit\n", ""),
        Err("nothing to commit".to_string())
    );
    assert_eq!(run_gh_command(false, " ", " "), Err("GitHub CLI command failed.".to_string()));
    assert_eq!(run_gh_command(false, "", "not logged in"), Err("not logged in".to_string()));
}

#[test]
fn depth_and_limit_have_defaults() {
    assert_eq!(scan_depth(None), 2);
    assert_eq!(scan_depth(Some(0)), 1);
    assert_eq!(scan_depth(Some(1)), 1);
    assert_eq!(scan_depth(Some(4)), 4);
    assert_eq!(scan_depth(Some(6)), 6);
    assert_eq!(scan_depth(Some(7)), 6);
    assert_eq!(scan_depth(Some(usize::MAX)), 6);
    assert_eq!(log_limit(None), 40);
    assert_eq!(log_limit(Some(0)), 0);
    assert_eq!(log_limit(Some(500)), 500);
}

#[test]
fn ignored_paths_are_skipped_unless_under_version_control() {
    for listed in [None, Some(true), Some(false)] {
        for checked in [None, Some(true), Some(false)] {
            for rules in [true, false] {
                for parent in [true, false] {
                    assert!(!should_skip_ignored_path_with_cache(true, listed, checked, rules, parent));
                    let expected = listed.unwrap_or(checked.unwrap_or(rules || parent));
                    assert_eq!(
                        should_skip_ignored_path_with_cache(false, listed, checked, rules, parent),
                        expected
                    );
                }
            }
        }
    }
    assert!(check_ignore_succeeded(Some(0)));
    assert!(check_ignore_succeeded(Some(1)));
    assert!(!check_ignore_succeeded(Some(128)));
    assert!(!check_ignore_succeeded(Some(-1)));
    assert!(!check_ignore_succeeded(None));
}

#[test]
fn each_question_about_an_ignored_path_is_asked_in_its_turn() {
    assert_eq!(next_ignore_step(true, None, None, None), IgnoreStep::Skip(false));
    assert_eq!(next_ignore_step(true, Some(true), Some(Some(true)), Some(true)), IgnoreStep::Skip(false));
    assert_eq!(next_ignore_step(false, Some(true), None, None), IgnoreStep::Skip(true));
    assert_eq!(next_ignore_step(false, Some(false), Some(Some(true)), Some(true)), IgnoreStep::Skip(false));
    assert_eq!(next_ignore_step(false, None, None, None), IgnoreStep::AskGit);
    assert_eq!(next_ignore_step(false, None, None, Some(true)), IgnoreStep::AskGit);
    assert_eq!(next_ignore_step(false, None, Some(Some(true)), None), IgnoreStep::Skip(true));
    assert_eq!(next_ignore_step(false, None, Some(Some(false)), Some(true)), IgnoreStep::Skip(false));
    assert_eq!(next_ignore_step(false, None, Some(None), None), IgnoreStep::AskRules);
    assert_eq!(next_ignore_step(false, None, Some(None), Some(true)), IgnoreStep::Skip(true));
    assert_eq!(next_ignore_step(false, None, Some(None), Some(false)), IgnoreStep::AskParents);
}

#[test]
fn the_questions_in_turn_give_the_answer_of_all_answers_together() {
    for versioned in [true, false] {
        for listed in [None, Some(true), Some(false)] {
            for checked in [None, Some(true), Some(false)] {
                for rules in [true, false] {
                    for parents in [true, false] {
                        let mut asked_git = None;
                        let mut by_rules = None;
                        let mut questions = 0;
                        let answer = loop {
                            match next_ignore_step(versioned, listed, asked_git, by_rules) {
                                IgnoreStep::Skip(skip) => break skip,
                                IgnoreStep::AskGit => asked_git = Some(checked),
                                IgnoreStep::AskRules => by_rules = Some(rules),
                                IgnoreStep::AskParents => break parents,
                            }
                            questions += 1;
                            assert!(questions <= 2);
                        };
                        assert_eq!(
                            answer,
                            should_skip_ignored_path_with_cache(versioned, listed, checked, rules, parents)
                        );
                    }
                }
            }
        }
    }
}
