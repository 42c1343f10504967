use autogit::events::{collect_changed_payloads, normalize_event_type, should_ignore_path, FsEventKind};
use autogit::log_reader::{diff_range, diff_result_from_output, git_log_args, parse_git_log_output};

#[test]
fn parse_log_output_exact() {
    let text = "COMMIT_SEP\nabcdef1234567890\n1700000001\n2023-11-14T22:13:21+00:00\nautogit: 1700000001\n\nsrc/a.rs\ndocs/b.md\nCOMMIT_SEP\n1234567\n1700000000\n2023-11-14T22:13:20+00:00\nautogit: 1700000000\n";
    let commits = parse_git_log_output(text);
    assert_eq!(commits.len(), 2);
    assert_eq!(commits[0].sha, "abcdef1234567890");
    assert_eq!(commits[0].timestamp, 1700000001);
    assert_eq!(commits[0].datetime, "2023-11-14T22:13:21+00:00");
    assert_eq!(commits[0].message, "autogit: 1700000001");
    assert_eq!(commits[0].files_changed, vec!["src/a.rs".to_string(), "docs/b.md".to_string()]);
    assert_eq!(commits[1].sha, "1234567");
    assert!(commits[1].files_changed.is_empty());
}

#[test]
fn parse_log_skips_blank_and_short_blocks() {
    let text = "COMMIT_SEP\n\nCOMMIT_SEP\nabc\n123\nd\nm\nCOMMIT_SEP\nabcdefg\nnotanumber\ndt\nmsg\n";
    let commits = parse_git_log_output(text);
    // The empty block and the 3-character identifier are dropped; the
    // unparsable timestamp becomes zero.
    assert_eq!(commits.len(), 1);
    assert_eq!(commits[0].sha, "abcdefg");
    assert_eq!(commits[0].timestamp, 0);
}

#[test]
fn log_args_cap_and_subtree() {
    let args = git_log_args(None, None);
    assert_eq!(args[0], "log");
    assert_eq!(args[1], "autogit/tracking");
    assert_eq!(args[2], "--name-only");
    assert_eq!(args[3], "-n100");
    assert_eq!(args[4], "--format=COMMIT_SEP%n%H%n%at%n%aI%n%s%n");
    assert_eq!(args.len(), 5);

    let sub = "src/lib".to_string();
    let args = git_log_args(Some(&sub), Some(5000));
    assert_eq!(args[3], "-n2000");
    assert_eq!(args[5], "--");
    assert_eq!(args[6], "src/lib");

    let empty = String::new();
    let args = git_log_args(Some(&empty), Some(7));
    assert_eq!(args[3], "-n7");
    assert_eq!(args.len(), 5);
}

#[test]
fn diff_range_forms() {
    assert_eq!(diff_range("abc", None), "abc^..abc");
    let second = "def".to_string();
    assert_eq!(diff_range("abc", Some(&second)), "abc..def");
}

#[test]
fn diff_result_assembly() {
    let ok = diff_result_from_output(true, "--- a\n+++ b\n", "");
    assert_eq!(ok.patch, "--- a\n+++ b\n");
    assert!(!ok.is_binary);
    assert!(ok.error.is_none());

    let bin = diff_result_from_output(true, "Binary files a and b differ\n", "");
    assert!(bin.is_binary);
    assert_eq!(bin.patch, "");
    assert!(bin.error.is_none());

    let err = diff_result_from_output(false, "", " fatal: bad revision \n");
    assert!(!err.is_binary);
    assert_eq!(err.error.as_deref(), Some("fatal: bad revision"));

    let bin_err = diff_result_from_output(false, "", "binary data");
    assert!(bin_err.is_binary);
    assert!(bin_err.error.is_none());
}

#[test]
fn watcher_ignores_git_internals() {
    assert!(should_ignore_path("/w/.git/index.lock"));
    assert!(should_ignore_path(".git/HEAD"));
    assert!(!should_ignore_path("/w/src/main.rs"));
    assert!(!should_ignore_path("/w/not.git/file"));
}

#[test]
fn payloads_deduplicate_per_kind_and_path() {
    let events = vec![
        (FsEventKind::Modify, "/w/a.txt".to_string()),
        (FsEventKind::Modify, "/w/a.txt".to_string()),
        (FsEventKind::Create, "/w/a.txt".to_string()),
        (FsEventKind::Modify, "/w/.git/index".to_string()),
        (FsEventKind::Other, "/w/b.txt".to_string()),
    ];
    let payloads = collect_changed_payloads(&events);
    assert_eq!(payloads.len(), 3);
    assert_eq!(payloads[0].event_type, "modify");
    assert_eq!(payloads[0].path, "/w/a.txt");
    assert_eq!(payloads[1].event_type, "create");
    assert_eq!(payloads[2].event_type, "other");
    assert_eq!(payloads[2].path, "/w/b.txt");
}

#[test]
fn event_kinds_normalize_to_names() {
    assert_eq!(normalize_event_type(FsEventKind::Create), "create");
    assert_eq!(normalize_event_type(FsEventKind::Modify), "modify");
    assert_eq!(normalize_event_type(FsEventKind::Remove), "remove");
    assert_eq!(normalize_event_type(FsEventKind::Access), "access");
    assert_eq!(normalize_event_type(FsEventKind::Other), "other");
}
