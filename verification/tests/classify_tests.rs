use autogit::classify::{make_repo_relative, should_exclude_path};
use autogit::repo::{detect_git_repo, find_git_root};

fn no_excludes() -> Vec<String> {
    Vec::new()
}

#[test]
fn blacklist_components_are_rejected() {
    let ex = no_excludes();
    assert!(should_exclude_path(".git/config", &ex));
    assert!(should_exclude_path("node_modules/pkg/index.js", &ex));
    assert!(should_exclude_path("src/target/out.o", &ex));
    assert!(should_exclude_path("dist/app.js", &ex));
    assert!(should_exclude_path("build/x", &ex));
    assert!(should_exclude_path(".next/cache", &ex));
    assert!(should_exclude_path("a/__pycache__/m.pyc", &ex));
    assert!(!should_exclude_path("src/main.rs", &ex));
    assert!(!should_exclude_path("distribution/app.js", &ex));
}

#[test]
fn editor_droppings_are_rejected() {
    let ex = no_excludes();
    assert!(should_exclude_path("docs/.DS_Store", &ex));
    assert!(should_exclude_path("pkg/mod.pyc", &ex));
    assert!(should_exclude_path("var/daemon.log", &ex));
    assert!(!should_exclude_path("notes/log", &ex));
    assert!(!should_exclude_path("catalog.md", &ex));
}

#[test]
fn user_patterns_match_exact_prefix_and_component() {
    let ex = vec!["notes".to_string(), "tmp/scratch".to_string(), "  padded  ".to_string()];
    // Exact match and directory-prefix match.
    assert!(should_exclude_path("notes", &ex));
    assert!(should_exclude_path("notes/draft.md", &ex));
    assert!(should_exclude_path("tmp/scratch", &ex));
    assert!(should_exclude_path("tmp/scratch/a.txt", &ex));
    // Component match anywhere in the path.
    assert!(should_exclude_path("src/notes/todo.md", &ex));
    // Patterns are trimmed before use.
    assert!(should_exclude_path("a/padded/b", &ex));
    // Near-misses stay in.
    assert!(!should_exclude_path("notesbook/draft.md", &ex));
    assert!(!should_exclude_path("tmp/scratchy", &ex));
}

#[test]
fn empty_patterns_are_ignored() {
    let ex = vec!["".to_string(), "   ".to_string()];
    assert!(!should_exclude_path("anything/goes.txt", &ex));
}

#[test]
fn repo_relative_translation() {
    // A relative path is kept as it is.
    let r = make_repo_relative("/repo", "src/a.rs", None);
    assert_eq!(r, Some("src/a.rs".to_string()));
    // An absolute path under the root is stripped.
    let r = make_repo_relative("/repo", "/repo/src/a.rs", None);
    assert_eq!(r, Some("src/a.rs".to_string()));
    // The root itself becomes empty.
    let r = make_repo_relative("/repo", "/repo", None);
    assert_eq!(r, Some("".to_string()));
    // Outside the root without a canonical form: rejected.
    assert_eq!(make_repo_relative("/repo", "/elsewhere/a.rs", None), None);
    // The canonicalized form gets a second chance.
    let canonical = "/repo/src/b.rs".to_string();
    let r = make_repo_relative("/repo", "/links/b.rs", Some(&canonical));
    assert_eq!(r, Some("src/b.rs".to_string()));
}

#[test]
fn git_root_walks_to_nearest_ancestor() {
    let dirs = vec!["/home/u/proj".to_string(), "/home/u/proj/sub".to_string()];
    // The innermost repository wins.
    assert_eq!(
        find_git_root("/home/u/proj/sub/src", &dirs),
        Some("/home/u/proj/sub".to_string())
    );
    assert_eq!(find_git_root("/home/u/proj/docs", &dirs), Some("/home/u/proj".to_string()));
    assert_eq!(find_git_root("/tmp/elsewhere", &dirs), None);
}

#[test]
fn detect_git_repo_reports_root_and_relative_path() {
    let dirs = vec!["/home/u/proj".to_string()];
    let info = detect_git_repo("/home/u/proj/src/lib", &dirs);
    assert!(info.is_git_repo);
    assert_eq!(info.repo_root, Some("/home/u/proj".to_string()));
    assert_eq!(info.entry_relative_path, Some("src/lib".to_string()));

    let info = detect_git_repo("/home/u/proj", &dirs);
    assert!(info.is_git_repo);
    assert_eq!(info.entry_relative_path, Some("".to_string()));

    let info = detect_git_repo("/opt/none", &dirs);
    assert!(!info.is_git_repo);
    assert_eq!(info.repo_root, None);
    assert_eq!(info.entry_relative_path, None);
}
