use autogit::vcs::{
    git_error_message, hook_install_content, Phase, ShadowCommit, VcsOutcome, VcsRequest,
};

fn chars(s: &str) -> Vec<char> {
    s.chars().collect()
}

fn ok(stdout: &str) -> VcsOutcome {
    VcsOutcome::GitOk { stdout: stdout.to_string() }
}

fn git_err(detail: &str) -> VcsOutcome {
    VcsOutcome::GitErr { detail: detail.to_string() }
}

fn expect_git(req: Option<VcsRequest>) -> (Vec<String>, Vec<(String, String)>, bool) {
    match req {
        Some(VcsRequest::Git { args, envs, quiet }) => (args, envs, quiet),
        _ => panic!("expected a git request"),
    }
}

fn s(v: &[&str]) -> Vec<String> {
    v.iter().map(|x| x.to_string()).collect()
}

#[test]
fn hook_install_fresh_file() {
    let content = hook_install_content(&chars("")).expect("fresh hooks are written");
    assert!(content.starts_with("#!/bin/sh\n# autogit-guard"));
    assert!(content.contains("refs/heads/autogit/*"));
    assert!(content.ends_with("done\n"));
}

#[test]
fn hook_install_appends_to_existing() {
    let existing = "#!/bin/sh\necho custom hook\n";
    let content = hook_install_content(&chars(existing)).expect("guard is appended");
    assert!(content.starts_with(existing));
    assert!(content.contains("\n# autogit-guard"));
}

#[test]
fn hook_install_twice_is_idempotent() {
    let first = hook_install_content(&chars("")).expect("first install writes");
    // A second install over the installed content writes nothing, so the
    // final file equals the first install's output.
    assert!(hook_install_content(&first.chars().collect()).is_none());
}

#[test]
fn hook_guard_block_appears_exactly_once() {
    let first = hook_install_content(&chars("echo existing\n")).expect("guard appended");
    assert_eq!(first.matches("# autogit-guard").count(), 1);
}

#[test]
fn commit_cycle_full_run() {
    let m = ShadowCommit::commit_shadow_batch(
        "/repo".to_string(),
        vec!["a.txt".to_string(), "b/c.rs".to_string()],
        1700000000,
    );

    // Probe for the shadow ref.
    let (args, envs, quiet) = expect_git(m.request());
    assert_eq!(args, s(&["show-ref", "--verify", "--quiet", "refs/heads/autogit/tracking"]));
    assert!(envs.is_empty());
    assert!(quiet);
    let m = m.step(ok(""));

    // The hook already carries the guard: no write.
    assert!(matches!(m.request(), Some(VcsRequest::ReadHookFile)));
    let m = m.step(VcsOutcome::HookContent {
        existing: Some("#!/bin/sh\n# autogit-guard\n".to_string()),
    });

    // Resolve the parent.
    let (args, _, _) = expect_git(m.request());
    assert_eq!(args, s(&["rev-parse", "autogit/tracking"]));
    let m = m.step(ok("PARENT"));

    // Seed the private index.
    let (args, envs, _) = expect_git(m.request());
    assert_eq!(args, s(&["read-tree", "autogit/tracking"]));
    assert_eq!(
        envs,
        vec![("GIT_INDEX_FILE".to_string(), "/repo/.git/autogit-index".to_string())]
    );
    let m = m.step(ok(""));

    // Stage both paths, each against the private index.
    let (args, envs, _) = expect_git(m.request());
    assert_eq!(args, s(&["add", "-A", "--", "a.txt"]));
    assert_eq!(envs[0].1, "/repo/.git/autogit-index");
    let m = m.step(ok(""));
    let (args, _, _) = expect_git(m.request());
    assert_eq!(args, s(&["add", "-A", "--", "b/c.rs"]));
    let m = m.step(ok(""));

    // Write the tree and compare with the parent's.
    let (args, envs, _) = expect_git(m.request());
    assert_eq!(args, s(&["write-tree"]));
    assert_eq!(envs[0].0, "GIT_INDEX_FILE");
    let m = m.step(ok("TREE"));
    let (args, _, _) = expect_git(m.request());
    assert_eq!(args, s(&["rev-parse", "autogit/tracking^{tree}"]));
    let m = m.step(ok("PTREE"));

    // The tree changed: build the commit with the fixed identity.
    let (args, envs, _) = expect_git(m.request());
    assert_eq!(args, s(&["commit-tree", "TREE", "-p", "PARENT", "-m", "autogit: 1700000000"]));
    assert_eq!(
        envs,
        vec![
            ("GIT_AUTHOR_NAME".to_string(), "autogit".to_string()),
            ("GIT_AUTHOR_EMAIL".to_string(), "autogit@local".to_string()),
            ("GIT_COMMITTER_NAME".to_string(), "autogit".to_string()),
            ("GIT_COMMITTER_EMAIL".to_string(), "autogit@local".to_string()),
            ("GIT_AUTHOR_DATE".to_string(), "1700000000 +0000".to_string()),
            ("GIT_COMMITTER_DATE".to_string(), "1700000000 +0000".to_string()),
        ]
    );
    let m = m.step(ok("NEWSHA"));

    // Compare-and-swap against the observed parent.
    let (args, _, _) = expect_git(m.request());
    assert_eq!(args, s(&["update-ref", "refs/heads/autogit/tracking", "NEWSHA", "PARENT"]));
    let m = m.step(ok(""));

    assert!(m.request().is_none());
    match &m.phase {
        Phase::Done { result } => assert_eq!(result.as_deref(), Some("NEWSHA")),
        _ => panic!("cycle should have finished"),
    }
}

#[test]
fn unchanged_tree_suppresses_commit() {
    let m = ShadowCommit::commit_shadow_batch("/repo".to_string(), vec!["a.txt".to_string()], 7);
    let m = m.step(ok(""));
    let m = m.step(VcsOutcome::HookContent {
        existing: Some("# autogit-guard\n".to_string()),
    });
    let m = m.step(ok("PARENT"));
    let m = m.step(ok(""));
    let m = m.step(ok(""));
    let m = m.step(ok("SAME"));
    // The parent's tree equals the written tree: no commit object, no ref
    // update, the cycle is over.
    let m = m.step(ok("SAME"));
    assert!(m.request().is_none());
    match &m.phase {
        Phase::Done { result } => assert!(result.is_none()),
        _ => panic!("cycle should have ended without a commit"),
    }
}

#[test]
fn cas_collision_fails_the_cycle() {
    let m = ShadowCommit::commit_shadow_batch("/repo".to_string(), vec!["a.txt".to_string()], 7);
    let m = m.step(ok(""));
    let m = m.step(VcsOutcome::HookContent { existing: Some("# autogit-guard\n".to_string()) });
    let m = m.step(ok("PARENT"));
    let m = m.step(ok(""));
    let m = m.step(ok(""));
    let m = m.step(ok("TREE"));
    let m = m.step(ok("PTREE"));
    let m = m.step(ok("NEWSHA"));
    // An external writer moved the ref between rev-parse and update-ref.
    let m = m.step(git_err("ref moved concurrently"));
    match &m.phase {
        Phase::Failed { error } => assert_eq!(error, "ref moved concurrently"),
        _ => panic!("the collision must abort the cycle"),
    }
}

#[test]
fn ensure_on_initialized_repo_is_read_only() {
    let m = ShadowCommit::ensure_shadow_branch("/repo".to_string());
    // First request: the read-only ref probe.
    let (args, _, quiet) = expect_git(m.request());
    assert_eq!(args[0], "show-ref");
    assert!(quiet);
    let m = m.step(ok(""));
    // Second request: the hook read.
    assert!(matches!(m.request(), Some(VcsRequest::ReadHookFile)));
    let m = m.step(VcsOutcome::HookContent {
        existing: Some("#!/bin/sh\n# autogit-guard\nrest\n".to_string()),
    });
    // Guard present: nothing left to do, nothing was written.
    assert!(m.request().is_none());
    assert!(matches!(m.phase, Phase::Done { .. }));
}

#[test]
fn ensure_creates_branch_when_ref_missing() {
    let m = ShadowCommit::ensure_shadow_branch("/repo".to_string());
    let m = m.step(git_err(""));
    let (args, _, _) = expect_git(m.request());
    assert_eq!(args, s(&["branch", "autogit/tracking", "HEAD"]));
    let m = m.step(ok(""));
    assert!(matches!(m.request(), Some(VcsRequest::ReadHookFile)));
    let m = m.step(VcsOutcome::HookContent { existing: None });
    match m.request() {
        Some(VcsRequest::WriteHookFile { content }) => {
            assert!(content.starts_with("#!/bin/sh\n# autogit-guard"));
        },
        _ => panic!("a missing hook must be written"),
    }
    let m = m.step(VcsOutcome::WriteDone);
    assert!(matches!(m.phase, Phase::Done { .. }));
}

#[test]
fn git_error_message_prefers_stderr() {
    assert_eq!(
        git_error_message("rev-parse autogit/tracking", " boom \n", "out"),
        "git rev-parse autogit/tracking failed: boom"
    );
    assert_eq!(git_error_message("add", "", "  only out "), "git add failed: only out");
    assert_eq!(git_error_message("add", "  ", ""), "git add failed: unknown git error");
}
