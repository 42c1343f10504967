use autogit::config::AutogitConfig;
use autogit::daemon::{
    absorb_batch, apply_config, current_timestamp_seconds, daemon_gate, daemon_state_new,
    finish_attempt, pending_batch, record_commit, record_cycle_result, set_last_error,
    status_from_parts, CommitGate, CycleResult, RuntimeState,
};
use autogit::retry::{
    lock_backoff_error, lock_poll_decision, log_line, retry_after_failure, retry_log_message,
    LockPoll,
};

fn ev(path: &str) -> (String, Option<String>) {
    (path.to_string(), None)
}

fn config(interval: u64, exclude: &[&str], enabled: bool) -> AutogitConfig {
    AutogitConfig {
        interval_seconds: interval,
        exclude: exclude.iter().map(|s| s.to_string()).collect(),
        enabled,
    }
}

#[test]
fn runtime_state_records_commits_and_errors() {
    let mut rs = RuntimeState::default();
    assert_eq!(rs.commits_written, 0);
    set_last_error(&mut rs, "first failure".to_string());
    assert_eq!(rs.last_error.as_deref(), Some("first failure"));
    record_commit(&mut rs, "abc123".to_string());
    assert_eq!(rs.commits_written, 1);
    assert_eq!(rs.last_commit.as_deref(), Some("abc123"));
    // Success clears the error.
    assert!(rs.last_error.is_none());
}

#[test]
fn commits_written_counts_each_success() {
    let mut rs = RuntimeState::default();
    record_cycle_result(&mut rs, CycleResult::Committed("one".to_string()));
    record_cycle_result(&mut rs, CycleResult::NoChange);
    record_cycle_result(&mut rs, CycleResult::Error("lost".to_string()));
    record_cycle_result(&mut rs, CycleResult::Committed("two".to_string()));
    assert_eq!(rs.commits_written, 2);
    assert_eq!(rs.last_commit.as_deref(), Some("two"));
    assert!(rs.last_error.is_none());
}

#[test]
fn status_copies_every_field() {
    let mut rs = RuntimeState::default();
    record_commit(&mut rs, "dead".to_string());
    let root = "/repo".to_string();
    let watch = "/repo/src".to_string();
    let st = status_from_parts(true, Some(&root), Some(&watch), &rs);
    assert!(st.running);
    assert_eq!(st.repo_root.as_deref(), Some("/repo"));
    assert_eq!(st.watch_path.as_deref(), Some("/repo/src"));
    assert_eq!(st.commits_written, 1);
    assert_eq!(st.last_commit.as_deref(), Some("dead"));
    assert!(st.last_error.is_none());

    let stopped = status_from_parts(false, None, None, &rs);
    assert!(!stopped.running);
    assert!(stopped.repo_root.is_none());
}

#[test]
fn absorb_classifies_and_deduplicates() {
    let mut s = daemon_state_new(config(60, &["notes"], true));
    let events = vec![
        ev("/repo/src/a.rs"),
        ev("/repo/src/a.rs"),
        ev("/repo/notes/draft.md"),
        ev("/repo/node_modules/x.js"),
        ev("/elsewhere/outside.txt"),
        ev("/repo"),
    ];
    let touched = absorb_batch(&mut s, "/repo", &events);
    assert!(!touched);
    assert_eq!(s.pending, vec!["src/a.rs".to_string()]);
}

#[test]
fn absorb_reports_config_touch() {
    let mut s = daemon_state_new(config(60, &[], true));
    let events = vec![ev("/repo/.autogit.json")];
    let touched = absorb_batch(&mut s, "/repo", &events);
    assert!(touched);
    // The config file itself is a plain eligible path and may be staged.
    assert_eq!(s.pending, vec![".autogit.json".to_string()]);
}

#[test]
fn excluded_only_batch_leaves_clock_and_pending_alone() {
    let mut s = daemon_state_new(config(60, &["notes"], true));
    s.last_commit_ts = 500;
    let events = vec![ev("/repo/notes/a.md"), ev("/repo/.git/index"), ev("/repo/x.log")];
    let touched = absorb_batch(&mut s, "/repo", &events);
    assert!(!touched);
    assert!(s.pending.is_empty());
    assert_eq!(s.last_commit_ts, 500);
    // Nothing pending: no work is reported and nothing is reset.
    let g = daemon_gate(&mut s, 10_000);
    assert_eq!(g, CommitGate::NoWork);
    assert_eq!(s.last_commit_ts, 500);
}

#[test]
fn gate_enforces_minimum_interval() {
    let mut s = daemon_state_new(config(60, &[], true));
    absorb_batch(&mut s, "/repo", &vec![ev("/repo/a.txt")]);
    // First attempt: the clock is still zero.
    assert_eq!(daemon_gate(&mut s, 1000), CommitGate::Attempt);
    finish_attempt(&mut s, 1000);
    assert!(s.pending.is_empty());
    // New work arrives right away: too soon for 59 more seconds.
    absorb_batch(&mut s, "/repo", &vec![ev("/repo/a.txt")]);
    assert_eq!(daemon_gate(&mut s, 1030), CommitGate::TooSoon);
    // The pending set survives a postponed attempt.
    assert_eq!(s.pending.len(), 1);
    assert_eq!(daemon_gate(&mut s, 1059), CommitGate::TooSoon);
    assert_eq!(daemon_gate(&mut s, 1060), CommitGate::Attempt);
}

#[test]
fn steady_writes_produce_at_most_one_attempt_per_interval() {
    // With a 60-second interval, a write arriving every second for 30
    // seconds yields exactly one commit attempt.
    let mut s = daemon_state_new(config(60, &[], true));
    let mut attempts = 0;
    for t in 0..30u64 {
        absorb_batch(&mut s, "/repo", &vec![ev("/repo/a.txt")]);
        if daemon_gate(&mut s, 1000 + t) == CommitGate::Attempt {
            attempts += 1;
            finish_attempt(&mut s, 1000 + t);
        }
    }
    assert_eq!(attempts, 1);
}

#[test]
fn gate_treats_zero_interval_as_one_second() {
    let mut s = daemon_state_new(config(0, &[], true));
    absorb_batch(&mut s, "/repo", &vec![ev("/repo/a.txt")]);
    finish_attempt(&mut s, 100);
    absorb_batch(&mut s, "/repo", &vec![ev("/repo/a.txt")]);
    assert_eq!(daemon_gate(&mut s, 100), CommitGate::TooSoon);
    assert_eq!(daemon_gate(&mut s, 101), CommitGate::Attempt);
}

#[test]
fn disabling_via_reload_discards_the_batch() {
    let mut s = daemon_state_new(config(60, &[], true));
    // The batch that rewrites the config also edits a file.
    let events = vec![ev("/repo/.autogit.json"), ev("/repo/a.txt")];
    let touched = absorb_batch(&mut s, "/repo", &events);
    assert!(touched);
    assert_eq!(s.pending.len(), 2);
    // The caller reloads before deciding: the new config applies first.
    apply_config(&mut s, config(60, &[], false));
    assert_eq!(daemon_gate(&mut s, 999), CommitGate::Disabled);
    assert!(s.pending.is_empty());
}

#[test]
fn pending_batch_copies_the_set() {
    let mut s = daemon_state_new(config(60, &[], true));
    absorb_batch(&mut s, "/repo", &vec![ev("/repo/a.txt"), ev("/repo/b.txt")]);
    let batch = pending_batch(&s);
    assert_eq!(batch, vec!["a.txt".to_string(), "b.txt".to_string()]);
    assert_eq!(s.pending, batch);
}

#[test]
fn clock_reads_are_monotonic_enough_to_call() {
    // Nothing is promised of the clock; it only has to be callable.
    let _ = current_timestamp_seconds();
}

#[test]
fn lock_poll_backs_off_then_gives_up() {
    assert_eq!(lock_poll_decision(0, false), LockPoll::Proceed);
    assert_eq!(lock_poll_decision(0, true), LockPoll::SleepAndRetry);
    assert_eq!(lock_poll_decision(4, true), LockPoll::SleepAndRetry);
    assert_eq!(lock_poll_decision(5, true), LockPoll::GiveUp);
    assert_eq!(lock_poll_decision(5, false), LockPoll::Proceed);
    assert!(lock_backoff_error().contains("persists after retries"));
}

#[test]
fn retry_messages_and_budget() {
    assert!(retry_after_failure(0));
    assert!(retry_after_failure(1));
    assert!(!retry_after_failure(2));
    assert_eq!(
        retry_log_message(0, "git add failed: boom"),
        "commit attempt 1/3 failed: git add failed: boom"
    );
    assert_eq!(retry_log_message(2, "x"), "commit attempt 3/3 failed: x");
}

#[test]
fn log_line_format_is_exact() {
    assert_eq!(log_line(1700000000, "it broke"), "[1700000000] ERROR: it broke\n");
}
