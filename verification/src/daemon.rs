//! The daemon's decision core: the runtime-state record read by status
//! calls, the pending-path set, enablement and minimum-interval gating, and
//! how a coalesced event batch is absorbed. The surrounding loop — waiting
//! for batches, sleeping, spawning the worker — lives outside; every
//! decision it takes comes from here.
use vstd::prelude::*;

use crate::classify::{make_repo_relative_spec, make_repo_relative, should_exclude_spec, should_exclude_path};
use crate::config::AutogitConfig;
use crate::text::{chars_eq, to_chars};
use crate::vcs::copy_string;

verus! {

/// Counters and messages shared between the worker and status calls.
#[derive(Debug)]
pub struct RuntimeState {
    /// Number of shadow commits successfully written by this daemon.
    pub commits_written: u64,
    /// Identifier of the most recent successful commit.
    pub last_commit: Option<String>,
    /// Message of the most recent failure, cleared on every success.
    pub last_error: Option<String>,
}

impl Default for RuntimeState {
    /// No commits, no last commit, no error.
    fn default() -> (r: Self)
        ensures
            r.commits_written == 0,
            r.last_commit is None,
            r.last_error is None,
    {
        RuntimeState { commits_written: 0, last_commit: None, last_error: None }
    }
}

/// Record one successful shadow commit: the counter grows by one, the hash
/// becomes the last commit, and any earlier error is cleared.
pub fn record_commit(runtime_state: &mut RuntimeState, commit_hash: String)
    requires
        old(runtime_state).commits_written < u64::MAX,
    ensures
        final(runtime_state).commits_written == old(runtime_state).commits_written + 1,
        final(runtime_state).last_commit == Some(commit_hash),
        final(runtime_state).last_error is None,
{
    runtime_state.commits_written = runtime_state.commits_written + 1;
    runtime_state.last_commit = Some(commit_hash);
    runtime_state.last_error = None;
}

/// Record a failure message, leaving the counters untouched.
pub fn set_last_error(runtime_state: &mut RuntimeState, message: String)
    ensures
        final(runtime_state).commits_written == old(runtime_state).commits_written,
        final(runtime_state).last_commit == old(runtime_state).last_commit,
        final(runtime_state).last_error == Some(message),
{
    runtime_state.last_error = Some(message);
}

/// What a status call reports.
#[derive(Debug, Clone)]
pub struct AutogitDaemonStatus {
    /// Whether a daemon currently runs.
    pub running: bool,
    /// Root of the repository being recorded, when known.
    pub repo_root: Option<String>,
    /// The watched directory, when known.
    pub watch_path: Option<String>,
    /// Number of shadow commits written.
    pub commits_written: u64,
    /// Identifier of the most recent successful commit.
    pub last_commit: Option<String>,
    /// Message of the most recent failure.
    pub last_error: Option<String>,
}

/// Assemble a status snapshot from its parts, copying every field as it
/// stands.
pub fn status_from_parts(
    running: bool,
    repo_root: Option<&String>,
    watch_path: Option<&String>,
    runtime_state: &RuntimeState,
) -> (r: AutogitDaemonStatus)
    ensures
        r.running == running,
        (match (r.repo_root, repo_root) {
            (Some(a), Some(b)) => a@ == b@,
            (None, None) => true,
            _ => false,
        }),
        (match (r.watch_path, watch_path) {
            (Some(a), Some(b)) => a@ == b@,
            (None, None) => true,
            _ => false,
        }),
        r.commits_written == runtime_state.commits_written,
        (match (r.last_commit, runtime_state.last_commit) {
            (Some(a), Some(b)) => a@ == b@,
            (None, None) => true,
            _ => false,
        }),
        (match (r.last_error, runtime_state.last_error) {
            (Some(a), Some(b)) => a@ == b@,
            (None, None) => true,
            _ => false,
        }),
{
    AutogitDaemonStatus {
        running,
        repo_root: match repo_root {
            Some(p) => Some(copy_string(p)),
            None => None,
        },
        watch_path: match watch_path {
            Some(p) => Some(copy_string(p)),
            None => None,
        },
        commits_written: runtime_state.commits_written,
        last_commit: match &runtime_state.last_commit {
            Some(c) => Some(copy_string(c)),
            None => None,
        },
        last_error: match &runtime_state.last_error {
            Some(e) => Some(copy_string(e)),
            None => None,
        },
    }
}

/// Relies on `std::time::SystemTime::now` and
/// `SystemTime::duration_since(UNIX_EPOCH)`: seconds since the Unix epoch,
/// or zero when the clock reads before it. Nothing can be promised of a
/// clock reading.
#[verifier::external_body]
pub fn current_timestamp_seconds() -> u64 {
    std::time::SystemTime::now()
        .duration_since(std::time::UNIX_EPOCH)
        .map(|duration| duration.as_secs())
        .unwrap_or(0)
}

// ---------------------------------------------------------------------
// The worker's state and decisions
// ---------------------------------------------------------------------

/// The worker's private state between iterations.
pub struct DaemonState {
    /// The configuration in force, hot-reloaded when its file changes.
    pub config: AutogitConfig,
    /// When the last commit attempt was made; zero before the first.
    pub last_commit_ts: u64,
    /// Repo-relative paths accumulated since the last attempt.
    pub pending: Vec<String>,
}

/// Begin with a configuration, no pending paths and no attempt made.
pub fn daemon_state_new(config: AutogitConfig) -> (s: DaemonState)
    ensures
        s.config == config,
        s.last_commit_ts == 0,
        s.pending@.len() == 0,
{
    DaemonState { config, last_commit_ts: 0, pending: Vec::new() }
}

/// The view of an event list: each event's path and, when the caller
/// resolved one, its canonicalized form.
pub open spec fn events_view(events: &Vec<(String, Option<String>)>) -> Seq<
    (Seq<char>, Option<Seq<char>>),
> {
    Seq::new(
        events@.len(),
        |i: int|
            (
                events@[i].0@,
                match events@[i].1 {
                    Some(c) => Some(c@),
                    None => None,
                },
            ),
    )
}

/// The repo-relative path an event contributes, if any: translated by the
/// classifier, nonempty, and not excluded.
pub open spec fn accept_path(
    root: Seq<char>,
    exclude: Seq<Seq<char>>,
    p: Seq<char>,
    canon: Option<Seq<char>>,
) -> Option<Seq<char>> {
    match make_repo_relative_spec(root, p, canon) {
        Some(rel) => if rel.len() == 0 || should_exclude_spec(rel, exclude) {
            None
        } else {
            Some(rel)
        },
        None => None,
    }
}

/// `s` holds the string `x`.
pub open spec fn holds_str(s: Seq<Seq<char>>, x: Seq<char>) -> bool {
    exists|i: int| 0 <= i < s.len() && s[i] == x
}

/// The pending set after absorbing a batch: each accepted path is added
/// once, in event order, duplicates dropped.
pub open spec fn absorb_from(
    acc: Seq<Seq<char>>,
    raw: Seq<(Seq<char>, Option<Seq<char>>)>,
    root: Seq<char>,
    exclude: Seq<Seq<char>>,
) -> Seq<Seq<char>>
    decreases raw.len(),
{
    if raw.len() == 0 {
        acc
    } else {
        let acc2 = match accept_path(root, exclude, raw[0].0, raw[0].1) {
            Some(rel) => if holds_str(acc, rel) {
                acc
            } else {
                acc.push(rel)
            },
            None => acc,
        };
        absorb_from(acc2, raw.skip(1), root, exclude)
    }
}

/// The config file's path at the repo root.
pub open spec fn config_file_path(root: Seq<char>) -> Seq<char> {
    root + "/.autogit.json"@
}

/// Some event in the batch touches the config file.
pub open spec fn touches_config(root: Seq<char>, raw: Seq<(Seq<char>, Option<Seq<char>>)>)
    -> bool {
    exists|i: int| 0 <= i < raw.len() && raw[i].0 == config_file_path(root)
}

fn pending_holds(pending: &Vec<String>, x: &Vec<char>) -> (r: bool)
    ensures
        r == holds_str(pending.deep_view(), x@),
{
    let mut i: usize = 0;
    while i < pending.len()
        invariant
            i <= pending@.len(),
            forall|k: int| 0 <= k < i ==> pending.deep_view()[k] != x@,
        decreases pending@.len() - i,
    {
        let p = to_chars(pending[i].as_str());
        if chars_eq(&p, x) {
            proof {
                assert(pending.deep_view()[i as int] == x@);
            }
            return true;
        }
        i = i + 1;
    }
    false
}

/// Absorb one coalesced event batch: classify each path against the
/// exclude list currently in force, extend the pending set with the
/// accepted ones (first occurrence wins), and report whether any event
/// touched the config file — the caller then reloads the config before
/// the commit decision.
#[verifier::loop_isolation(false)]
pub fn absorb_batch(
    state: &mut DaemonState,
    repo_root: &str,
    events: &Vec<(String, Option<String>)>,
) -> (touched: bool)
    ensures
        final(state).config == old(state).config,
        final(state).last_commit_ts == old(state).last_commit_ts,
        final(state).pending.deep_view() == absorb_from(
            old(state).pending.deep_view(),
            events_view(events),
            repo_root@,
            old(state).config.exclude.deep_view(),
        ),
        touched == touches_config(repo_root@, events_view(events)),
{
    let ghost raw = events_view(events);
    let ghost root_v = repo_root@;
    let ghost ex = old(state).config.exclude.deep_view();
    let ghost acc0 = old(state).pending.deep_view();
    let mut config_path = to_chars(repo_root);
    let mut cfg_tail = to_chars("/.autogit.json");
    config_path.append(&mut cfg_tail);
    proof {
        assert(config_path@ =~= config_file_path(root_v));
    }
    proof {
        assert(raw.skip(0) =~= raw);
    }
    let mut touched = false;
    let mut i: usize = 0;
    while i < events.len()
        invariant
            i <= events@.len(),
            state.config == old(state).config,
            state.last_commit_ts == old(state).last_commit_ts,
            absorb_from(state.pending.deep_view(), raw.skip(i as int), root_v, ex) == absorb_from(
                acc0,
                raw,
                root_v,
                ex,
            ),
            touched == (exists|k: int| 0 <= k < i && raw[k].0 == config_file_path(root_v)),
        decreases events@.len() - i,
    {
        let ghost acc_cur = state.pending.deep_view();
        let (p, canon) = &events[i];
        let p_chars = to_chars(p.as_str());
        if chars_eq(&p_chars, &config_path) {
            touched = true;
            proof {
                assert(raw[i as int].0 == config_file_path(root_v));
            }
        }
        let rel_opt = make_repo_relative(repo_root, p.as_str(), canon.as_ref());
        proof {
            assert(raw.skip(i as int)[0] == raw[i as int]);
            assert(raw[i as int].0 == p@);
            assert(raw.skip(i as int).skip(1) =~= raw.skip(i + 1));
        }
        match rel_opt {
            Some(rel) => {
                let rel_chars = to_chars(rel.as_str());
                if rel_chars.len() == 0 {
                    proof {
                        assert(accept_path(root_v, ex, raw[i as int].0, raw[i as int].1)
                            is None);
                    }
                } else if should_exclude_path(rel.as_str(), &state.config.exclude) {
                    proof {
                        assert(accept_path(root_v, ex, raw[i as int].0, raw[i as int].1)
                            is None);
                    }
                } else {
                    proof {
                        assert(accept_path(root_v, ex, raw[i as int].0, raw[i as int].1)
                            == Some(rel@));
                    }
                    if !pending_holds(&state.pending, &rel_chars) {
                        state.pending.push(rel);
                        proof {
                            assert(state.pending.deep_view() =~= acc_cur.push(rel_chars@));
                        }
                    }
                }
            },
            None => {
                proof {
                    assert(accept_path(root_v, ex, raw[i as int].0, raw[i as int].1) is None);
                }
            },
        }
        i = i + 1;
    }
    proof {
        assert(raw.skip(i as int).len() == 0);
        assert(absorb_from(state.pending.deep_view(), raw.skip(i as int), root_v, ex)
            == state.pending.deep_view());
    }
    touched
}

/// Put a freshly loaded configuration in force, touching nothing else.
pub fn apply_config(state: &mut DaemonState, config: AutogitConfig)
    ensures
        final(state).config == config,
        final(state).last_commit_ts == old(state).last_commit_ts,
        final(state).pending == old(state).pending,
{
    state.config = config;
}

/// `a - b`, floored at zero.
pub open spec fn sat_sub(a: nat, b: nat) -> nat {
    if a >= b {
        (a - b) as nat
    } else {
        0
    }
}

/// The interval actually enforced: at least one second.
pub open spec fn min_interval_spec(interval: nat) -> nat {
    if interval >= 1 {
        interval
    } else {
        1
    }
}

/// The commit decision for one iteration.
#[derive(Debug, PartialEq, Eq, Structural)]
pub enum CommitGate {
    /// Recording is disabled: pending paths are discarded.
    Disabled,
    /// Nothing is pending.
    NoWork,
    /// Work is pending but the minimum interval has not passed; the
    /// pending paths are kept for a later iteration.
    TooSoon,
    /// A commit attempt is due now.
    Attempt,
}

/// The commit decision, as a function of the state and the clock.
pub open spec fn gate_view(
    enabled: bool,
    npending: nat,
    last_ts: nat,
    interval: nat,
    now: nat,
) -> CommitGate {
    if !enabled {
        CommitGate::Disabled
    } else if npending == 0 {
        CommitGate::NoWork
    } else if last_ts > 0 && sat_sub(now, last_ts) < min_interval_spec(interval) {
        CommitGate::TooSoon
    } else {
        CommitGate::Attempt
    }
}

/// Decide this iteration: disabled daemons discard their pending paths;
/// otherwise the pending set and the interval clock say whether an attempt
/// is due. Only the `Disabled` case mutates the state.
pub fn daemon_gate(state: &mut DaemonState, now: u64) -> (g: CommitGate)
    ensures
        g == gate_view(
            old(state).config.enabled,
            old(state).pending@.len() as nat,
            old(state).last_commit_ts as nat,
            old(state).config.interval_seconds as nat,
            now as nat,
        ),
        final(state).config == old(state).config,
        final(state).last_commit_ts == old(state).last_commit_ts,
        g == CommitGate::Disabled ==> final(state).pending@.len() == 0,
        g != CommitGate::Disabled ==> final(state).pending == old(state).pending,
{
    if !state.config.enabled {
        state.pending = Vec::new();
        return CommitGate::Disabled;
    }
    if state.pending.len() == 0 {
        return CommitGate::NoWork;
    }
    let min_interval: u64 = if state.config.interval_seconds >= 1 {
        state.config.interval_seconds
    } else {
        1
    };
    let elapsed: u64 = if now >= state.last_commit_ts {
        now - state.last_commit_ts
    } else {
        0
    };
    if state.last_commit_ts > 0 && elapsed < min_interval {
        return CommitGate::TooSoon;
    }
    CommitGate::Attempt
}

/// A copy of the pending batch, to hand to the commit cycle.
#[verifier::loop_isolation(false)]
pub fn pending_batch(state: &DaemonState) -> (r: Vec<String>)
    ensures
        r.deep_view() == state.pending.deep_view(),
{
    let mut r: Vec<String> = Vec::new();
    let mut i: usize = 0;
    while i < state.pending.len()
        invariant
            i <= state.pending@.len(),
            r.deep_view() =~= state.pending.deep_view().take(i as int),
        decreases state.pending@.len() - i,
    {
        let ghost prev = r.deep_view();
        r.push(copy_string(&state.pending[i]));
        i = i + 1;
        proof {
            let dv = r.deep_view();
            assert(r@.len() == i);
            assert(dv.len() == i);
            assert forall|k: int| 0 <= k < i implies dv[k] == state.pending.deep_view()[k] by {
                assert(dv[k] == r@[k]@);
                if k < i - 1 {
                    assert(prev[k] == r@[k]@);
                }
            }
            assert(r.deep_view() =~= state.pending.deep_view().take(i as int));
        }
    }
    proof {
        assert(state.pending.deep_view().take(state.pending@.len() as int)
            =~= state.pending.deep_view());
    }
    r
}

/// Close a commit attempt, whatever its outcome: the pending set is
/// cleared and the interval clock reset to the attempt's time.
pub fn finish_attempt(state: &mut DaemonState, now: u64)
    ensures
        final(state).config == old(state).config,
        final(state).last_commit_ts == now,
        final(state).pending@.len() == 0,
{
    state.pending = Vec::new();
    state.last_commit_ts = now;
}

// ---------------------------------------------------------------------
// Laws of the daemon loop
// ---------------------------------------------------------------------

/// No commit attempt is made within the minimum interval of the previous
/// attempt: once an attempt is closed at time `t`, the decision refuses every
/// instant closer to `t` than the enforced interval.
pub proof fn lemma_min_interval_respected(
    enabled: bool,
    npending: nat,
    t: nat,
    interval: nat,
    now: nat,
)
    requires
        t > 0,
        sat_sub(now, t) < min_interval_spec(interval),
    ensures
        gate_view(enabled, npending, t, interval, now) != CommitGate::Attempt,
{
}

/// An attempt is only ever due when the clock is free: either no attempt
/// was made yet, or the enforced interval has fully passed.
pub proof fn lemma_attempt_implies_interval(
    enabled: bool,
    npending: nat,
    last_ts: nat,
    interval: nat,
    now: nat,
)
    ensures
        gate_view(enabled, npending, last_ts, interval, now) == CommitGate::Attempt ==> (last_ts
            == 0 || sat_sub(now, last_ts) >= min_interval_spec(interval)),
{
}

/// A batch in which every path is rejected by the classifier leaves the
/// pending set exactly as it was — and therefore, when nothing was
/// pending, the decision is still that there is no work and the clock is not
/// reset.
pub proof fn lemma_excluded_batch_is_inert(
    acc: Seq<Seq<char>>,
    raw: Seq<(Seq<char>, Option<Seq<char>>)>,
    root: Seq<char>,
    exclude: Seq<Seq<char>>,
)
    requires
        forall|i: int|
            0 <= i < raw.len() ==> accept_path(root, exclude, (#[trigger] raw[i]).0, raw[i].1)
                is None,
    ensures
        absorb_from(acc, raw, root, exclude) == acc,
    decreases raw.len(),
{
    if raw.len() > 0 {
        assert(accept_path(root, exclude, raw[0].0, raw[0].1) is None);
        lemma_excluded_batch_is_inert(acc, raw.skip(1), root, exclude);
    }
}

/// Every path in the pending set after absorbing a batch either was
/// pending already or is the accepted, repo-relative form of one of the
/// batch's events — so a path the classifier rejects never enters the
/// pending set, and therefore never reaches a staged tree.
pub proof fn lemma_pending_paths_accepted(
    acc: Seq<Seq<char>>,
    raw: Seq<(Seq<char>, Option<Seq<char>>)>,
    root: Seq<char>,
    exclude: Seq<Seq<char>>,
)
    ensures
        forall|x: Seq<char>|
            #[trigger] holds_str(absorb_from(acc, raw, root, exclude), x) ==> holds_str(acc, x)
                || exists|i: int|
                0 <= i < raw.len() && accept_path(root, exclude, (#[trigger] raw[i]).0, raw[i].1)
                    == Some(x),
    decreases raw.len(),
{
    if raw.len() > 0 {
        let acc2 = match accept_path(root, exclude, raw[0].0, raw[0].1) {
            Some(rel) => if holds_str(acc, rel) {
                acc
            } else {
                acc.push(rel)
            },
            None => acc,
        };
        lemma_pending_paths_accepted(acc2, raw.skip(1), root, exclude);
        assert forall|x: Seq<char>|
            #[trigger] holds_str(absorb_from(acc, raw, root, exclude), x) implies holds_str(
            acc,
            x,
        ) || exists|i: int|
            0 <= i < raw.len() && accept_path(root, exclude, (#[trigger] raw[i]).0, raw[i].1)
                == Some(x) by {
            assert(absorb_from(acc, raw, root, exclude) == absorb_from(
                acc2,
                raw.skip(1),
                root,
                exclude,
            ));
            assert(holds_str(absorb_from(acc2, raw.skip(1), root, exclude), x));
            if holds_str(acc2, x) {
                if acc2 != acc {
                    let rel = accept_path(root, exclude, raw[0].0, raw[0].1).unwrap();
                    let j = choose|j: int| 0 <= j < acc2.len() && acc2[j] == x;
                    if j < acc.len() {
                        assert(acc[j] == x);
                        assert(holds_str(acc, x));
                    } else {
                        assert(x == rel);
                        assert(accept_path(root, exclude, raw[0].0, raw[0].1) == Some(x));
                    }
                }
            } else {
                let i2 = choose|i2: int|
                    0 <= i2 < raw.skip(1).len() && accept_path(
                        root,
                        exclude,
                        raw.skip(1)[i2].0,
                        raw.skip(1)[i2].1,
                    ) == Some(x);
                assert(raw.skip(1)[i2] == raw[i2 + 1]);
                assert(accept_path(root, exclude, raw[i2 + 1].0, raw[i2 + 1].1) == Some(x));
            }
        }
    }
}

/// A configuration reload that disables recording takes effect before the
/// commit decision of the batch that carried it: with `enabled` false the
/// gate discards the batch, whatever is pending and whatever the clock
/// says.
pub proof fn lemma_disabled_config_suppresses_batch(
    npending: nat,
    last_ts: nat,
    interval: nat,
    now: nat,
)
    ensures
        gate_view(false, npending, last_ts, interval, now) == CommitGate::Disabled,
{
}

// ---------------------------------------------------------------------
// Commit accounting
// ---------------------------------------------------------------------

/// The outcome of one commit cycle, as the daemon records it.
pub enum CycleResult {
    /// A commit was created with this identifier.
    Committed(String),
    /// The batch produced no content change.
    NoChange,
    /// The cycle failed with this message.
    Error(String),
}

/// Ghost view of a cycle result.
pub enum CycleResultV {
    Committed(Seq<char>),
    NoChange,
    Error(Seq<char>),
}

/// The view of a cycle result.
pub open spec fn cycle_result_view(r: &CycleResult) -> CycleResultV {
    match r {
        CycleResult::Committed(h) => CycleResultV::Committed(h@),
        CycleResult::NoChange => CycleResultV::NoChange,
        CycleResult::Error(e) => CycleResultV::Error(e@),
    }
}

/// Ghost view of the runtime state: commits written, last commit, last
/// error.
pub open spec fn runtime_view(rs: &RuntimeState) -> (nat, Option<Seq<char>>, Option<Seq<char>>) {
    (
        rs.commits_written as nat,
        match rs.last_commit {
            Some(c) => Some(c@),
            None => None,
        },
        match rs.last_error {
            Some(e) => Some(e@),
            None => None,
        },
    )
}

/// How one cycle result changes the runtime record.
pub open spec fn apply_result(
    rs: (nat, Option<Seq<char>>, Option<Seq<char>>),
    r: CycleResultV,
) -> (nat, Option<Seq<char>>, Option<Seq<char>>) {
    match r {
        CycleResultV::Committed(h) => ((rs.0 + 1) as nat, Some(h), None),
        CycleResultV::NoChange => rs,
        CycleResultV::Error(e) => (rs.0, rs.1, Some(e)),
    }
}

/// The runtime record after a whole run of cycle results.
pub open spec fn run_fold(
    rs: (nat, Option<Seq<char>>, Option<Seq<char>>),
    results: Seq<CycleResultV>,
) -> (nat, Option<Seq<char>>, Option<Seq<char>>)
    decreases results.len(),
{
    if results.len() == 0 {
        rs
    } else {
        run_fold(apply_result(rs, results[0]), results.skip(1))
    }
}

/// How many results of a run are commits.
pub open spec fn count_committed(results: Seq<CycleResultV>) -> nat
    decreases results.len(),
{
    if results.len() == 0 {
        0
    } else {
        (match results[0] {
            CycleResultV::Committed(_) => 1 as nat,
            _ => 0 as nat,
        } + count_committed(results.skip(1))) as nat
    }
}

/// The identifier of the last commit in a run, if any.
pub open spec fn last_committed(results: Seq<CycleResultV>) -> Option<Seq<char>>
    decreases results.len(),
{
    if results.len() == 0 {
        None
    } else {
        match last_committed(results.skip(1)) {
            Some(h) => Some(h),
            None => match results[0] {
                CycleResultV::Committed(h) => Some(h),
                _ => None,
            },
        }
    }
}

/// Record one cycle result, exactly as [`apply_result`] says: a commit
/// bumps the counter, replaces the last commit and clears the error; a
/// no-change batch records nothing; an error only replaces the message.
pub fn record_cycle_result(rs: &mut RuntimeState, r: CycleResult)
    requires
        old(rs).commits_written < u64::MAX,
    ensures
        runtime_view(final(rs)) == apply_result(runtime_view(old(rs)), cycle_result_view(&r)),
{
    match r {
        CycleResult::Committed(h) => record_commit(rs, h),
        CycleResult::NoChange => {},
        CycleResult::Error(e) => set_last_error(rs, e),
    }
}

/// Over any run, `commits_written` grows by exactly the number of commits
/// created, and `last_commit` names the most recent of them (or stays what
/// it was when none were made).
pub proof fn lemma_commit_accounting(
    rs: (nat, Option<Seq<char>>, Option<Seq<char>>),
    results: Seq<CycleResultV>,
)
    ensures
        run_fold(rs, results).0 == rs.0 + count_committed(results),
        run_fold(rs, results).1 == (match last_committed(results) {
            Some(h) => Some(h),
            None => rs.1,
        }),
    decreases results.len(),
{
    if results.len() > 0 {
        lemma_commit_accounting(apply_result(rs, results[0]), results.skip(1));
    }
}

} // verus!
