//! Driver for the external version-control tool, as a state machine. The
//! machine never runs a process itself: [`ShadowCommit::request`] says which
//! plumbing command (or hook-file operation) to perform next, the caller
//! performs it and hands the outcome to [`ShadowCommit::step`]. Every
//! command the machine can emit is pinned by its contract, so the proofs
//! cover which commands run, in which order, and against which index file.
use vstd::prelude::*;

use crate::text::{
    chars_eq, contains_seq, dec_chars, dec_spec, from_chars, occurs_at, subvec, to_chars,
    trim_chars, trim_spec,
};

verus! {

/// What the caller is asked to do next.
pub enum VcsRequest {
    /// Run the version-control tool in the repo root with these arguments
    /// and environment overrides. `quiet` marks probes whose failure is an
    /// answer, not an error.
    Git { args: Vec<String>, envs: Vec<(String, String)>, quiet: bool },
    /// Read `.git/hooks/pre-push`, yielding its content or `None` when the
    /// file does not exist.
    ReadHookFile,
    /// Write `.git/hooks/pre-push` with this content and make it
    /// executable.
    WriteHookFile { content: String },
}

/// What the caller observed.
pub enum VcsOutcome {
    /// The command exited successfully; `stdout` is its trimmed output.
    GitOk { stdout: String },
    /// The command failed; `detail` is the caller's description.
    GitErr { detail: String },
    /// The hook file's content, or `None` when absent.
    HookContent { existing: Option<String> },
    /// The hook file was written.
    WriteDone,
    /// A filesystem operation failed.
    IoErr { detail: String },
}

/// Ghost view of an outcome.
pub enum OutcomeV {
    GitOk(Seq<char>),
    GitErr(Seq<char>),
    HookContent(Option<Seq<char>>),
    WriteDone,
    IoErr(Seq<char>),
}

/// The view of an outcome.
pub open spec fn outcome_view(o: &VcsOutcome) -> OutcomeV {
    match o {
        VcsOutcome::GitOk { stdout } => OutcomeV::GitOk(stdout@),
        VcsOutcome::GitErr { detail } => OutcomeV::GitErr(detail@),
        VcsOutcome::HookContent { existing } => OutcomeV::HookContent(
            match existing {
                Some(e) => Some(e@),
                None => None,
            },
        ),
        VcsOutcome::WriteDone => OutcomeV::WriteDone,
        VcsOutcome::IoErr { detail } => OutcomeV::IoErr(detail@),
    }
}

// ---------------------------------------------------------------------
// The push-guard hook
// ---------------------------------------------------------------------

/// The marker comment that identifies an installed guard block.
pub open spec fn guard_marker() -> Seq<char> {
    "# autogit-guard"@
}

/// The guard block appended to `.git/hooks/pre-push`: a `while read` loop
/// that refuses to push any ref under the shadow namespace.
pub open spec fn guard_body() -> Seq<char> {
    "# autogit-guard - never push shadow branches\nwhile IFS=' ' read -r local_ref _local_sha _remote_ref _remote_sha; do\n  case \"$local_ref\" in\n    refs/heads/autogit/*)\n      echo \"ERROR: autogit shadow branches are LOCAL ONLY. Refusing to push: $local_ref\" >&2\n      exit 1\n      ;;\n  esac\ndone\n"@
}

/// The content to write for `.git/hooks/pre-push`, given what is there:
/// `None` when the guard is already present (nothing to do); a fresh
/// shebang plus guard when the hook is absent or empty; otherwise the
/// existing body with the guard appended after a blank line.
pub open spec fn hook_new_content(existing: Seq<char>) -> Option<Seq<char>> {
    if contains_seq(existing, guard_marker()) {
        None
    } else if existing.len() == 0 {
        Some("#!/bin/sh\n"@ + guard_body())
    } else {
        Some(existing + "\n"@ + guard_body())
    }
}

/// The guard body opens with the marker comment.
proof fn lemma_guard_starts_with_marker()
    ensures
        guard_body().subrange(0, guard_marker().len() as int) == guard_marker(),
        guard_marker().len() <= guard_body().len(),
{
    reveal_strlit("# autogit-guard");
    reveal_strlit(
        "# autogit-guard - never push shadow branches\nwhile IFS=' ' read -r local_ref _local_sha _remote_ref _remote_sha; do\n  case \"$local_ref\" in\n    refs/heads/autogit/*)\n      echo \"ERROR: autogit shadow branches are LOCAL ONLY. Refusing to push: $local_ref\" >&2\n      exit 1\n      ;;\n  esac\ndone\n",
    );
    assert(guard_body().subrange(0, guard_marker().len() as int) =~= guard_marker());
}

/// Installing the guard leaves the marker present in the file.
pub proof fn lemma_hook_content_has_marker(existing: Seq<char>)
    ensures
        match hook_new_content(existing) {
            Some(c) => contains_seq(c, guard_marker()),
            None => contains_seq(existing, guard_marker()),
        },
{
    lemma_guard_starts_with_marker();
    let m = guard_marker();
    match hook_new_content(existing) {
        Some(c) => {
            if existing.len() == 0 {
                let pre = "#!/bin/sh\n"@;
                assert(c.subrange(pre.len() as int, pre.len() as int + m.len() as int) =~= guard_body().subrange(
                    0,
                    m.len() as int,
                ));
                assert(occurs_at(c, m, pre.len() as int));
            } else {
                let pre = existing + "\n"@;
                assert(c.subrange(pre.len() as int, pre.len() as int + m.len() as int) =~= guard_body().subrange(
                    0,
                    m.len() as int,
                ));
                assert(occurs_at(c, m, pre.len() as int));
            }
        },
        None => {},
    }
}

/// Installing the guard twice writes the same file as installing it once:
/// the content produced by one install is left untouched by the next.
pub proof fn lemma_hook_install_idempotent(existing: Seq<char>)
    ensures
        match hook_new_content(existing) {
            Some(c) => hook_new_content(c) is None,
            None => true,
        },
{
    lemma_hook_content_has_marker(existing);
}

/// Executable form of [`hook_new_content`].
pub fn hook_install_content(existing: &Vec<char>) -> (r: Option<String>)
    ensures
        match r {
            Some(c) => hook_new_content(existing@) == Some(c@),
            None => hook_new_content(existing@) is None,
        },
{
    let marker = to_chars("# autogit-guard");
    let body = to_chars(
        "# autogit-guard - never push shadow branches\nwhile IFS=' ' read -r local_ref _local_sha _remote_ref _remote_sha; do\n  case \"$local_ref\" in\n    refs/heads/autogit/*)\n      echo \"ERROR: autogit shadow branches are LOCAL ONLY. Refusing to push: $local_ref\" >&2\n      exit 1\n      ;;\n  esac\ndone\n",
    );
    if crate::text::find_sub(existing, &marker).is_some() {
        return None;
    }
    if existing.len() == 0 {
        let mut out = to_chars("#!/bin/sh\n");
        let mut body2 = body;
        out.append(&mut body2);
        proof {
            assert(out@ =~= "#!/bin/sh\n"@ + guard_body());
        }
        Some(from_chars(&out))
    } else {
        let mut out = subvec(existing, 0, existing.len());
        let mut nl = to_chars("\n");
        out.append(&mut nl);
        let mut body2 = body;
        out.append(&mut body2);
        proof {
            assert(existing@.subrange(0, existing@.len() as int) =~= existing@);
            assert(out@ =~= existing@ + "\n"@ + guard_body());
        }
        Some(from_chars(&out))
    }
}

// ---------------------------------------------------------------------
// String helpers for command assembly
// ---------------------------------------------------------------------

/// Fresh copy of a string.
pub fn copy_string(s: &String) -> (r: String)
    ensures
        r@ == s@,
{
    let v = to_chars(s.as_str());
    from_chars(&v)
}

/// The private index file used for all staging, relative to the repo root.
pub open spec fn private_index_path(root: Seq<char>) -> Seq<char> {
    root + "/.git/autogit-index"@
}

fn index_env_value(repo_root: &String) -> (r: String)
    ensures
        r@ == private_index_path(repo_root@),
{
    let mut v = to_chars(repo_root.as_str());
    let mut tail = to_chars("/.git/autogit-index");
    v.append(&mut tail);
    proof {
        assert(v@ =~= private_index_path(repo_root@));
    }
    from_chars(&v)
}

/// The commit subject for a batch made at `ts`.
pub open spec fn commit_message(ts: nat) -> Seq<char> {
    "autogit: "@ + dec_spec(ts)
}

fn commit_message_exec(ts: u64) -> (r: String)
    ensures
        r@ == commit_message(ts as nat),
{
    let mut v = to_chars("autogit: ");
    let mut d = dec_chars(ts);
    v.append(&mut d);
    proof {
        assert(v@ =~= commit_message(ts as nat));
    }
    from_chars(&v)
}

/// The author and committer date for a batch made at `ts`.
pub open spec fn commit_date(ts: nat) -> Seq<char> {
    dec_spec(ts) + " +0000"@
}

fn commit_date_exec(ts: u64) -> (r: String)
    ensures
        r@ == commit_date(ts as nat),
{
    let mut v = dec_chars(ts);
    let mut tail = to_chars(" +0000");
    v.append(&mut tail);
    proof {
        assert(v@ =~= commit_date(ts as nat));
    }
    from_chars(&v)
}

/// The failure message for a git invocation: the joined arguments and the
/// most informative captured stream, preferring standard error.
pub open spec fn git_error_spec(args_joined: Seq<char>, stderr: Seq<char>, stdout: Seq<char>)
    -> Seq<char> {
    let e = trim_spec(stderr);
    let o = trim_spec(stdout);
    let detail = if e.len() > 0 {
        e
    } else if o.len() > 0 {
        o
    } else {
        "unknown git error"@
    };
    "git "@ + args_joined + " failed: "@ + detail
}

/// Build the failure message for a failed git invocation.
pub fn git_error_message(args_joined: &str, stderr: &str, stdout: &str) -> (r: String)
    ensures
        r@ == git_error_spec(args_joined@, stderr@, stdout@),
{
    let e = trim_chars(&to_chars(stderr));
    let o = trim_chars(&to_chars(stdout));
    let mut v = to_chars("git ");
    let mut a = to_chars(args_joined);
    v.append(&mut a);
    let mut mid = to_chars(" failed: ");
    v.append(&mut mid);
    if e.len() > 0 {
        let mut e2 = e;
        v.append(&mut e2);
    } else if o.len() > 0 {
        let mut o2 = o;
        v.append(&mut o2);
    } else {
        let mut u = to_chars("unknown git error");
        v.append(&mut u);
    }
    proof {
        assert(v@ =~= git_error_spec(args_joined@, stderr@, stdout@));
    }
    from_chars(&v)
}

// ---------------------------------------------------------------------
// The shadow-commit state machine
// ---------------------------------------------------------------------

/// Where a commit cycle stands. The cycle begins by ensuring the shadow
/// branch and the push guard, then seeds the private index from the shadow
/// head, stages each batch path, writes a tree, and — only when the tree
/// differs from the parent's — creates and publishes a commit with a
/// compare-and-swap on the ref.
pub enum Phase {
    /// Probe whether the shadow ref exists.
    CheckRef,
    /// Create the shadow branch at `HEAD`.
    CreateBranch,
    /// Read the current pre-push hook.
    ReadHook,
    /// Write the pre-push hook with the guard appended.
    WriteHook { content: String },
    /// Resolve the shadow head.
    RevParseParent,
    /// Seed the private index from the shadow head.
    ReadTree { parent: String },
    /// Stage batch path number `next` against the private index.
    AddPath { parent: String, next: usize },
    /// Write the staged tree.
    WriteTree { parent: String },
    /// Resolve the parent commit's tree, to detect a no-op batch.
    ParentTree { parent: String, tree: String },
    /// Build the commit object.
    CommitTree { parent: String, tree: String },
    /// Advance the ref, guarded by the observed parent.
    UpdateRef { parent: String, commit: String },
    /// Finished; `None` means the batch produced no content change.
    Done { result: Option<String> },
    /// Aborted with an error.
    Failed { error: String },
}

/// Ghost view of a phase.
pub enum PhaseV {
    CheckRef,
    CreateBranch,
    ReadHook,
    WriteHook(Seq<char>),
    RevParseParent,
    ReadTree(Seq<char>),
    AddPath(Seq<char>, int),
    WriteTree(Seq<char>),
    ParentTree(Seq<char>, Seq<char>),
    CommitTree(Seq<char>, Seq<char>),
    UpdateRef(Seq<char>, Seq<char>),
    Done(Option<Seq<char>>),
    Failed(Seq<char>),
}

/// The view of a phase.
pub open spec fn phase_view(p: &Phase) -> PhaseV {
    match p {
        Phase::CheckRef => PhaseV::CheckRef,
        Phase::CreateBranch => PhaseV::CreateBranch,
        Phase::ReadHook => PhaseV::ReadHook,
        Phase::WriteHook { content } => PhaseV::WriteHook(content@),
        Phase::RevParseParent => PhaseV::RevParseParent,
        Phase::ReadTree { parent } => PhaseV::ReadTree(parent@),
        Phase::AddPath { parent, next } => PhaseV::AddPath(parent@, *next as int),
        Phase::WriteTree { parent } => PhaseV::WriteTree(parent@),
        Phase::ParentTree { parent, tree } => PhaseV::ParentTree(parent@, tree@),
        Phase::CommitTree { parent, tree } => PhaseV::CommitTree(parent@, tree@),
        Phase::UpdateRef { parent, commit } => PhaseV::UpdateRef(parent@, commit@),
        Phase::Done { result } => PhaseV::Done(
            match result {
                Some(c) => Some(c@),
                None => None,
            },
        ),
        Phase::Failed { error } => PhaseV::Failed(error@),
    }
}

/// One commit cycle (or, with `ensure_only`, just branch and hook setup)
/// against the repository at `repo_root`.
pub struct ShadowCommit {
    /// Root directory of the repository the cycle runs against.
    pub repo_root: String,
    /// The batch of repo-relative paths to stage.
    pub paths: Vec<String>,
    /// The batch timestamp, used for the commit subject and dates.
    pub timestamp: u64,
    /// When set, the machine stops after the hook step instead of
    /// committing.
    pub ensure_only: bool,
    /// Where the cycle stands.
    pub phase: Phase,
}

/// The phase after the next step: what the hook decides, whether the tree
/// changed, and whether the cycle goes on past setup.
pub open spec fn step_view(p: PhaseV, o: OutcomeV, ensure_only: bool, npaths: int) -> PhaseV {
    match p {
        PhaseV::CheckRef => match o {
            OutcomeV::GitOk(_) => PhaseV::ReadHook,
            OutcomeV::GitErr(_) => PhaseV::CreateBranch,
            _ => PhaseV::Failed("unexpected outcome"@),
        },
        PhaseV::CreateBranch => match o {
            OutcomeV::GitOk(_) => PhaseV::ReadHook,
            OutcomeV::GitErr(d) => PhaseV::Failed(d),
            _ => PhaseV::Failed("unexpected outcome"@),
        },
        PhaseV::ReadHook => match o {
            OutcomeV::HookContent(e) => {
                let existing = match e {
                    Some(t) => t,
                    None => Seq::empty(),
                };
                match hook_new_content(existing) {
                    Some(c) => PhaseV::WriteHook(c),
                    None => if ensure_only {
                        PhaseV::Done(None)
                    } else {
                        PhaseV::RevParseParent
                    },
                }
            },
            OutcomeV::IoErr(d) => PhaseV::Failed(d),
            _ => PhaseV::Failed("unexpected outcome"@),
        },
        PhaseV::WriteHook(_) => match o {
            OutcomeV::WriteDone => if ensure_only {
                PhaseV::Done(None)
            } else {
                PhaseV::RevParseParent
            },
            OutcomeV::IoErr(d) => PhaseV::Failed(d),
            _ => PhaseV::Failed("unexpected outcome"@),
        },
        PhaseV::RevParseParent => match o {
            OutcomeV::GitOk(s) => PhaseV::ReadTree(s),
            OutcomeV::GitErr(d) => PhaseV::Failed(d),
            _ => PhaseV::Failed("unexpected outcome"@),
        },
        PhaseV::ReadTree(parent) => match o {
            OutcomeV::GitOk(_) => if npaths == 0 {
                PhaseV::WriteTree(parent)
            } else {
                PhaseV::AddPath(parent, 0)
            },
            OutcomeV::GitErr(d) => PhaseV::Failed(d),
            _ => PhaseV::Failed("unexpected outcome"@),
        },
        PhaseV::AddPath(parent, i) => match o {
            OutcomeV::GitOk(_) => if i + 1 < npaths {
                PhaseV::AddPath(parent, i + 1)
            } else {
                PhaseV::WriteTree(parent)
            },
            OutcomeV::GitErr(d) => PhaseV::Failed(d),
            _ => PhaseV::Failed("unexpected outcome"@),
        },
        PhaseV::WriteTree(parent) => match o {
            OutcomeV::GitOk(t) => PhaseV::ParentTree(parent, t),
            OutcomeV::GitErr(d) => PhaseV::Failed(d),
            _ => PhaseV::Failed("unexpected outcome"@),
        },
        PhaseV::ParentTree(parent, tree) => match o {
            OutcomeV::GitOk(ptree) => if ptree == tree {
                PhaseV::Done(None)
            } else {
                PhaseV::CommitTree(parent, tree)
            },
            OutcomeV::GitErr(d) => PhaseV::Failed(d),
            _ => PhaseV::Failed("unexpected outcome"@),
        },
        PhaseV::CommitTree(parent, _tree) => match o {
            OutcomeV::GitOk(c) => PhaseV::UpdateRef(parent, c),
            OutcomeV::GitErr(d) => PhaseV::Failed(d),
            _ => PhaseV::Failed("unexpected outcome"@),
        },
        PhaseV::UpdateRef(_parent, c) => match o {
            OutcomeV::GitOk(_) => PhaseV::Done(Some(c)),
            OutcomeV::GitErr(d) => PhaseV::Failed(d),
            _ => PhaseV::Failed("unexpected outcome"@),
        },
        PhaseV::Done(r) => PhaseV::Done(r),
        PhaseV::Failed(e) => PhaseV::Failed(e),
    }
}

/// Ghost view of a request.
pub enum ReqV {
    Git { args: Seq<Seq<char>>, envs: Seq<(Seq<char>, Seq<char>)>, quiet: bool },
    ReadHookFile,
    WriteHookFile(Seq<char>),
}

/// The view of an environment-override list.
pub open spec fn envs_view(e: &Vec<(String, String)>) -> Seq<(Seq<char>, Seq<char>)> {
    Seq::new(e@.len(), |i: int| (e@[i].0@, e@[i].1@))
}

/// The view of a request.
pub open spec fn req_view(r: &VcsRequest) -> ReqV {
    match r {
        VcsRequest::Git { args, envs, quiet } => ReqV::Git {
            args: args.deep_view(),
            envs: envs_view(envs),
            quiet: *quiet,
        },
        VcsRequest::ReadHookFile => ReqV::ReadHookFile,
        VcsRequest::WriteHookFile { content } => ReqV::WriteHookFile(content@),
    }
}

/// The single environment override used for staging: the private index.
pub open spec fn index_env(root: Seq<char>) -> Seq<(Seq<char>, Seq<char>)> {
    seq![("GIT_INDEX_FILE"@, private_index_path(root))]
}

/// The command (or file operation) the machine asks for in each phase.
pub open spec fn request_view_spec(m: &ShadowCommit) -> Option<ReqV> {
    let root = m.repo_root@;
    match phase_view(&m.phase) {
        PhaseV::CheckRef => Some(ReqV::Git {
            args: seq!["show-ref"@, "--verify"@, "--quiet"@, "refs/heads/autogit/tracking"@],
            envs: Seq::empty(),
            quiet: true,
        }),
        PhaseV::CreateBranch => Some(ReqV::Git {
            args: seq!["branch"@, "autogit/tracking"@, "HEAD"@],
            envs: Seq::empty(),
            quiet: false,
        }),
        PhaseV::ReadHook => Some(ReqV::ReadHookFile),
        PhaseV::WriteHook(c) => Some(ReqV::WriteHookFile(c)),
        PhaseV::RevParseParent => Some(ReqV::Git {
            args: seq!["rev-parse"@, "autogit/tracking"@],
            envs: Seq::empty(),
            quiet: false,
        }),
        PhaseV::ReadTree(_) => Some(ReqV::Git {
            args: seq!["read-tree"@, "autogit/tracking"@],
            envs: index_env(root),
            quiet: false,
        }),
        PhaseV::AddPath(_, i) => Some(ReqV::Git {
            args: seq!["add"@, "-A"@, "--"@, m.paths.deep_view()[i]],
            envs: index_env(root),
            quiet: false,
        }),
        PhaseV::WriteTree(_) => Some(ReqV::Git {
            args: seq!["write-tree"@],
            envs: index_env(root),
            quiet: false,
        }),
        PhaseV::ParentTree(_, _) => Some(ReqV::Git {
            args: seq!["rev-parse"@, "autogit/tracking^{tree}"@],
            envs: Seq::empty(),
            quiet: false,
        }),
        PhaseV::CommitTree(parent, tree) => Some(ReqV::Git {
            args: seq![
                "commit-tree"@,
                tree,
                "-p"@,
                parent,
                "-m"@,
                commit_message(m.timestamp as nat),
            ],
            envs: seq![
                ("GIT_AUTHOR_NAME"@, "autogit"@),
                ("GIT_AUTHOR_EMAIL"@, "autogit@local"@),
                ("GIT_COMMITTER_NAME"@, "autogit"@),
                ("GIT_COMMITTER_EMAIL"@, "autogit@local"@),
                ("GIT_AUTHOR_DATE"@, commit_date(m.timestamp as nat)),
                ("GIT_COMMITTER_DATE"@, commit_date(m.timestamp as nat)),
            ],
            quiet: false,
        }),
        PhaseV::UpdateRef(parent, commit) => Some(ReqV::Git {
            args: seq!["update-ref"@, "refs/heads/autogit/tracking"@, commit, parent],
            envs: Seq::empty(),
            quiet: false,
        }),
        PhaseV::Done(_) => None,
        PhaseV::Failed(_) => None,
    }
}

/// A machine is well formed when its staging cursor is in bounds.
pub open spec fn wf(m: &ShadowCommit) -> bool {
    match phase_view(&m.phase) {
        PhaseV::AddPath(_, i) => 0 <= i < m.paths@.len(),
        _ => true,
    }
}

impl ShadowCommit {
    /// Begin a commit cycle for one batch of repo-relative paths.
    pub fn commit_shadow_batch(repo_root: String, paths: Vec<String>, timestamp: u64) -> (m:
        ShadowCommit)
        ensures
            m.repo_root == repo_root,
            m.paths == paths,
            m.timestamp == timestamp,
            !m.ensure_only,
            phase_view(&m.phase) == PhaseV::CheckRef,
            wf(&m),
    {
        ShadowCommit { repo_root, paths, timestamp, ensure_only: false, phase: Phase::CheckRef }
    }

    /// Begin a setup-only cycle: ensure the shadow branch exists and the
    /// push guard is installed, then stop.
    pub fn ensure_shadow_branch(repo_root: String) -> (m: ShadowCommit)
        ensures
            m.repo_root == repo_root,
            m.paths@.len() == 0,
            m.ensure_only,
            phase_view(&m.phase) == PhaseV::CheckRef,
            wf(&m),
    {
        ShadowCommit {
            repo_root,
            paths: Vec::new(),
            timestamp: 0,
            ensure_only: true,
            phase: Phase::CheckRef,
        }
    }

    /// The machine has finished, successfully or not.
    pub fn is_terminal(&self) -> (r: bool)
        ensures
            r == (phase_view(&self.phase) is Done || phase_view(&self.phase) is Failed),
    {
        match self.phase {
            Phase::Done { .. } => true,
            Phase::Failed { .. } => true,
            _ => false,
        }
    }

    /// What to run next; `None` once the machine is terminal.
    pub fn request(&self) -> (r: Option<VcsRequest>)
        requires
            wf(self),
        ensures
            match r {
                Some(req) => request_view_spec(self) == Some(req_view(&req)),
                None => request_view_spec(self) is None,
            },
    {
        match &self.phase {
            Phase::CheckRef => {
                let mut args: Vec<String> = Vec::new();
                args.push(String::from_str("show-ref"));
                args.push(String::from_str("--verify"));
                args.push(String::from_str("--quiet"));
                args.push(String::from_str("refs/heads/autogit/tracking"));
                proof {
                    assert(args.deep_view() =~= seq![
                        "show-ref"@,
                        "--verify"@,
                        "--quiet"@,
                        "refs/heads/autogit/tracking"@,
                    ]);
                }
                let envs: Vec<(String, String)> = Vec::new();
                proof {
                    assert(envs_view(&envs) =~= Seq::<(Seq<char>, Seq<char>)>::empty());
                }
                Some(VcsRequest::Git { args, envs, quiet: true })
            },
            Phase::CreateBranch => {
                let mut args: Vec<String> = Vec::new();
                args.push(String::from_str("branch"));
                args.push(String::from_str("autogit/tracking"));
                args.push(String::from_str("HEAD"));
                proof {
                    assert(args.deep_view() =~= seq!["branch"@, "autogit/tracking"@, "HEAD"@]);
                }
                let envs: Vec<(String, String)> = Vec::new();
                proof {
                    assert(envs_view(&envs) =~= Seq::<(Seq<char>, Seq<char>)>::empty());
                }
                Some(VcsRequest::Git { args, envs, quiet: false })
            },
            Phase::ReadHook => Some(VcsRequest::ReadHookFile),
            Phase::WriteHook { content } => Some(
                VcsRequest::WriteHookFile { content: copy_string(content) },
            ),
            Phase::RevParseParent => {
                let mut args: Vec<String> = Vec::new();
                args.push(String::from_str("rev-parse"));
                args.push(String::from_str("autogit/tracking"));
                proof {
                    assert(args.deep_view() =~= seq!["rev-parse"@, "autogit/tracking"@]);
                }
                let envs: Vec<(String, String)> = Vec::new();
                proof {
                    assert(envs_view(&envs) =~= Seq::<(Seq<char>, Seq<char>)>::empty());
                }
                Some(VcsRequest::Git { args, envs, quiet: false })
            },
            Phase::ReadTree { .. } => {
                let mut args: Vec<String> = Vec::new();
                args.push(String::from_str("read-tree"));
                args.push(String::from_str("autogit/tracking"));
                let envs = self.index_envs();
                proof {
                    assert(args.deep_view() =~= seq!["read-tree"@, "autogit/tracking"@]);
                }
                Some(VcsRequest::Git { args, envs, quiet: false })
            },
            Phase::AddPath { next, .. } => {
                let mut args: Vec<String> = Vec::new();
                args.push(String::from_str("add"));
                args.push(String::from_str("-A"));
                args.push(String::from_str("--"));
                args.push(copy_string(&self.paths[*next]));
                let envs = self.index_envs();
                proof {
                    assert(args.deep_view() =~= seq![
                        "add"@,
                        "-A"@,
                        "--"@,
                        self.paths.deep_view()[*next as int],
                    ]);
                }
                Some(VcsRequest::Git { args, envs, quiet: false })
            },
            Phase::WriteTree { .. } => {
                let mut args: Vec<String> = Vec::new();
                args.push(String::from_str("write-tree"));
                let envs = self.index_envs();
                proof {
                    assert(args.deep_view() =~= seq!["write-tree"@]);
                }
                Some(VcsRequest::Git { args, envs, quiet: false })
            },
            Phase::ParentTree { .. } => {
                let mut args: Vec<String> = Vec::new();
                args.push(String::from_str("rev-parse"));
                args.push(String::from_str("autogit/tracking^{tree}"));
                proof {
                    assert(args.deep_view() =~= seq!["rev-parse"@, "autogit/tracking^{tree}"@]);
                }
                let envs: Vec<(String, String)> = Vec::new();
                proof {
                    assert(envs_view(&envs) =~= Seq::<(Seq<char>, Seq<char>)>::empty());
                }
                Some(VcsRequest::Git { args, envs, quiet: false })
            },
            Phase::CommitTree { parent, tree } => {
                let mut args: Vec<String> = Vec::new();
                args.push(String::from_str("commit-tree"));
                args.push(copy_string(tree));
                args.push(String::from_str("-p"));
                args.push(copy_string(parent));
                args.push(String::from_str("-m"));
                args.push(commit_message_exec(self.timestamp));
                let mut envs: Vec<(String, String)> = Vec::new();
                envs.push((String::from_str("GIT_AUTHOR_NAME"), String::from_str("autogit")));
                envs.push(
                    (String::from_str("GIT_AUTHOR_EMAIL"), String::from_str("autogit@local")),
                );
                envs.push((String::from_str("GIT_COMMITTER_NAME"), String::from_str("autogit")));
                envs.push(
                    (String::from_str("GIT_COMMITTER_EMAIL"), String::from_str("autogit@local")),
                );
                envs.push((String::from_str("GIT_AUTHOR_DATE"), commit_date_exec(self.timestamp)));
                envs.push(
                    (String::from_str("GIT_COMMITTER_DATE"), commit_date_exec(self.timestamp)),
                );
                proof {
                    assert(args.deep_view() =~= seq![
                        "commit-tree"@,
                        tree@,
                        "-p"@,
                        parent@,
                        "-m"@,
                        commit_message(self.timestamp as nat),
                    ]);
                    assert(envs_view(&envs) =~= seq![
                        ("GIT_AUTHOR_NAME"@, "autogit"@),
                        ("GIT_AUTHOR_EMAIL"@, "autogit@local"@),
                        ("GIT_COMMITTER_NAME"@, "autogit"@),
                        ("GIT_COMMITTER_EMAIL"@, "autogit@local"@),
                        ("GIT_AUTHOR_DATE"@, commit_date(self.timestamp as nat)),
                        ("GIT_COMMITTER_DATE"@, commit_date(self.timestamp as nat)),
                    ]);
                }
                Some(VcsRequest::Git { args, envs, quiet: false })
            },
            Phase::UpdateRef { parent, commit } => {
                let mut args: Vec<String> = Vec::new();
                args.push(String::from_str("update-ref"));
                args.push(String::from_str("refs/heads/autogit/tracking"));
                args.push(copy_string(commit));
                args.push(copy_string(parent));
                proof {
                    assert(args.deep_view() =~= seq![
                        "update-ref"@,
                        "refs/heads/autogit/tracking"@,
                        commit@,
                        parent@,
                    ]);
                }
                let envs: Vec<(String, String)> = Vec::new();
                proof {
                    assert(envs_view(&envs) =~= Seq::<(Seq<char>, Seq<char>)>::empty());
                }
                Some(VcsRequest::Git { args, envs, quiet: false })
            },
            Phase::Done { .. } => None,
            Phase::Failed { .. } => None,
        }
    }

    fn index_envs(&self) -> (r: Vec<(String, String)>)
        ensures
            envs_view(&r) == index_env(self.repo_root@),
    {
        let mut envs: Vec<(String, String)> = Vec::new();
        envs.push((String::from_str("GIT_INDEX_FILE"), index_env_value(&self.repo_root)));
        proof {
            assert(envs_view(&envs) =~= index_env(self.repo_root@));
        }
        envs
    }

    /// Consume an outcome and move to the next phase, exactly as
    /// [`step_view`] says.
    pub fn step(self, outcome: VcsOutcome) -> (r: ShadowCommit)
        requires
            wf(&self),
        ensures
            r.repo_root == self.repo_root,
            r.paths == self.paths,
            r.timestamp == self.timestamp,
            r.ensure_only == self.ensure_only,
            phase_view(&r.phase) == step_view(
                phase_view(&self.phase),
                outcome_view(&outcome),
                self.ensure_only,
                self.paths@.len() as int,
            ),
            wf(&r),
    {
        let ShadowCommit { repo_root, paths, timestamp, ensure_only, phase } = self;
        let npaths = paths.len();
        let new_phase: Phase = match (phase, outcome) {
            (Phase::CheckRef, VcsOutcome::GitOk { .. }) => Phase::ReadHook,
            (Phase::CheckRef, VcsOutcome::GitErr { .. }) => Phase::CreateBranch,
            (Phase::CreateBranch, VcsOutcome::GitOk { .. }) => Phase::ReadHook,
            (Phase::CreateBranch, VcsOutcome::GitErr { detail }) => Phase::Failed {
                error: detail,
            },
            (Phase::ReadHook, VcsOutcome::HookContent { existing }) => {
                let existing_chars = match &existing {
                    Some(t) => to_chars(t.as_str()),
                    None => Vec::new(),
                };
                proof {
                    if existing is None {
                        assert(existing_chars@ =~= Seq::<char>::empty());
                    }
                }
                match hook_install_content(&existing_chars) {
                    Some(c) => Phase::WriteHook { content: c },
                    None => if ensure_only {
                        Phase::Done { result: None }
                    } else {
                        Phase::RevParseParent
                    },
                }
            },
            (Phase::ReadHook, VcsOutcome::IoErr { detail }) => Phase::Failed { error: detail },
            (Phase::WriteHook { .. }, VcsOutcome::WriteDone) => if ensure_only {
                Phase::Done { result: None }
            } else {
                Phase::RevParseParent
            },
            (Phase::WriteHook { .. }, VcsOutcome::IoErr { detail }) => Phase::Failed {
                error: detail,
            },
            (Phase::RevParseParent, VcsOutcome::GitOk { stdout }) => Phase::ReadTree {
                parent: stdout,
            },
            (Phase::RevParseParent, VcsOutcome::GitErr { detail }) => Phase::Failed {
                error: detail,
            },
            (Phase::ReadTree { parent }, VcsOutcome::GitOk { .. }) => if npaths == 0 {
                Phase::WriteTree { parent }
            } else {
                Phase::AddPath { parent, next: 0 }
            },
            (Phase::ReadTree { .. }, VcsOutcome::GitErr { detail }) => Phase::Failed {
                error: detail,
            },
            (Phase::AddPath { parent, next }, VcsOutcome::GitOk { .. }) => if next + 1 < npaths {
                Phase::AddPath { parent, next: next + 1 }
            } else {
                Phase::WriteTree { parent }
            },
            (Phase::AddPath { .. }, VcsOutcome::GitErr { detail }) => Phase::Failed {
                error: detail,
            },
            (Phase::WriteTree { parent }, VcsOutcome::GitOk { stdout }) => Phase::ParentTree {
                parent,
                tree: stdout,
            },
            (Phase::WriteTree { .. }, VcsOutcome::GitErr { detail }) => Phase::Failed {
                error: detail,
            },
            (Phase::ParentTree { parent, tree }, VcsOutcome::GitOk { stdout }) => {
                let tc = to_chars(tree.as_str());
                let pc = to_chars(stdout.as_str());
                if chars_eq(&pc, &tc) {
                    Phase::Done { result: None }
                } else {
                    Phase::CommitTree { parent, tree }
                }
            },
            (Phase::ParentTree { .. }, VcsOutcome::GitErr { detail }) => Phase::Failed {
                error: detail,
            },
            (Phase::CommitTree { parent, .. }, VcsOutcome::GitOk { stdout }) => Phase::UpdateRef {
                parent,
                commit: stdout,
            },
            (Phase::CommitTree { .. }, VcsOutcome::GitErr { detail }) => Phase::Failed {
                error: detail,
            },
            (Phase::UpdateRef { commit, .. }, VcsOutcome::GitOk { .. }) => Phase::Done {
                result: Some(commit),
            },
            (Phase::UpdateRef { .. }, VcsOutcome::GitErr { detail }) => Phase::Failed {
                error: detail,
            },
            (p, _) => match p {
                Phase::Done { result } => Phase::Done { result },
                Phase::Failed { error } => Phase::Failed { error },
                _ => Phase::Failed { error: String::from_str("unexpected outcome") },
            },
        };
        ShadowCommit { repo_root, paths, timestamp, ensure_only, phase: new_phase }
    }
}

// ---------------------------------------------------------------------
// Laws of the machine
// ---------------------------------------------------------------------

/// A command name the machine is allowed to issue: plumbing only, nothing
/// that touches the user's working index or branches.
pub open spec fn allowed_command(name: Seq<char>) -> bool {
    name == "show-ref"@ || name == "branch"@ || name == "rev-parse"@ || name == "read-tree"@
        || name == "add"@ || name == "write-tree"@ || name == "commit-tree"@ || name
        == "update-ref"@
}

/// The user's primary index is never written: every staging command the
/// machine can issue carries the private-index override as its only
/// environment, any `GIT_INDEX_FILE` the machine sets points at the
/// private index, and only plumbing commands are issued at all.
pub proof fn lemma_user_index_untouched(m: &ShadowCommit)
    ensures
        match request_view_spec(m) {
            Some(ReqV::Git { args, envs, .. }) => allowed_command(args[0]) && ((args[0] == "add"@
                || args[0] == "read-tree"@ || args[0] == "write-tree"@) ==> envs == index_env(
                m.repo_root@,
            )) && (forall|k: int|
                0 <= k < envs.len() && (#[trigger] envs[k]).0 == "GIT_INDEX_FILE"@ ==> envs[k].1
                    == private_index_path(m.repo_root@)),
            _ => true,
        },
{
    reveal_strlit("show-ref");
    reveal_strlit("branch");
    reveal_strlit("rev-parse");
    reveal_strlit("read-tree");
    reveal_strlit("add");
    reveal_strlit("write-tree");
    reveal_strlit("commit-tree");
    reveal_strlit("update-ref");
    reveal_strlit("GIT_INDEX_FILE");
    reveal_strlit("GIT_AUTHOR_NAME");
    reveal_strlit("GIT_AUTHOR_EMAIL");
    reveal_strlit("GIT_COMMITTER_NAME");
    reveal_strlit("GIT_COMMITTER_EMAIL");
    reveal_strlit("GIT_AUTHOR_DATE");
    reveal_strlit("GIT_COMMITTER_DATE");
    assert("show-ref"@.len() == 8);
    assert("branch"@.len() == 6);
    assert("rev-parse"@.len() == 9);
    assert("read-tree"@.len() == 9);
    assert("add"@.len() == 3);
    assert("write-tree"@.len() == 10);
    assert("commit-tree"@.len() == 11);
    assert("update-ref"@.len() == 10);
    assert("rev-parse"@[2] == 'v' && "read-tree"@[2] == 'a');
    assert("update-ref"@[0] == 'u' && "write-tree"@[0] == 'w');
    assert("GIT_INDEX_FILE"@.len() == 14);
    assert("GIT_AUTHOR_NAME"@.len() == 15);
    assert("GIT_AUTHOR_EMAIL"@.len() == 16);
    assert("GIT_COMMITTER_NAME"@.len() == 18);
    assert("GIT_COMMITTER_EMAIL"@.len() == 19);
    assert("GIT_AUTHOR_DATE"@.len() == 15);
    assert("GIT_COMMITTER_DATE"@.len() == 18);
    let pv = phase_view(&m.phase);
    let root = m.repo_root@;
    match pv {
        PhaseV::CheckRef => {
            assert(request_view_spec(m) matches Some(ReqV::Git { args, envs, .. })
                && args[0] == "show-ref"@ && envs.len() == 0);
            assert("show-ref"@ != "add"@ && "show-ref"@ != "read-tree"@ && "show-ref"@
                != "write-tree"@);
        },
        PhaseV::CreateBranch => {
            assert(request_view_spec(m) matches Some(ReqV::Git { args, envs, .. })
                && args[0] == "branch"@ && envs.len() == 0);
            assert("branch"@ != "add"@ && "branch"@ != "read-tree"@ && "branch"@
                != "write-tree"@);
        },
        PhaseV::ReadHook => {},
        PhaseV::WriteHook(_) => {},
        PhaseV::RevParseParent => {
            assert(request_view_spec(m) matches Some(ReqV::Git { args, envs, .. })
                && args[0] == "rev-parse"@ && envs.len() == 0);
            assert("rev-parse"@ != "add"@ && "rev-parse"@ != "read-tree"@ && "rev-parse"@
                != "write-tree"@);
        },
        PhaseV::ReadTree(_) => {
            assert(request_view_spec(m) matches Some(ReqV::Git { args, envs, .. })
                && args[0] == "read-tree"@ && envs == index_env(root));
        },
        PhaseV::AddPath(_, _) => {
            assert(request_view_spec(m) matches Some(ReqV::Git { args, envs, .. })
                && args[0] == "add"@ && envs == index_env(root));
        },
        PhaseV::WriteTree(_) => {
            assert(request_view_spec(m) matches Some(ReqV::Git { args, envs, .. })
                && args[0] == "write-tree"@ && envs == index_env(root));
        },
        PhaseV::ParentTree(_, _) => {
            assert(request_view_spec(m) matches Some(ReqV::Git { args, envs, .. })
                && args[0] == "rev-parse"@ && envs.len() == 0);
            assert("rev-parse"@ != "add"@ && "rev-parse"@ != "read-tree"@ && "rev-parse"@
                != "write-tree"@);
        },
        PhaseV::CommitTree(_, _) => {
            assert(request_view_spec(m) matches Some(ReqV::Git { args, envs, .. })
                && args[0] == "commit-tree"@ && envs.len() == 6 && envs[0].0
                == "GIT_AUTHOR_NAME"@ && envs[1].0 == "GIT_AUTHOR_EMAIL"@ && envs[2].0
                == "GIT_COMMITTER_NAME"@ && envs[3].0 == "GIT_COMMITTER_EMAIL"@ && envs[4].0
                == "GIT_AUTHOR_DATE"@ && envs[5].0 == "GIT_COMMITTER_DATE"@);
            assert("commit-tree"@ != "add"@ && "commit-tree"@ != "read-tree"@ && "commit-tree"@
                != "write-tree"@);
        },
        PhaseV::UpdateRef(_, _) => {
            assert(request_view_spec(m) matches Some(ReqV::Git { args, envs, .. })
                && args[0] == "update-ref"@ && envs.len() == 0);
            assert("update-ref"@ != "add"@ && "update-ref"@ != "read-tree"@ && "update-ref"@
                != "write-tree"@);
        },
        PhaseV::Done(_) => {},
        PhaseV::Failed(_) => {},
    }
}

/// A batch whose staged tree equals the parent's tree never advances the
/// shadow ref: the cycle ends at once with no commit, issuing no further
/// command.
pub proof fn lemma_no_change_no_commit(parent: Seq<char>, tree: Seq<char>, eo: bool, np: int)
    ensures
        step_view(PhaseV::ParentTree(parent, tree), OutcomeV::GitOk(tree), eo, np)
            == PhaseV::Done(None),
{
}

/// The ref is advanced only after a commit object was built, and a commit
/// object is built only when the new tree differs from the parent's.
pub proof fn lemma_ref_advance_needs_tree_change(p: PhaseV, o: OutcomeV, eo: bool, np: int)
    ensures
        (step_view(p, o, eo, np) matches PhaseV::UpdateRef(_, _)) ==> p matches PhaseV::CommitTree(
            _,
            _,
        ),
        (step_view(p, o, eo, np) matches PhaseV::CommitTree(_, _)) ==> (p matches
            PhaseV::ParentTree(_, _) && (match (p, o) {
            (PhaseV::ParentTree(_, t), OutcomeV::GitOk(pt)) => pt != t,
            _ => false,
        })),
{
}

/// The identifier a finished cycle reports is exactly the one the
/// `update-ref` command published as the new shadow tip: the cycle ends
/// `Done(Some(c))` only from the ref-advance phase for that same `c`,
/// whose request (see [`request_view_spec`]) sets the shadow ref to `c`.
pub proof fn lemma_reported_commit_is_new_tip(p: PhaseV, o: OutcomeV, eo: bool, np: int)
    ensures
        match step_view(p, o, eo, np) {
            PhaseV::Done(Some(c)) => (p matches PhaseV::UpdateRef(_, c2) && c2 == c) || (p
                matches PhaseV::Done(Some(c3)) && c3 == c),
            _ => true,
        },
{
}

/// A compare-and-swap collision on `update-ref` aborts the cycle with the
/// caller's error rather than clobbering the ref.
pub proof fn lemma_cas_collision(parent: Seq<char>, commit: Seq<char>, d: Seq<char>, eo: bool, np: int)
    ensures
        step_view(PhaseV::UpdateRef(parent, commit), OutcomeV::GitErr(d), eo, np)
            == PhaseV::Failed(d),
{
}

/// On an already-initialized repository — the shadow ref exists and the
/// hook holds the guard — a setup-only cycle performs exactly two
/// read-only operations (the ref probe and the hook read) and finishes
/// without writing anything.
pub proof fn lemma_ensure_idempotent(probe: Seq<char>, existing: Seq<char>, np: int)
    requires
        contains_seq(existing, guard_marker()),
    ensures
        step_view(PhaseV::CheckRef, OutcomeV::GitOk(probe), true, np) == PhaseV::ReadHook,
        step_view(PhaseV::ReadHook, OutcomeV::HookContent(Some(existing)), true, np)
            == PhaseV::Done(None),
{
}

} // verus!
