//! Retry and lock policy around a commit cycle: backing off while a
//! foreign index lock is held, bounded re-attempts with fixed sleeps, and
//! the exact text of the error-log lines. The sleeps and file probes are
//! performed by the caller; the decisions and messages are fixed here.
use vstd::prelude::*;

use crate::text::{dec_chars, dec_spec, from_chars, to_chars};

verus! {

/// How often the foreign-lock probe is retried before giving up.
pub const LOCK_FILE_MAX_RETRIES: u32 = 5;

/// Seconds slept between two foreign-lock probes.
pub const LOCK_FILE_RETRY_SLEEP_SECS: u64 = 2;

/// How many times one batch is attempted before its error is surfaced.
pub const COMMIT_MAX_RETRIES: u32 = 3;

/// Seconds slept between two attempts on the same batch.
pub const COMMIT_RETRY_SLEEP_SECS: u64 = 10;

/// What to do after probing for `.git/index.lock`.
#[derive(Debug, PartialEq, Eq, Structural)]
pub enum LockPoll {
    /// The lock is gone: the commit cycle may start.
    Proceed,
    /// The lock is still held and probes remain: sleep and probe again.
    SleepAndRetry,
    /// The lock persisted through every probe: skip this batch.
    GiveUp,
}

/// Decide the next move while waiting for a foreign `.git/index.lock`:
/// proceed as soon as the lock is gone, sleep and probe again while probes
/// remain, and give the batch up after [`LOCK_FILE_MAX_RETRIES`] probes.
pub fn lock_poll_decision(probes_done: u32, lock_exists: bool) -> (r: LockPoll)
    ensures
        !lock_exists ==> r == LockPoll::Proceed,
        lock_exists && probes_done < LOCK_FILE_MAX_RETRIES ==> r == LockPoll::SleepAndRetry,
        lock_exists && probes_done >= LOCK_FILE_MAX_RETRIES ==> r == LockPoll::GiveUp,
{
    if !lock_exists {
        LockPoll::Proceed
    } else if probes_done < LOCK_FILE_MAX_RETRIES {
        LockPoll::SleepAndRetry
    } else {
        LockPoll::GiveUp
    }
}

/// The error recorded when the foreign lock never cleared.
pub open spec fn lock_backoff_error_spec() -> Seq<char> {
    "git index.lock persists after retries; skipping this commit batch"@
}

/// Build the persistent-lock error message.
pub fn lock_backoff_error() -> (r: String)
    ensures
        r@ == lock_backoff_error_spec(),
{
    String::from_str("git index.lock persists after retries; skipping this commit batch")
}

/// Whether a further attempt follows a failure: attempts are numbered from
/// zero and [`COMMIT_MAX_RETRIES`] are made in all.
pub fn retry_after_failure(attempt_index: u32) -> (r: bool)
    ensures
        r == (attempt_index + 1 < COMMIT_MAX_RETRIES),
{
    attempt_index < u32::MAX && attempt_index + 1 < COMMIT_MAX_RETRIES
}

/// The log text for a failed attempt: `commit attempt <k>/3 failed:
/// <detail>`, with `k` numbered from one.
pub open spec fn retry_log_spec(attempt_index: nat, detail: Seq<char>) -> Seq<char> {
    "commit attempt "@ + dec_spec(attempt_index + 1) + "/"@ + dec_spec(COMMIT_MAX_RETRIES as nat)
        + " failed: "@ + detail
}

/// Build the log text for a failed attempt.
pub fn retry_log_message(attempt_index: u32, detail: &str) -> (r: String)
    requires
        attempt_index < COMMIT_MAX_RETRIES,
    ensures
        r@ == retry_log_spec(attempt_index as nat, detail@),
{
    let mut v = to_chars("commit attempt ");
    let mut k = dec_chars((attempt_index + 1) as u64);
    v.append(&mut k);
    let mut slash = to_chars("/");
    v.append(&mut slash);
    let mut total = dec_chars(COMMIT_MAX_RETRIES as u64);
    v.append(&mut total);
    let mut mid = to_chars(" failed: ");
    v.append(&mut mid);
    let mut d = to_chars(detail);
    v.append(&mut d);
    proof {
        assert(v@ =~= retry_log_spec(attempt_index as nat, detail@));
    }
    from_chars(&v)
}

/// One line of `.autogit.log`: `[<unix_seconds>] ERROR: <message>`,
/// newline-terminated.
pub open spec fn log_line_spec(ts: nat, message: Seq<char>) -> Seq<char> {
    "["@ + dec_spec(ts) + "] ERROR: "@ + message + "\n"@
}

/// Build one line of `.autogit.log`.
pub fn log_line(ts: u64, message: &str) -> (r: String)
    ensures
        r@ == log_line_spec(ts as nat, message@),
{
    let mut v = to_chars("[");
    let mut t = dec_chars(ts);
    v.append(&mut t);
    let mut mid = to_chars("] ERROR: ");
    v.append(&mut mid);
    let mut msg = to_chars(message);
    v.append(&mut msg);
    let mut nl = to_chars("\n");
    v.append(&mut nl);
    proof {
        assert(v@ =~= log_line_spec(ts as nat, message@));
    }
    from_chars(&v)
}

} // verus!
