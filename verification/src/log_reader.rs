//! Read-only viewer over the shadow branch: the argument lists for the
//! log and diff invocations, the parser for the separator-framed log
//! output, and the assembly of diff results. Running the tool and
//! capturing its output is the caller's part.
use vstd::prelude::*;

use crate::text::{
    contains_seq, dec_chars, dec_spec, digits_val, find_sub, from_chars, is_digit,
    occurs_at, subvec, to_chars, trim_chars, trim_spec,
};
use crate::classify::split_sep;

verus! {

/// One entry in the change-stream timeline.
#[derive(Debug, Clone)]
pub struct CommitInfo {
    /// Full commit identifier.
    pub sha: String,
    /// Unix timestamp (seconds since epoch).
    pub timestamp: u64,
    /// ISO-8601 datetime string for display.
    pub datetime: String,
    /// Short commit message (subject line only).
    pub message: String,
    /// Paths changed in this commit, relative to the repo root.
    pub files_changed: Vec<String>,
}

/// Result of a diff operation.
#[derive(Debug, Clone)]
pub struct DiffResult {
    /// Unified diff patch text; empty when `is_binary` is set.
    pub patch: String,
    /// True when the file is binary and no diff is available.
    pub is_binary: bool,
    /// Error message, if the diff command failed.
    pub error: Option<String>,
}

/// Container returned when the viewer queries a path's history.
#[derive(Debug, Clone)]
pub struct LogResult {
    /// False when no repository was found at the given path.
    pub is_git_repo: bool,
    /// The commits found, newest first.
    pub commits: Vec<CommitInfo>,
}

// ---------------------------------------------------------------------
// Splitting on the frame separator
// ---------------------------------------------------------------------

/// Index of the first occurrence of `p` in `s`, or `-1` when absent.
pub open spec fn first_occ(s: Seq<char>, p: Seq<char>) -> int
    decreases s.len(),
{
    if occurs_at(s, p, 0) {
        0
    } else if s.len() == 0 {
        -1
    } else {
        let r = first_occ(s.skip(1), p);
        if r < 0 {
            -1
        } else {
            1 + r
        }
    }
}

pub proof fn lemma_first_occ_at(s: Seq<char>, p: Seq<char>, t: int)
    requires
        occurs_at(s, p, t),
        forall|j: int| 0 <= j < t ==> !occurs_at(s, p, j),
    ensures
        first_occ(s, p) == t,
    decreases t,
{
    if t > 0 {
        assert(!occurs_at(s, p, 0));
        assert(s.len() > 0);
        assert(occurs_at(s.skip(1), p, t - 1)) by {
            assert(s.skip(1).subrange(t - 1, t - 1 + p.len() as int) =~= s.subrange(
                t,
                t + p.len() as int,
            ));
        }
        assert forall|j: int| 0 <= j < t - 1 implies !occurs_at(s.skip(1), p, j) by {
            if occurs_at(s.skip(1), p, j) {
                assert(s.subrange(j + 1, j + 1 + p.len() as int) =~= s.skip(1).subrange(
                    j,
                    j + p.len() as int,
                ));
                assert(occurs_at(s, p, j + 1));
            }
        }
        lemma_first_occ_at(s.skip(1), p, t - 1);
    }
}

pub proof fn lemma_first_occ_none(s: Seq<char>, p: Seq<char>)
    requires
        !contains_seq(s, p),
    ensures
        first_occ(s, p) < 0,
    decreases s.len(),
{
    assert(!occurs_at(s, p, 0));
    if s.len() > 0 {
        assert forall|j: int| true implies !occurs_at(s.skip(1), p, j) by {
            if occurs_at(s.skip(1), p, j) {
                assert(s.subrange(j + 1, j + 1 + p.len() as int) =~= s.skip(1).subrange(
                    j,
                    j + p.len() as int,
                ));
                assert(occurs_at(s, p, j + 1));
            }
        }
        lemma_first_occ_none(s.skip(1), p);
    }
}

/// `s` split on the separator `p`, the separator removed.
pub open spec fn split_sub(s: Seq<char>, p: Seq<char>) -> Seq<Seq<char>>
    decreases s.len(),
{
    let i = first_occ(s, p);
    if p.len() == 0 {
        seq![s]
    } else if 0 <= i && i + p.len() <= s.len() {
        seq![s.take(i)] + split_sub(s.skip(i + p.len() as int), p)
    } else {
        seq![s]
    }
}

#[verifier::loop_isolation(false)]
fn split_sub_from(v: &Vec<char>, p: &Vec<char>, start: usize) -> (r: Vec<Vec<char>>)
    requires
        start <= v@.len(),
        p@.len() >= 1,
    ensures
        r@.len() == split_sub(v@.skip(start as int), p@).len(),
        forall|i: int|
            0 <= i < r@.len() ==> r@[i]@ == split_sub(v@.skip(start as int), p@)[i],
    decreases v@.len() - start,
{
    let ghost s = v@.skip(start as int);
    let tail = subvec(v, start, v.len());
    proof {
        assert(tail@ =~= s);
    }
    match find_sub(&tail, p) {
        Some(i) => {
            proof {
                lemma_first_occ_at(s, p@, i as int);
            }
            let piece = subvec(&tail, 0, i);
            proof {
                assert(piece@ =~= s.take(i as int));
                assert(v@.skip(start + i + p@.len()) =~= s.skip(i + p@.len() as int));
            }
            let mut r: Vec<Vec<char>> = Vec::new();
            r.push(piece);
            let mut rest = split_sub_from(v, p, start + i + p.len());
            while rest.len() > 0
                invariant
                    r@.len() >= 1,
                    r@.len() - 1 + rest@.len() == split_sub(s.skip(i + p@.len() as int), p@).len(),
                    r@[0]@ == s.take(i as int),
                    forall|k: int|
                        1 <= k < r@.len() ==> r@[k]@ == split_sub(s.skip(i + p@.len() as int), p@)[
                            k - 1
                        ],
                    forall|k: int|
                        0 <= k < rest@.len() ==> rest@[k]@ == split_sub(
                            s.skip(i + p@.len() as int),
                            p@,
                        )[r@.len() - 1 + k],
                decreases rest@.len(),
            {
                let piece2 = rest.remove(0);
                r.push(piece2);
            }
            r
        },
        None => {
            proof {
                lemma_first_occ_none(s, p@);
            }
            let mut r: Vec<Vec<char>> = Vec::new();
            r.push(tail);
            r
        },
    }
}

/// Split a character vector on a nonempty separator.
pub fn split_on_separator(v: &Vec<char>, p: &Vec<char>) -> (r: Vec<Vec<char>>)
    requires
        p@.len() >= 1,
    ensures
        r@.len() == split_sub(v@, p@).len(),
        forall|i: int| 0 <= i < r@.len() ==> r@[i]@ == split_sub(v@, p@)[i],
{
    let r = split_sub_from(v, p, 0);
    proof {
        assert(v@.skip(0) =~= v@);
    }
    r
}

// ---------------------------------------------------------------------
// Parsing one framed block
// ---------------------------------------------------------------------

/// Line `k` of the split block, or empty past the end.
pub open spec fn line_at(ls: Seq<Seq<char>>, k: int) -> Seq<char> {
    if 0 <= k < ls.len() {
        ls[k]
    } else {
        Seq::empty()
    }
}

/// The timestamp a line denotes: its trimmed digits in base ten, or zero
/// when it is not a number that fits.
pub open spec fn ts_of(l: Seq<char>) -> nat {
    let d = trim_spec(l);
    if d.len() > 0 && (forall|k: int| 0 <= k < d.len() ==> is_digit(d[k])) && digits_val(d)
        <= u64::MAX {
        digits_val(d)
    } else {
        0
    }
}

/// The changed-file lines: every remaining line with a nonempty trim.
pub open spec fn files_from(ls: Seq<Seq<char>>) -> Seq<Seq<char>>
    decreases ls.len(),
{
    if ls.len() == 0 {
        Seq::empty()
    } else {
        (if trim_spec(ls[0]).len() > 0 {
            seq![trim_spec(ls[0])]
        } else {
            Seq::<Seq<char>>::empty()
        }) + files_from(ls.skip(1))
    }
}

/// One block parsed: identifier, timestamp, datetime, subject, files.
/// `None` for blank blocks and truncated identifiers.
pub open spec fn parse_block_spec(b: Seq<char>) -> Option<
    (Seq<char>, nat, Seq<char>, Seq<char>, Seq<Seq<char>>),
> {
    let t = trim_spec(b);
    if t.len() == 0 {
        None
    } else {
        let ls = split_sep(t, '\n');
        let sha = trim_spec(line_at(ls, 0));
        if sha.len() < 7 {
            None
        } else {
            Some(
                (
                    sha,
                    ts_of(line_at(ls, 1)),
                    trim_spec(line_at(ls, 2)),
                    trim_spec(line_at(ls, 3)),
                    if ls.len() <= 4 {
                        Seq::empty()
                    } else {
                        files_from(ls.skip(4))
                    },
                ),
            )
        }
    }
}

/// Every block of the framed log output parsed, blanks dropped.
pub open spec fn parse_log_spec(blocks: Seq<Seq<char>>) -> Seq<
    (Seq<char>, nat, Seq<char>, Seq<char>, Seq<Seq<char>>),
>
    decreases blocks.len(),
{
    if blocks.len() == 0 {
        Seq::empty()
    } else {
        (match parse_block_spec(blocks[0]) {
            Some(info) => seq![info],
            None => Seq::empty(),
        }) + parse_log_spec(blocks.skip(1))
    }
}

/// The view of a parsed commit list.
pub open spec fn commits_view(v: &Vec<CommitInfo>) -> Seq<
    (Seq<char>, nat, Seq<char>, Seq<char>, Seq<Seq<char>>),
> {
    Seq::new(
        v@.len(),
        |i: int|
            (
                v@[i].sha@,
                v@[i].timestamp as nat,
                v@[i].datetime@,
                v@[i].message@,
                v@[i].files_changed.deep_view(),
            ),
    )
}

#[verifier::loop_isolation(false)]
fn parse_one_block(b: &Vec<char>) -> (r: Option<CommitInfo>)
    ensures
        match r {
            Some(c) => parse_block_spec(b@) == Some(
                (c.sha@, c.timestamp as nat, c.datetime@, c.message@, c.files_changed.deep_view()),
            ),
            None => parse_block_spec(b@) is None,
        },
{
    let t = trim_chars(b);
    if t.len() == 0 {
        return None;
    }
    let ls = crate::classify::split_chars(&t, '\n');
    let ghost spec_ls = split_sep(trim_spec(b@), '\n');
    let empty: Vec<char> = Vec::new();
    proof {
        assert(empty@ =~= Seq::<char>::empty());
        assert(spec_ls.len() > 0);
    }
    let sha = trim_chars(if ls.len() > 0 { &ls[0] } else { &empty });
    if sha.len() < 7 {
        return None;
    }
    let ts_line = trim_chars(if ls.len() > 1 { &ls[1] } else { &empty });
    let ts: u64 = match crate::text::parse_u64(&ts_line) {
        Some(x) => x,
        None => 0,
    };
    let dt = trim_chars(if ls.len() > 2 { &ls[2] } else { &empty });
    let msg = trim_chars(if ls.len() > 3 { &ls[3] } else { &empty });
    let mut files: Vec<String> = Vec::new();
    let mut k: usize = 4;
    proof {
        if spec_ls.len() > 4 {
            assert(spec_ls.skip(4).skip(0) =~= spec_ls.skip(4));
        }
        assert(files.deep_view() =~= Seq::<Seq<char>>::empty());
    }
    while k < ls.len()
        invariant
            4 <= k <= ls@.len() || (k == 4 && ls@.len() < 4),
            ls@.len() == spec_ls.len(),
            forall|m: int| 0 <= m < ls@.len() ==> ls@[m]@ == spec_ls[m],
            spec_ls.len() > 4 ==> k <= spec_ls.len() && files.deep_view() + files_from(
                spec_ls.skip(4).skip(k - 4),
            ) == files_from(spec_ls.skip(4)),
            spec_ls.len() <= 4 ==> files.deep_view() == Seq::<Seq<char>>::empty(),
        decreases ls@.len() - k,
    {
        let ghost fv = files.deep_view();
        let line = trim_chars(&ls[k]);
        proof {
            assert(spec_ls.skip(4).skip(k - 4)[0] == spec_ls[k as int]);
            assert(spec_ls.skip(4).skip(k - 4).skip(1) =~= spec_ls.skip(4).skip(k + 1 - 4));
        }
        if line.len() > 0 {
            files.push(from_chars(&line));
            proof {
                assert(files.deep_view() =~= fv.push(trim_spec(spec_ls[k as int])));
                assert(fv.push(trim_spec(spec_ls[k as int])) =~= fv + seq![
                    trim_spec(spec_ls[k as int]),
                ]);
            }
        }
        k = k + 1;
    }
    proof {
        if spec_ls.len() > 4 {
            assert(spec_ls.skip(4).skip(k - 4).len() == 0);
            assert(files_from(spec_ls.skip(4).skip(k - 4)) =~= Seq::<Seq<char>>::empty());
            assert(files.deep_view() =~= files_from(spec_ls.skip(4)));
        }
    }
    Some(
        CommitInfo {
            sha: from_chars(&sha),
            timestamp: ts,
            datetime: from_chars(&dt),
            message: from_chars(&msg),
            files_changed: files,
        },
    )
}

/// Parse the framed output of the log invocation built by
/// [`git_log_args`]: blocks separated by `COMMIT_SEP`, each holding the
/// identifier, timestamp, datetime and subject lines followed by the
/// changed files.
#[verifier::loop_isolation(false)]
pub fn parse_git_log_output(text: &str) -> (r: Vec<CommitInfo>)
    ensures
        commits_view(&r) == parse_log_spec(
            split_sub(text@, "COMMIT_SEP"@),
        ),
{
    let v = to_chars(text);
    let sep = to_chars("COMMIT_SEP");
    proof {
        reveal_strlit("COMMIT_SEP");
    }
    let blocks = split_on_separator(&v, &sep);
    let ghost spec_blocks = split_sub(text@, "COMMIT_SEP"@);
    let mut out: Vec<CommitInfo> = Vec::new();
    proof {
        assert(commits_view(&out) =~= Seq::<(Seq<char>, nat, Seq<char>, Seq<char>, Seq<Seq<char>>)>::empty());
        assert(spec_blocks.skip(0) =~= spec_blocks);
    }
    let mut i: usize = 0;
    while i < blocks.len()
        invariant
            i <= blocks@.len(),
            blocks@.len() == spec_blocks.len(),
            forall|k: int| 0 <= k < blocks@.len() ==> blocks@[k]@ == spec_blocks[k],
            commits_view(&out) + parse_log_spec(spec_blocks.skip(i as int)) == parse_log_spec(
                spec_blocks,
            ),
        decreases blocks@.len() - i,
    {
        let ghost cv = commits_view(&out);
        proof {
            assert(spec_blocks.skip(i as int)[0] == spec_blocks[i as int]);
            assert(spec_blocks.skip(i as int).skip(1) =~= spec_blocks.skip(i + 1));
        }
        match parse_one_block(&blocks[i]) {
            Some(c) => {
                let ghost info = (
                    c.sha@,
                    c.timestamp as nat,
                    c.datetime@,
                    c.message@,
                    c.files_changed.deep_view(),
                );
                out.push(c);
                proof {
                    assert(commits_view(&out) =~= cv.push(info));
                    assert(cv.push(info) =~= cv + seq![info]);
                    assert(commits_view(&out) + parse_log_spec(spec_blocks.skip(i + 1))
                        =~= parse_log_spec(spec_blocks));
                }
            },
            None => {
                proof {
                    assert(commits_view(&out) + parse_log_spec(spec_blocks.skip(i + 1))
                        =~= parse_log_spec(spec_blocks));
                }
            },
        }
        i = i + 1;
    }
    proof {
        assert(spec_blocks.skip(i as int).len() == 0);
        assert(commits_view(&out) =~= parse_log_spec(spec_blocks));
    }
    out
}

// ---------------------------------------------------------------------
// Invocation builders and diff assembly
// ---------------------------------------------------------------------

/// The capped commit count for a log query: the given limit, defaulting
/// to 100, never above 2000.
pub open spec fn log_cap(limit: Option<nat>) -> nat {
    let l = match limit {
        Some(x) => x,
        None => 100,
    };
    if l > 2000 {
        2000
    } else {
        l
    }
}

/// The argument list of the log invocation: the shadow branch with the
/// separator-framed format, capped, optionally filtered to a subtree.
pub fn git_log_args(subtree_path: Option<&String>, limit: Option<u64>) -> (r: Vec<String>)
    ensures
        ({
            let cap = log_cap(
                match limit {
                    Some(x) => Some(x as nat),
                    None => None,
                },
            );
            let base = seq![
                "log"@,
                "autogit/tracking"@,
                "--name-only"@,
                "-n"@ + dec_spec(cap),
                "--format=COMMIT_SEP%n%H%n%at%n%aI%n%s%n"@,
            ];
            match subtree_path {
                Some(sp) => if sp@.len() > 0 {
                    r.deep_view() == base + seq!["--"@, sp@]
                } else {
                    r.deep_view() == base
                },
                None => r.deep_view() == base,
            }
        }),
{
    let cap: u64 = match limit {
        Some(x) => if x > 2000 {
            2000
        } else {
            x
        },
        None => 100,
    };
    let mut n_arg = to_chars("-n");
    let mut cap_digits = dec_chars(cap);
    n_arg.append(&mut cap_digits);
    let mut r: Vec<String> = Vec::new();
    r.push(String::from_str("log"));
    r.push(String::from_str("autogit/tracking"));
    r.push(String::from_str("--name-only"));
    r.push(from_chars(&n_arg));
    r.push(String::from_str("--format=COMMIT_SEP%n%H%n%at%n%aI%n%s%n"));
    let ghost base = seq![
        "log"@,
        "autogit/tracking"@,
        "--name-only"@,
        "-n"@ + dec_spec(log_cap(match limit {
            Some(x) => Some(x as nat),
            None => None,
        })),
        "--format=COMMIT_SEP%n%H%n%at%n%aI%n%s%n"@,
    ];
    proof {
        assert(r.deep_view() =~= base);
    }
    match subtree_path {
        Some(sp) => {
            let sp_chars = to_chars(sp.as_str());
            if sp_chars.len() > 0 {
                r.push(String::from_str("--"));
                r.push(crate::vcs::copy_string(sp));
                proof {
                    assert(r.deep_view() =~= base + seq!["--"@, sp@]);
                }
            }
        },
        None => {},
    }
    r
}

/// The revision range shown for a diff: `sha..sha2` between two commits,
/// else the single commit against its parent.
pub open spec fn diff_range_spec(sha: Seq<char>, sha2: Option<Seq<char>>) -> Seq<char> {
    match sha2 {
        Some(s2) => sha + ".."@ + s2,
        None => sha + "^.."@ + sha,
    }
}

/// Build the revision range for a diff invocation.
pub fn diff_range(sha: &str, sha2: Option<&String>) -> (r: String)
    ensures
        r@ == diff_range_spec(
            sha@,
            match sha2 {
                Some(s2) => Some(s2@),
                None => None,
            },
        ),
{
    let mut v = to_chars(sha);
    match sha2 {
        Some(s2) => {
            let mut dots = to_chars("..");
            v.append(&mut dots);
            let mut tail = to_chars(s2.as_str());
            v.append(&mut tail);
            proof {
                assert(v@ =~= sha@ + ".."@ + s2@);
            }
        },
        None => {
            let mut caret = to_chars("^..");
            v.append(&mut caret);
            let mut tail = to_chars(sha);
            v.append(&mut tail);
            proof {
                assert(v@ =~= sha@ + "^.."@ + sha@);
            }
        },
    }
    from_chars(&v)
}

/// The binary-file indicator in a diff's output.
pub open spec fn diff_binary_spec(patch: Seq<char>, stderr: Seq<char>) -> bool {
    contains_seq(patch, "Binary files"@) || contains_seq(patch, "binary file"@) || (patch.len()
        == 0 && contains_seq(stderr, "binary"@))
}

/// Assemble the diff result from a finished invocation: binary files are
/// flagged with an empty patch; a failure that is not a binary indicator
/// carries the trimmed error stream.
pub fn diff_result_from_output(success: bool, stdout: &str, stderr: &str) -> (r: DiffResult)
    ensures
        ({
            let binary = diff_binary_spec(stdout@, stderr@);
            if !success && !binary {
                r.patch@.len() == 0 && !r.is_binary && (r.error matches Some(e) && e@
                    == trim_spec(stderr@))
            } else {
                r.is_binary == binary && r.error is None && (if binary {
                    r.patch@.len() == 0
                } else {
                    r.patch@ == stdout@
                })
            }
        }),
{
    let patch = to_chars(stdout);
    let err = to_chars(stderr);
    let b1 = to_chars("Binary files");
    let b2 = to_chars("binary file");
    let b3 = to_chars("binary");
    let is_binary = find_sub(&patch, &b1).is_some() || find_sub(&patch, &b2).is_some() || (
    patch.len() == 0 && find_sub(&err, &b3).is_some());
    if !success && !is_binary {
        let trimmed = trim_chars(&err);
        let empty: Vec<char> = Vec::new();
        proof {
            assert(empty@ =~= Seq::<char>::empty());
        }
        return DiffResult {
            patch: from_chars(&empty),
            is_binary: false,
            error: Some(from_chars(&trimmed)),
        };
    }
    if is_binary {
        let empty: Vec<char> = Vec::new();
        proof {
            assert(empty@ =~= Seq::<char>::empty());
        }
        DiffResult { patch: from_chars(&empty), is_binary: true, error: None }
    } else {
        DiffResult { patch: from_chars(&patch), is_binary: false, error: None }
    }
}

} // verus!
