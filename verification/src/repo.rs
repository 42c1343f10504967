//! Locating the enclosing repository: walking a path's parent chain for the
//! nearest directory that holds a `.git` entry. The filesystem probes are
//! supplied by the caller as the set of directories known to hold one, so
//! the walk itself is pure.
use vstd::prelude::*;

use crate::text::{chars_eq, from_chars, subvec, to_chars};

verus! {

/// Index of the last `/` in `p`, or `-1` if there is none.
pub open spec fn last_sep(p: Seq<char>) -> int
    decreases p.len(),
{
    if p.len() == 0 {
        -1
    } else if p[p.len() - 1] == '/' {
        p.len() - 1
    } else {
        let r = last_sep(p.take(p.len() - 1));
        if r < p.len() - 1 {
            r
        } else {
            -1
        }
    }
}

proof fn lemma_last_sep_at(p: Seq<char>, t: int)
    requires
        0 <= t < p.len(),
        p[t] == '/',
        forall|k: int| t < k < p.len() ==> p[k] != '/',
    ensures
        last_sep(p) == t,
    decreases p.len(),
{
    if p[p.len() - 1] == '/' {
        assert(t == p.len() - 1);
    } else {
        assert(t < p.len() - 1);
        lemma_last_sep_at(p.take(p.len() - 1), t);
    }
}

proof fn lemma_last_sep_none(p: Seq<char>)
    requires
        forall|k: int| 0 <= k < p.len() ==> p[k] != '/',
    ensures
        last_sep(p) == -1,
    decreases p.len(),
{
    if p.len() > 0 {
        lemma_last_sep_none(p.take(p.len() - 1));
    }
}

/// The parent directory of `p`: the path with its final component removed,
/// `None` for the filesystem root, an empty path, or a bare name.
pub open spec fn parent_spec(p: Seq<char>) -> Option<Seq<char>> {
    let j = last_sep(p);
    if p.len() == 0 {
        None
    } else if j < 0 {
        None
    } else if j == 0 {
        if p.len() == 1 {
            None
        } else {
            Some(seq!['/'])
        }
    } else {
        Some(p.take(j))
    }
}

/// Executable form of [`parent_spec`].
#[verifier::loop_isolation(false)]
pub fn parent_chars(p: &Vec<char>) -> (r: Option<Vec<char>>)
    ensures
        match r {
            Some(q) => parent_spec(p@) == Some(q@),
            None => parent_spec(p@) is None,
        },
{
    let mut j: usize = p.len();
    while j > 0 && p[j - 1] != '/'
        invariant
            j <= p@.len(),
            forall|k: int| j <= k < p@.len() ==> p@[k] != '/',
        decreases j,
    {
        j = j - 1;
    }
    if j == 0 {
        proof {
            lemma_last_sep_none(p@);
        }
        return None;
    }
    proof {
        lemma_last_sep_at(p@, j - 1);
    }
    if j == 1 {
        if p.len() == 1 {
            return None;
        }
        let mut root: Vec<char> = Vec::new();
        root.push('/');
        proof {
            assert(root@ =~= seq!['/']);
        }
        return Some(root);
    }
    Some(subvec(p, 0, j - 1))
}

/// `dirs` holds a path equal to `p`.
pub open spec fn dirs_contain(dirs: Seq<Seq<char>>, p: Seq<char>) -> bool {
    exists|i: int| 0 <= i < dirs.len() && dirs[i] == p
}

/// The nearest member of `dirs` on the parent chain of `p`, starting at `p`
/// itself.
pub open spec fn find_root_spec(p: Seq<char>, dirs: Seq<Seq<char>>) -> Option<Seq<char>>
    decreases p.len(),
{
    if dirs_contain(dirs, p) {
        Some(p)
    } else {
        match parent_spec(p) {
            Some(q) => find_root_spec(q, dirs),
            None => None,
        }
    }
}

#[verifier::loop_isolation(false)]
fn dirs_member(dirs: &Vec<String>, p: &Vec<char>) -> (r: bool)
    ensures
        r == dirs_contain(dirs.deep_view(), p@),
{
    let mut i: usize = 0;
    while i < dirs.len()
        invariant
            i <= dirs@.len(),
            forall|k: int| 0 <= k < i ==> dirs.deep_view()[k] != p@,
        decreases dirs@.len() - i,
    {
        let d = to_chars(dirs[i].as_str());
        if chars_eq(&d, p) {
            proof {
                assert(dirs.deep_view()[i as int] == p@);
            }
            return true;
        }
        i = i + 1;
    }
    false
}

/// Walk up from `start` and return the nearest ancestor (including `start`)
/// that is listed in `dirs_with_git`, the set of directories the caller has
/// found to hold a `.git` entry.
#[verifier::loop_isolation(false)]
pub fn find_git_root(start: &str, dirs_with_git: &Vec<String>) -> (r: Option<String>)
    ensures
        match r {
            Some(root) => find_root_spec(start@, dirs_with_git.deep_view()) == Some(root@),
            None => find_root_spec(start@, dirs_with_git.deep_view()) is None,
        },
{
    let mut cur: Vec<char> = to_chars(start);
    loop
        invariant
            find_root_spec(start@, dirs_with_git.deep_view()) == find_root_spec(
                cur@,
                dirs_with_git.deep_view(),
            ),
        decreases cur@.len(),
    {
        if dirs_member(dirs_with_git, &cur) {
            return Some(from_chars(&cur));
        }
        match parent_chars(&cur) {
            Some(q) => {
                cur = q;
            },
            None => {
                return None;
            },
        }
    }
}

/// Result of walking up the directory tree searching for a `.git` entry.
#[derive(Debug, Clone)]
pub struct GitRepoInfo {
    /// True if a `.git` entry was found at or above the entry path.
    pub is_git_repo: bool,
    /// Path of the repository root (the directory holding `.git`).
    pub repo_root: Option<String>,
    /// The entry path expressed relative to `repo_root`; empty when the
    /// entry path is the root itself or lies outside it.
    pub entry_relative_path: Option<String>,
}

/// `start` stripped of the root prefix `root`, when `start` lies under it.
pub open spec fn strip_root_spec(root: Seq<char>, p: Seq<char>) -> Option<Seq<char>> {
    if p == root {
        Some(Seq::empty())
    } else if crate::text::has_prefix(p, root + seq!['/']) {
        Some(p.skip(root.len() as int + 1))
    } else {
        None
    }
}

/// Executable form of [`strip_root_spec`].
#[verifier::loop_isolation(false)]
pub fn strip_root(root: &Vec<char>, p: &Vec<char>) -> (r: Option<Vec<char>>)
    ensures
        match r {
            Some(q) => strip_root_spec(root@, p@) == Some(q@),
            None => strip_root_spec(root@, p@) is None,
        },
{
    if chars_eq(p, root) {
        let empty: Vec<char> = Vec::new();
        proof {
            assert(empty@ =~= Seq::<char>::empty());
        }
        return Some(empty);
    }
    let mut root_slash = subvec(root, 0, root.len());
    root_slash.push('/');
    proof {
        assert(root_slash@ =~= root@ + seq!['/']);
    }
    if crate::text::starts_with(p, &root_slash) {
        let plen: usize = p.len();
        proof {
            assert(root_slash@.len() <= p@.len());
        }
        return Some(subvec(p, root.len() + 1, plen));
    }
    None
}

/// Walk up from `start` (the entry path, already resolved to a directory by
/// the caller) to locate the nearest enclosing repository, and express the
/// entry relative to its root.
pub fn detect_git_repo(entry_start: &str, dirs_with_git: &Vec<String>) -> (r: GitRepoInfo)
    ensures
        match find_root_spec(entry_start@, dirs_with_git.deep_view()) {
            Some(root) => r.is_git_repo && (r.repo_root matches Some(rr) && rr@ == root) && (
            r.entry_relative_path matches Some(rel) && rel@ == (
            match strip_root_spec(root, entry_start@) {
                Some(q) => q,
                None => Seq::<char>::empty(),
            })),
            None => !r.is_git_repo && r.repo_root is None && r.entry_relative_path is None,
        },
{
    match find_git_root(entry_start, dirs_with_git) {
        Some(root) => {
            let root_chars = to_chars(root.as_str());
            let start_chars = to_chars(entry_start);
            let rel = match strip_root(&root_chars, &start_chars) {
                Some(q) => from_chars(&q),
                None => {
                    let empty: Vec<char> = Vec::new();
                    proof {
                        assert(empty@ =~= Seq::<char>::empty());
                    }
                    from_chars(&empty)
                },
            };
            GitRepoInfo {
                is_git_repo: true,
                repo_root: Some(root),
                entry_relative_path: Some(rel),
            }
        },
        None => GitRepoInfo { is_git_repo: false, repo_root: None, entry_relative_path: None },
    }
}

} // verus!
