//! Path classifier: translate changed paths to repo-relative form and decide
//! which of them are eligible for staging. Paths are modelled as character
//! sequences with `/` (or `\`, normalized away) as the separator; a path
//! component is "normal" when it is nonempty and neither `.` nor `..`.
use vstd::prelude::*;

use crate::text::{
    chars_eq, from_chars, has_prefix, starts_with,
    subvec, to_chars, trim_chars, trim_spec, ends_with, has_suffix,
};

verus! {

/// Backslashes replaced by forward slashes.
pub open spec fn normalize_seps(s: Seq<char>) -> Seq<char> {
    s.map_values(|c: char| if c == '\\' { '/' } else { c })
}

/// Executable form of [`normalize_seps`].
pub fn normalize_seps_exec(v: &Vec<char>) -> (r: Vec<char>)
    ensures
        r@ == normalize_seps(v@),
{
    let mut r: Vec<char> = Vec::new();
    let mut i: usize = 0;
    while i < v.len()
        invariant
            i <= v@.len(),
            r@ == normalize_seps(v@.take(i as int)),
        decreases v@.len() - i,
    {
        let c: char = v[i];
        r.push(if c == '\\' { '/' } else { c });
        i = i + 1;
        proof {
            assert(r@ =~= normalize_seps(v@.take(i as int)));
        }
    }
    proof {
        assert(v@.take(v@.len() as int) =~= v@);
    }
    r
}

/// Index of the first occurrence of `sep` in `s`, or `s.len()` if none.
pub open spec fn find_sep(s: Seq<char>, sep: char) -> int
    decreases s.len(),
{
    if s.len() == 0 {
        0
    } else if s[0] == sep {
        0
    } else {
        1 + find_sep(s.skip(1), sep)
    }
}

proof fn lemma_find_sep_at(s: Seq<char>, sep: char, t: int)
    requires
        0 <= t <= s.len(),
        forall|k: int| 0 <= k < t ==> s[k] != sep,
        t < s.len() ==> s[t] == sep,
    ensures
        find_sep(s, sep) == t,
    decreases t,
{
    if s.len() == 0 {
    } else if s[0] == sep {
        assert(t == 0);
    } else {
        assert(t >= 1);
        lemma_find_sep_at(s.skip(1), sep, t - 1);
    }
}

/// `s` split on `sep`; a trailing separator yields a trailing empty piece.
pub open spec fn split_sep(s: Seq<char>, sep: char) -> Seq<Seq<char>>
    decreases s.len(),
{
    let i = find_sep(s, sep);
    if 0 <= i < s.len() {
        seq![s.take(i)] + split_sep(s.skip(i + 1), sep)
    } else {
        seq![s]
    }
}

fn split_from(v: &Vec<char>, sep: char, start: usize) -> (r: Vec<Vec<char>>)
    requires
        start <= v@.len(),
    ensures
        r@.len() == split_sep(v@.skip(start as int), sep).len(),
        forall|i: int|
            0 <= i < r@.len() ==> r@[i]@ == split_sep(v@.skip(start as int), sep)[i],
    decreases v@.len() - start,
{
    let n: usize = v.len();
    let mut j: usize = start;
    while j < n && v[j] != sep
        invariant
            n == v@.len(),
            start <= j <= n,
            forall|k: int| start <= k < j ==> v@[k] != sep,
        decreases n - j,
    {
        j = j + 1;
    }
    proof {
        let s = v@.skip(start as int);
        assert forall|k: int| 0 <= k < j - start implies s[k] != sep by {
            assert(s[k] == v@[start + k]);
        }
        if (j as int) - (start as int) < s.len() {
            assert(s[j - start] == v@[j as int]);
        }
        lemma_find_sep_at(s, sep, j - start);
    }
    if j == n {
        let piece = subvec(v, start, n);
        let mut r: Vec<Vec<char>> = Vec::new();
        r.push(piece);
        proof {
            assert(v@.subrange(start as int, n as int) =~= v@.skip(start as int));
        }
        r
    } else {
        let piece = subvec(v, start, j);
        let mut r: Vec<Vec<char>> = Vec::new();
        r.push(piece);
        let mut rest = split_from(v, sep, j + 1);
        proof {
            let s = v@.skip(start as int);
            assert(s.take(j - start) =~= v@.subrange(start as int, j as int));
            assert(s.skip(j - start + 1) =~= v@.skip(j + 1));
            assert(split_sep(s, sep) == seq![s.take(j - start)] + split_sep(
                s.skip(j - start + 1),
                sep,
            ));
        }
        let ghost target = split_sep(v@.skip(start as int), sep);
        while rest.len() > 0
            invariant
                r@.len() + rest@.len() == target.len(),
                forall|i: int| 0 <= i < r@.len() ==> r@[i]@ == target[i],
                forall|i: int|
                    0 <= i < rest@.len() ==> rest@[i]@ == target[r@.len() + i],
            decreases rest@.len(),
        {
            let piece = rest.remove(0);
            r.push(piece);
        }
        r
    }
}

/// Split a character vector on `sep`.
pub fn split_chars(v: &Vec<char>, sep: char) -> (r: Vec<Vec<char>>)
    ensures
        r@.len() == split_sep(v@, sep).len(),
        forall|i: int| 0 <= i < r@.len() ==> r@[i]@ == split_sep(v@, sep)[i],
{
    let r = split_from(v, sep, 0);
    proof {
        assert(v@.skip(0) =~= v@);
    }
    r
}

/// A normal path component: nonempty and neither `.` nor `..`.
pub open spec fn is_normal_comp(c: Seq<char>) -> bool {
    c.len() > 0 && c != "."@ && c != ".."@
}

/// Executable form of [`is_normal_comp`].
pub fn is_normal_comp_exec(c: &Vec<char>) -> (r: bool)
    ensures
        r == is_normal_comp(c@),
{
    let dot = to_chars(".");
    let dotdot = to_chars("..");
    c.len() > 0 && !chars_eq(c, &dot) && !chars_eq(c, &dotdot)
}

/// The intrinsic component blacklist, not user-configurable.
pub open spec fn in_blacklist(c: Seq<char>) -> bool {
    c == ".git"@ || c == "node_modules"@ || c == "target"@ || c == "dist"@ || c == "build"@ || c
        == ".next"@ || c == "__pycache__"@
}

fn in_blacklist_exec(c: &Vec<char>) -> (r: bool)
    ensures
        r == in_blacklist(c@),
{
    let a = to_chars(".git");
    let b = to_chars("node_modules");
    let d = to_chars("target");
    let e = to_chars("dist");
    let f = to_chars("build");
    let g = to_chars(".next");
    let h = to_chars("__pycache__");
    chars_eq(c, &a) || chars_eq(c, &b) || chars_eq(c, &d) || chars_eq(c, &e) || chars_eq(c, &f)
        || chars_eq(c, &g) || chars_eq(c, &h)
}

/// Some normal component of `path` is on the intrinsic blacklist.
pub open spec fn has_blacklisted_component(path: Seq<char>) -> bool {
    exists|i: int|
        0 <= i < split_sep(path, '/').len() && is_normal_comp(split_sep(path, '/')[i])
            && in_blacklist(split_sep(path, '/')[i])
}

/// Components with trailing empty and `.` entries removed, as the final name
/// of a path ignores trailing separators and `.` components.
pub open spec fn drop_trailing_unnamed(comps: Seq<Seq<char>>) -> Seq<Seq<char>>
    decreases comps.len(),
{
    if comps.len() > 0 && (comps.last().len() == 0 || comps.last() == "."@) {
        drop_trailing_unnamed(comps.drop_last())
    } else {
        comps
    }
}

/// The final file name of `path`, if it has one: the last meaningful
/// component, unless that is `..`.
pub open spec fn file_name_spec(path: Seq<char>) -> Option<Seq<char>> {
    let d = drop_trailing_unnamed(split_sep(path, '/'));
    if d.len() == 0 || d.last() == ".."@ {
        None
    } else {
        Some(d.last())
    }
}

proof fn lemma_drop_trailing_step(comps: Seq<Seq<char>>, e: int)
    requires
        0 <= e <= comps.len(),
        forall|m: int| e <= m < comps.len() ==> (comps[m].len() == 0 || comps[m] == "."@),
    ensures
        drop_trailing_unnamed(comps) == drop_trailing_unnamed(comps.take(e)),
    decreases comps.len() - e,
{
    if e < comps.len() {
        assert(comps.last().len() == 0 || comps.last() == "."@);
        lemma_drop_trailing_step(comps.drop_last(), e);
        assert(comps.drop_last().take(e) =~= comps.take(e));
    } else {
        assert(comps.take(e) =~= comps);
    }
}

/// The final file name of the path whose components are `comps`.
#[verifier::loop_isolation(false)]
fn file_name_of(comps: &Vec<Vec<char>>, Ghost(path): Ghost<Seq<char>>) -> (r: Option<Vec<char>>)
    requires
        comps@.len() == split_sep(path, '/').len(),
        forall|i: int| 0 <= i < comps@.len() ==> comps@[i]@ == split_sep(path, '/')[i],
    ensures
        match r {
            Some(name) => file_name_spec(path) == Some(name@),
            None => file_name_spec(path) is None,
        },
{
    let ghost spec_comps = split_sep(path, '/');
    let dot = to_chars(".");
    let dotdot = to_chars("..");
    let mut e: usize = comps.len();
    while e > 0 && (comps[e - 1].len() == 0 || chars_eq(&comps[e - 1], &dot))
        invariant
            comps@.len() == spec_comps.len(),
            forall|i: int| 0 <= i < comps@.len() ==> comps@[i]@ == spec_comps[i],
            e <= comps@.len(),
            dot@ == "."@,
            forall|m: int|
                e <= m < spec_comps.len() ==> (spec_comps[m].len() == 0 || spec_comps[m] == "."@),
        decreases e,
    {
        e = e - 1;
    }
    proof {
        lemma_drop_trailing_step(spec_comps, e as int);
        let t = spec_comps.take(e as int);
        if e > 0 {
            assert(t.last() == spec_comps[e - 1]);
            assert(!(t.last().len() == 0 || t.last() == "."@));
        }
        assert(drop_trailing_unnamed(t) == t);
        assert(drop_trailing_unnamed(spec_comps) == t);
    }
    if e == 0 {
        return None;
    }
    let last = subvec(&comps[e - 1], 0, comps[e - 1].len());
    proof {
        assert(last@ =~= comps@[e - 1]@);
    }
    if chars_eq(&last, &dotdot) {
        return None;
    }
    Some(last)
}

/// The final name of `path` is editor droppings: `.DS_Store`, `*.pyc` or
/// `*.log`.
pub open spec fn dropping_file_name(path: Seq<char>) -> bool {
    match file_name_spec(path) {
        Some(name) => name == ".DS_Store"@ || has_suffix(name, ".pyc"@) || has_suffix(
            name,
            ".log"@,
        ),
        None => false,
    }
}

/// `path` matches the user pattern `pat_raw`: after trimming and separator
/// normalization of the pattern, either the normalized path equals it, or
/// lies under it, or some normal component of the path equals it.
pub open spec fn matches_pattern(path: Seq<char>, pat_raw: Seq<char>) -> bool {
    let pat = normalize_seps(trim_spec(pat_raw));
    pat.len() > 0 && (normalize_seps(path) == pat || has_prefix(
        normalize_seps(path),
        pat + seq!['/'],
    ) || exists|i: int|
        0 <= i < split_sep(path, '/').len() && is_normal_comp(split_sep(path, '/')[i])
            && split_sep(path, '/')[i] == pat)
}

/// A changed path is excluded from staging when a normal component is on the
/// intrinsic blacklist, its final name is editor droppings, or it matches one
/// of the user's exclude patterns.
pub open spec fn should_exclude_spec(path: Seq<char>, exclude: Seq<Seq<char>>) -> bool {
    has_blacklisted_component(path) || dropping_file_name(path) || exists|k: int|
        0 <= k < exclude.len() && matches_pattern(path, exclude[k])
}

/// A path is absolute when it starts with a separator.
pub open spec fn is_absolute(p: Seq<char>) -> bool {
    p.len() > 0 && p[0] == '/'
}

/// The repo-relative form of a changed path: a relative path is kept as it
/// is; an absolute one has the repo-root prefix stripped, falling back to
/// the caller-supplied canonicalized form; a path outside the repo yields
/// `None`.
pub open spec fn make_repo_relative_spec(
    root: Seq<char>,
    p: Seq<char>,
    canon: Option<Seq<char>>,
) -> Option<Seq<char>> {
    if !is_absolute(p) {
        Some(p)
    } else if crate::repo::strip_root_spec(root, p) is Some {
        crate::repo::strip_root_spec(root, p)
    } else {
        match canon {
            Some(c) => crate::repo::strip_root_spec(root, c),
            None => None,
        }
    }
}

/// Translate a changed path to repo-relative form. `canonical` is the
/// canonicalized form of `path` as resolved by the caller, used as a second
/// chance when the raw path does not lie under `repo_root`.
pub fn make_repo_relative(repo_root: &str, path: &str, canonical: Option<&String>) -> (r: Option<
    String,
>)
    ensures
        match r {
            Some(q) => make_repo_relative_spec(
                repo_root@,
                path@,
                match canonical {
                    Some(c) => Some(c@),
                    None => None,
                },
            ) == Some(q@),
            None => make_repo_relative_spec(
                repo_root@,
                path@,
                match canonical {
                    Some(c) => Some(c@),
                    None => None,
                },
            ) is None,
        },
{
    let p = to_chars(path);
    if p.len() == 0 || p[0] != '/' {
        return Some(from_chars(&p));
    }
    let root = to_chars(repo_root);
    match crate::repo::strip_root(&root, &p) {
        Some(q) => Some(from_chars(&q)),
        None => match canonical {
            Some(c) => {
                let cc = to_chars(c.as_str());
                match crate::repo::strip_root(&root, &cc) {
                    Some(q) => Some(from_chars(&q)),
                    None => None,
                }
            },
            None => None,
        },
    }
}

/// Decide whether the repo-relative `path` is excluded from staging, under
/// the user exclude patterns `config_exclude`.
#[verifier::loop_isolation(false)]
pub fn should_exclude_path(path: &str, config_exclude: &Vec<String>) -> (r: bool)
    ensures
        r == should_exclude_spec(path@, config_exclude.deep_view()),
{
    let v = to_chars(path);
    let comps = split_chars(&v, '/');
    let ghost spec_comps = split_sep(path@, '/');

    // Intrinsic blacklist on normal components.
    let mut i: usize = 0;
    while i < comps.len()
        invariant
            comps@.len() == spec_comps.len(),
            forall|k: int| 0 <= k < comps@.len() ==> comps@[k]@ == spec_comps[k],
            i <= comps@.len(),
            forall|k: int|
                0 <= k < i ==> !(is_normal_comp(spec_comps[k]) && in_blacklist(spec_comps[k])),
        decreases comps@.len() - i,
    {
        if is_normal_comp_exec(&comps[i]) && in_blacklist_exec(&comps[i]) {
            proof {
                assert(is_normal_comp(split_sep(path@, '/')[i as int]) && in_blacklist(
                    split_sep(path@, '/')[i as int],
                ));
                assert(has_blacklisted_component(path@));
            }
            return true;
        }
        i = i + 1;
    }
    proof {
        assert forall|ii: int|
            0 <= ii < split_sep(path@, '/').len() implies !(is_normal_comp(
            split_sep(path@, '/')[ii],
        ) && in_blacklist(split_sep(path@, '/')[ii])) by {
            assert(!(is_normal_comp(spec_comps[ii]) && in_blacklist(spec_comps[ii])));
        }
        assert(!has_blacklisted_component(path@));
    }

    // Editor droppings by final name.
    let name_opt = file_name_of(&comps, Ghost(path@));
    match name_opt {
        Some(name) => {
            let ds = to_chars(".DS_Store");
            let pyc = to_chars(".pyc");
            let log = to_chars(".log");
            if chars_eq(&name, &ds) || ends_with(&name, &pyc) || ends_with(&name, &log) {
                return true;
            }
        },
        None => {},
    }

    // User exclude patterns.
    let norm = normalize_seps_exec(&v);
    let mut k: usize = 0;
    while k < config_exclude.len()
        invariant
            comps@.len() == spec_comps.len(),
            forall|m: int| 0 <= m < comps@.len() ==> comps@[m]@ == spec_comps[m],
            norm@ == normalize_seps(path@),
            k <= config_exclude@.len(),
            config_exclude.deep_view().len() == config_exclude@.len(),
            forall|m: int|
                0 <= m < config_exclude@.len() ==> config_exclude.deep_view()[m]
                    == config_exclude@[m]@,
            forall|m: int|
                0 <= m < k ==> !matches_pattern(path@, config_exclude.deep_view()[m]),
            !has_blacklisted_component(path@),
            !dropping_file_name(path@),
        decreases config_exclude@.len() - k,
    {
        let raw = to_chars(config_exclude[k].as_str());
        let trimmed = trim_chars(&raw);
        let pat = normalize_seps_exec(&trimmed);
        let ghost pat_spec = normalize_seps(trim_spec(config_exclude.deep_view()[k as int]));
        proof {
            assert(config_exclude.deep_view()[k as int] == config_exclude@[k as int]@);
            assert(pat@ == pat_spec);
        }
        if pat.len() > 0 {
            if chars_eq(&norm, &pat) {
                proof {
                    assert(matches_pattern(path@, config_exclude.deep_view()[k as int]));
                }
                return true;
            }
            let mut pat_slash = subvec(&pat, 0, pat.len());
            pat_slash.push('/');
            proof {
                assert(pat_slash@ =~= normalize_seps(trim_spec(config_exclude.deep_view()[
                    k as int
                ])) + seq!['/']);
            }
            if starts_with(&norm, &pat_slash) {
                proof {
                    assert(matches_pattern(path@, config_exclude.deep_view()[k as int]));
                }
                return true;
            }
            let mut c: usize = 0;
            while c < comps.len()
                invariant
                    comps@.len() == spec_comps.len(),
                    forall|m: int| 0 <= m < comps@.len() ==> comps@[m]@ == spec_comps[m],
                    c <= comps@.len(),
                    pat@ == normalize_seps(trim_spec(config_exclude.deep_view()[k as int])),
                    forall|m: int|
                        0 <= m < c ==> !(is_normal_comp(spec_comps[m]) && spec_comps[m] == pat@),
                decreases comps@.len() - c,
            {
                if is_normal_comp_exec(&comps[c]) && chars_eq(&comps[c], &pat) {
                    proof {
                        assert(is_normal_comp(split_sep(path@, '/')[c as int]) && split_sep(
                            path@,
                            '/',
                        )[c as int] == pat_spec);
                        assert(matches_pattern(path@, config_exclude.deep_view()[k as int]));
                    }
                    return true;
                }
                c = c + 1;
            }
            proof {
                assert forall|m: int|
                    0 <= m < split_sep(path@, '/').len() implies !(is_normal_comp(
                    split_sep(path@, '/')[m],
                ) && split_sep(path@, '/')[m] == pat_spec) by {
                    assert(!(is_normal_comp(spec_comps[m]) && spec_comps[m] == pat@));
                }
                assert(!matches_pattern(path@, config_exclude.deep_view()[k as int]));
            }
        } else {
            proof {
                assert(!matches_pattern(path@, config_exclude.deep_view()[k as int]));
            }
        }
        k = k + 1;
    }
    false
}

} // verus!
