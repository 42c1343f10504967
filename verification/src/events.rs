//! The auxiliary directory watcher's event handling: filesystem event
//! kinds modelled as a plain enum, the `.git` ignore rule, and the
//! deduplicated payload list emitted to watching windows.
use vstd::prelude::*;

use crate::classify::{is_normal_comp, split_sep, split_chars, is_normal_comp_exec};
use crate::text::{chars_eq, to_chars};

verus! {

/// What changed, as reported by the OS watcher.
#[derive(Debug, Clone, Copy, PartialEq, Eq, Structural)]
pub enum FsEventKind {
    Create,
    Modify,
    Remove,
    Access,
    Other,
}

/// The payload emitted for one changed path.
#[derive(Debug, Clone)]
pub struct FileChangedPayload {
    /// The changed path, as the watcher reported it.
    pub path: String,
    /// The normalized event type: `create`, `modify`, `remove`, `access`
    /// or `other`.
    pub event_type: String,
}

/// The normalized name of an event kind.
pub open spec fn event_type_name(kind: FsEventKind) -> Seq<char> {
    match kind {
        FsEventKind::Create => "create"@,
        FsEventKind::Modify => "modify"@,
        FsEventKind::Remove => "remove"@,
        FsEventKind::Access => "access"@,
        FsEventKind::Other => "other"@,
    }
}

/// Map an event kind to its normalized name.
pub fn normalize_event_type(kind: FsEventKind) -> (r: &'static str)
    ensures
        r@ == event_type_name(kind),
{
    match kind {
        FsEventKind::Create => "create",
        FsEventKind::Modify => "modify",
        FsEventKind::Remove => "remove",
        FsEventKind::Access => "access",
        FsEventKind::Other => "other",
    }
}

/// The watcher drops every path with a `.git` component.
pub open spec fn should_ignore_spec(path: Seq<char>) -> bool {
    exists|i: int|
        0 <= i < split_sep(path, '/').len() && is_normal_comp(split_sep(path, '/')[i])
            && split_sep(path, '/')[i] == ".git"@
}

/// Decide whether the watcher ignores `path`.
#[verifier::loop_isolation(false)]
pub fn should_ignore_path(path: &str) -> (r: bool)
    ensures
        r == should_ignore_spec(path@),
{
    let v = to_chars(path);
    let comps = split_chars(&v, '/');
    let ghost spec_comps = split_sep(path@, '/');
    let git = to_chars(".git");
    let mut i: usize = 0;
    while i < comps.len()
        invariant
            comps@.len() == spec_comps.len(),
            forall|k: int| 0 <= k < comps@.len() ==> comps@[k]@ == spec_comps[k],
            i <= comps@.len(),
            forall|k: int|
                0 <= k < i ==> !(is_normal_comp(spec_comps[k]) && spec_comps[k] == ".git"@),
        decreases comps@.len() - i,
    {
        if is_normal_comp_exec(&comps[i]) && chars_eq(&comps[i], &git) {
            proof {
                assert(is_normal_comp(split_sep(path@, '/')[i as int]) && split_sep(path@, '/')[
                    i as int
                ] == ".git"@);
            }
            return true;
        }
        i = i + 1;
    }
    proof {
        assert forall|k: int|
            0 <= k < split_sep(path@, '/').len() implies !(is_normal_comp(
            split_sep(path@, '/')[k],
        ) && split_sep(path@, '/')[k] == ".git"@) by {
            assert(!(is_normal_comp(spec_comps[k]) && spec_comps[k] == ".git"@));
        }
    }
    false
}

/// The view of a flattened event list: each entry one kind and one path.
pub open spec fn flat_events_view(events: &Vec<(FsEventKind, String)>) -> Seq<
    (FsEventKind, Seq<char>),
> {
    Seq::new(events@.len(), |i: int| (events@[i].0, events@[i].1@))
}

/// The payload pairs (event type, path) already emitted.
pub open spec fn payloads_view(v: &Vec<FileChangedPayload>) -> Seq<(Seq<char>, Seq<char>)> {
    Seq::new(v@.len(), |i: int| (v@[i].event_type@, v@[i].path@))
}

/// `acc` already holds the payload pair `x`.
pub open spec fn holds_pair(acc: Seq<(Seq<char>, Seq<char>)>, x: (Seq<char>, Seq<char>)) -> bool {
    exists|i: int| 0 <= i < acc.len() && acc[i] == x
}

/// The payload list after processing a flattened event batch: `.git`
/// paths dropped, each (type, path) pair emitted once, in event order.
pub open spec fn collect_from(
    acc: Seq<(Seq<char>, Seq<char>)>,
    evs: Seq<(FsEventKind, Seq<char>)>,
) -> Seq<(Seq<char>, Seq<char>)>
    decreases evs.len(),
{
    if evs.len() == 0 {
        acc
    } else {
        let pair = (event_type_name(evs[0].0), evs[0].1);
        let acc2 = if should_ignore_spec(evs[0].1) || holds_pair(acc, pair) {
            acc
        } else {
            acc.push(pair)
        };
        collect_from(acc2, evs.skip(1))
    }
}

fn payloads_hold(acc: &Vec<FileChangedPayload>, ty: &Vec<char>, path: &Vec<char>) -> (r: bool)
    ensures
        r == holds_pair(payloads_view(acc), (ty@, path@)),
{
    let mut i: usize = 0;
    while i < acc.len()
        invariant
            i <= acc@.len(),
            forall|k: int| 0 <= k < i ==> payloads_view(acc)[k] != (ty@, path@),
        decreases acc@.len() - i,
    {
        let t = to_chars(acc[i].event_type.as_str());
        let p = to_chars(acc[i].path.as_str());
        if chars_eq(&t, ty) && chars_eq(&p, path) {
            proof {
                assert(payloads_view(acc)[i as int] == (ty@, path@));
            }
            return true;
        }
        i = i + 1;
    }
    false
}

/// Turn a flattened, debounced event batch into the deduplicated payload
/// list: paths under `.git` are dropped, and each (event type, path) pair
/// appears once, in the order first seen.
#[verifier::loop_isolation(false)]
pub fn collect_changed_payloads(events: &Vec<(FsEventKind, String)>) -> (r: Vec<
    FileChangedPayload,
>)
    ensures
        payloads_view(&r) == collect_from(Seq::empty(), flat_events_view(events)),
{
    let ghost evs = flat_events_view(events);
    let mut out: Vec<FileChangedPayload> = Vec::new();
    proof {
        assert(payloads_view(&out) =~= Seq::<(Seq<char>, Seq<char>)>::empty());
        assert(evs.skip(0) =~= evs);
    }
    let mut i: usize = 0;
    while i < events.len()
        invariant
            i <= events@.len(),
            collect_from(payloads_view(&out), evs.skip(i as int)) == collect_from(
                Seq::empty(),
                evs,
            ),
        decreases events@.len() - i,
    {
        let ghost acc_cur = payloads_view(&out);
        let (kind, path) = &events[i];
        proof {
            assert(evs.skip(i as int)[0] == evs[i as int]);
            assert(evs[i as int] == (events@[i as int].0, events@[i as int].1@));
            assert(evs.skip(i as int).skip(1) =~= evs.skip(i + 1));
        }
        if !should_ignore_path(path.as_str()) {
            let ty = normalize_event_type(*kind);
            let ty_chars = to_chars(ty);
            let p_chars = to_chars(path.as_str());
            if !payloads_hold(&out, &ty_chars, &p_chars) {
                out.push(
                    FileChangedPayload {
                        path: crate::vcs::copy_string(path),
                        event_type: String::from_str(ty),
                    },
                );
                proof {
                    assert(payloads_view(&out) =~= acc_cur.push((ty_chars@, p_chars@)));
                }
            }
        }
        i = i + 1;
    }
    proof {
        assert(evs.skip(i as int).len() == 0);
    }
    out
}

} // verus!
