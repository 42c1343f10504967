//! The skill graph: node identifiers normalized from display names, one
//! node per known skill, ghost nodes for unresolved references, and
//! edges from the frontmatter's `related` and `scripts` lists. The
//! frontmatter fields are fetched through the JSON crate's accessors;
//! the graph construction around them is verified — in particular that
//! no edge ever dangles.
use vstd::prelude::*;

use crate::frontmatter::{value_as_array, value_as_bool, value_as_str, value_get, SkillEntry};
use crate::text::{chars_eq, from_chars, to_chars, trim_chars, trim_spec};
use crate::classify::{split_sep, split_chars};
use crate::daemon::holds_str;

verus! {

/// One node of the skill graph.
#[derive(Debug, Clone)]
pub struct GraphNode {
    /// Normalized identifier, unique per rendered node name.
    pub id: String,
    /// Display label.
    pub label: String,
    /// `skill`, `moc`, `script`, `unresolved`, or a frontmatter type.
    pub node_type: String,
    /// The frontmatter's `category`, when present.
    pub category: Option<String>,
    /// The frontmatter's `status`, when present.
    pub status: Option<String>,
    /// Whether the frontmatter marks this node as a map of content.
    pub is_moc: bool,
    /// Whether the node only exists as the target of a reference.
    pub is_ghost: bool,
}

/// One edge of the skill graph.
#[derive(Debug, Clone)]
pub struct GraphEdge {
    /// Identifier of the referring node.
    pub source: String,
    /// Identifier of the referred node.
    pub target: String,
    /// `related` or `scripts`.
    pub kind: String,
}

/// The whole graph.
#[derive(Debug, Clone)]
pub struct SkillGraph {
    /// Every node, skills first, then ghost and script nodes.
    pub nodes: Vec<GraphNode>,
    /// Every edge; both endpoints always name a node.
    pub edges: Vec<GraphEdge>,
    /// Number of nodes.
    pub node_count: usize,
    /// Number of edges.
    pub edge_count: usize,
}

// ---------------------------------------------------------------------
// Identifier normalization
// ---------------------------------------------------------------------

/// What `str::to_lowercase` returns; the result depends on the
/// characters alone.
pub uninterp spec fn lower_of(s: Seq<char>) -> Seq<char>;

/// Relies on `str::to_lowercase`: Unicode lowercasing, a function of the
/// characters alone.
#[verifier::external_body]
pub(crate) fn lowercase(s: &str) -> (r: String)
    ensures
        r@ == lower_of(s@),
{
    s.to_lowercase()
}

/// What `char::is_alphanumeric` returns; a function of the character
/// alone.
pub uninterp spec fn is_alphanumeric_char(c: char) -> bool;

/// Relies on `char::is_alphanumeric`: whether the character is a Unicode
/// letter or digit.
#[verifier::external_body]
pub(crate) fn char_is_alphanumeric(c: char) -> (r: bool)
    ensures
        r == is_alphanumeric_char(c),
{
    c.is_alphanumeric()
}

/// Every character that is not alphanumeric replaced by a dash.
pub open spec fn dashify(s: Seq<char>) -> Seq<char> {
    s.map_values(|c: char| if is_alphanumeric_char(c) { c } else { '-' })
}

/// Two identifier fragments joined with a dash, empty sides dropped.
pub open spec fn combine(a: Seq<char>, b: Seq<char>) -> Seq<char> {
    if a.len() == 0 {
        b
    } else if b.len() == 0 {
        a
    } else {
        a + seq!['-'] + b
    }
}

/// Fragments joined with single dashes, empty fragments dropped.
pub open spec fn join_ne(parts: Seq<Seq<char>>) -> Seq<char>
    decreases parts.len(),
{
    if parts.len() == 0 {
        Seq::empty()
    } else {
        combine(parts[0], join_ne(parts.skip(1)))
    }
}

/// The normalized identifier of a display name: trimmed, lowercased,
/// non-alphanumerics dashed, runs of dashes collapsed, outer dashes
/// dropped.
pub open spec fn normalize_id_spec(s: Seq<char>) -> Seq<char> {
    join_ne(split_sep(dashify(lower_of(trim_spec(s))), '-'))
}

proof fn lemma_combine_assoc(a: Seq<char>, b: Seq<char>, c: Seq<char>)
    ensures
        combine(a, combine(b, c)) == combine(combine(a, b), c),
{
    if a.len() == 0 {
    } else if b.len() == 0 {
    } else if c.len() == 0 {
    } else {
        assert(combine(a, combine(b, c)) =~= combine(combine(a, b), c));
    }
}

/// Normalize a display name to a graph identifier.
#[verifier::loop_isolation(false)]
pub fn normalize_id(name: &str) -> (r: String)
    ensures
        r@ == normalize_id_spec(name@),
{
    let v = to_chars(name);
    let t = trim_chars(&v);
    let t_str = from_chars(&t);
    let lower = lowercase(t_str.as_str());
    let lv = to_chars(lower.as_str());
    let mut dashed: Vec<char> = Vec::new();
    let mut i: usize = 0;
    while i < lv.len()
        invariant
            i <= lv@.len(),
            dashed@ == dashify(lv@.take(i as int)),
        decreases lv@.len() - i,
    {
        let c: char = lv[i];
        if char_is_alphanumeric(c) {
            dashed.push(c);
        } else {
            dashed.push('-');
        }
        i = i + 1;
        proof {
            assert(dashed@ =~= dashify(lv@.take(i as int)));
        }
    }
    proof {
        assert(lv@.take(lv@.len() as int) =~= lv@);
    }
    let comps = split_chars(&dashed, '-');
    let ghost parts = split_sep(dashify(lower_of(trim_spec(name@))), '-');
    let mut out: Vec<char> = Vec::new();
    proof {
        assert(parts.skip(0) =~= parts);
    }
    let mut k: usize = 0;
    while k < comps.len()
        invariant
            k <= comps@.len(),
            comps@.len() == parts.len(),
            forall|m: int| 0 <= m < comps@.len() ==> comps@[m]@ == parts[m],
            combine(out@, join_ne(parts.skip(k as int))) == join_ne(parts),
        decreases comps@.len() - k,
    {
        let ghost out_old = out@;
        proof {
            assert(parts.skip(k as int)[0] == parts[k as int]);
            assert(parts.skip(k as int).skip(1) =~= parts.skip(k + 1));
        }
        if comps[k].len() > 0 {
            if out.len() > 0 {
                out.push('-');
            }
            let piece = &comps[k];
            let mut j: usize = 0;
            while j < piece.len()
                invariant
                    j <= piece@.len(),
                    out@ == (if out_old.len() == 0 {
                        Seq::<char>::empty()
                    } else {
                        out_old + seq!['-']
                    }) + piece@.take(j as int),
                decreases piece@.len() - j,
            {
                out.push(piece[j]);
                j = j + 1;
                proof {
                    assert(out@ =~= (if out_old.len() == 0 {
                        Seq::<char>::empty()
                    } else {
                        out_old + seq!['-']
                    }) + piece@.take(j as int));
                }
            }
            proof {
                assert(piece@.take(piece@.len() as int) =~= piece@);
                assert(out@ =~= combine(out_old, parts[k as int]));
                lemma_combine_assoc(out_old, parts[k as int], join_ne(parts.skip(k + 1)));
            }
        }
        k = k + 1;
    }
    proof {
        assert(parts.skip(k as int).len() == 0);
        assert(join_ne(parts.skip(k as int)) =~= Seq::<char>::empty());
        assert(combine(out@, Seq::<char>::empty()) == out@);
    }
    from_chars(&out)
}

// ---------------------------------------------------------------------
// Frontmatter field accessors
// ---------------------------------------------------------------------

fn get_str(fm: &serde_json::Value, key: &str) -> Option<String> {
    match value_get(fm, key) {
        Some(v) => value_as_str(v),
        None => None,
    }
}

fn get_bool(fm: &serde_json::Value, key: &str) -> bool {
    match value_get(fm, key) {
        Some(v) => match value_as_bool(v) {
            Some(b) => b,
            None => false,
        },
        None => false,
    }
}

fn get_string_array(fm: &serde_json::Value, key: &str) -> Vec<String> {
    let mut out: Vec<String> = Vec::new();
    match value_get(fm, key) {
        Some(v) => match value_as_array(v) {
            Some(items) => {
                let mut i: usize = 0;
                while i < items.len()
                    decreases items@.len() - i,
                {
                    match value_as_str(&items[i]) {
                        Some(s) => out.push(s),
                        None => {},
                    }
                    i = i + 1;
                }
                out
            },
            None => out,
        },
        None => out,
    }
}

// ---------------------------------------------------------------------
// Graph construction
// ---------------------------------------------------------------------

/// An identifier is the id of some node in the list.
pub open spec fn is_node_id(nodes: Seq<GraphNode>, id: Seq<char>) -> bool {
    exists|n: int| 0 <= n < nodes.len() && nodes[n].id@ == id
}

fn ids_hold(ids: &Vec<String>, x: &Vec<char>) -> (r: bool)
    ensures
        r == holds_str(ids.deep_view(), x@),
{
    let mut i: usize = 0;
    while i < ids.len()
        invariant
            i <= ids@.len(),
            forall|k: int| 0 <= k < i ==> ids.deep_view()[k] != x@,
        decreases ids@.len() - i,
    {
        let d = to_chars(ids[i].as_str());
        if chars_eq(&d, x) {
            proof {
                assert(ids.deep_view()[i as int] == x@);
            }
            return true;
        }
        i = i + 1;
    }
    false
}

/// Build the skill graph: one node per skill with frontmatter and a
/// nonempty normalized name, ghost nodes for unresolved `related`
/// targets, script nodes for `scripts` entries, and edges for both
/// lists. Every edge's endpoints name nodes of the graph, and the counts
/// are exact.
#[verifier::loop_isolation(false)]
pub fn build_graph(skills: Vec<SkillEntry>) -> (r: Result<SkillGraph, String>)
    ensures
        r matches Ok(g) && g.node_count == g.nodes@.len() && g.edge_count == g.edges@.len() && (
        forall|e: int|
            0 <= e < g.edges@.len() ==> is_node_id(g.nodes@, (#[trigger] g.edges@[e]).source@)
                && is_node_id(g.nodes@, g.edges@[e].target@)),
{
    let mut nodes: Vec<GraphNode> = Vec::new();
    let mut edges: Vec<GraphEdge> = Vec::new();
    let mut known_ids: Vec<String> = Vec::new();

    // First pass: one node per skill with frontmatter and a usable id.
    let mut i: usize = 0;
    while i < skills.len()
        invariant
            i <= skills@.len(),
            forall|k: int|
                0 <= k < known_ids@.len() ==> is_node_id(
                    nodes@,
                    (#[trigger] known_ids.deep_view()[k]),
                ),
            forall|j: int|
                0 <= j < i ==> ((#[trigger] skills@[j]).frontmatter is Some && normalize_id_spec(
                    skills@[j].name@,
                ).len() > 0) ==> holds_str(
                    known_ids.deep_view(),
                    normalize_id_spec(skills@[j].name@),
                ),
        decreases skills@.len() - i,
    {
        match &skills[i].frontmatter {
            Some(fm) => {
                let id = normalize_id(skills[i].name.as_str());
                let id_chars = to_chars(id.as_str());
                if id_chars.len() > 0 {
                    let node_type = match get_str(fm, "type") {
                        Some(t) => t,
                        None => String::from_str("skill"),
                    };
                    let is_moc = get_bool(fm, "moc");
                    let ghost nodes_old = nodes@;
                    nodes.push(
                        GraphNode {
                            id: crate::vcs::copy_string(&id),
                            label: crate::vcs::copy_string(&skills[i].name),
                            node_type: if is_moc {
                                String::from_str("moc")
                            } else {
                                node_type
                            },
                            category: get_str(fm, "category"),
                            status: get_str(fm, "status"),
                            is_moc,
                            is_ghost: false,
                        },
                    );
                    let ghost known_old = known_ids.deep_view();
                    known_ids.push(id);
                    proof {
                        assert(known_ids.deep_view() =~= known_old.push(id_chars@));
                        assert(nodes@[nodes@.len() - 1].id@ == id_chars@);
                        assert forall|k: int|
                            0 <= k < known_ids@.len() implies is_node_id(
                            nodes@,
                            (#[trigger] known_ids.deep_view()[k]),
                        ) by {
                            if k < known_old.len() {
                                assert(is_node_id(nodes_old, known_old[k]));
                                let n = choose|n: int|
                                    0 <= n < nodes_old.len() && nodes_old[n].id@ == known_old[k];
                                assert(nodes@[n].id@ == known_old[k]);
                            }
                        }
                        assert(known_ids.deep_view()[known_old.len() as int] == id_chars@);
                        assert forall|j: int|
                            0 <= j < i + 1 && ((#[trigger] skills@[j]).frontmatter is Some
                                && normalize_id_spec(skills@[j].name@).len() > 0) implies
                            holds_str(
                            known_ids.deep_view(),
                            normalize_id_spec(skills@[j].name@),
                        ) by {
                            let x = normalize_id_spec(skills@[j].name@);
                            if j < i {
                                let n = choose|n: int|
                                    0 <= n < known_old.len() && known_old[n] == x;
                                assert(known_ids.deep_view()[n] == x);
                            } else {
                                assert(x == id_chars@);
                            }
                        }
                    }
                }
            },
            None => {},
        }
        i = i + 1;
    }

    // Second pass: edges, with ghost and script nodes for unknown
    // targets.
    let mut i2: usize = 0;
    while i2 < skills.len()
        invariant
            i2 <= skills@.len(),
            forall|k: int|
                0 <= k < known_ids@.len() ==> is_node_id(
                    nodes@,
                    (#[trigger] known_ids.deep_view()[k]),
                ),
            forall|j: int|
                0 <= j < skills@.len() ==> ((#[trigger] skills@[j]).frontmatter is Some
                    && normalize_id_spec(skills@[j].name@).len() > 0) ==> holds_str(
                    known_ids.deep_view(),
                    normalize_id_spec(skills@[j].name@),
                ),
            forall|e: int|
                0 <= e < edges@.len() ==> holds_str(
                    known_ids.deep_view(),
                    (#[trigger] edges@[e]).source@,
                ) && holds_str(known_ids.deep_view(), edges@[e].target@),
        decreases skills@.len() - i2,
    {
        match &skills[i2].frontmatter {
            Some(fm) => {
                let source_id = normalize_id(skills[i2].name.as_str());
                let source_chars = to_chars(source_id.as_str());
                if source_chars.len() > 0 {
                    proof {
                        assert(holds_str(
                            known_ids.deep_view(),
                            normalize_id_spec(skills@[i2 as int].name@),
                        ));
                    }
                    let related = get_string_array(fm, "related");
                    let mut t: usize = 0;
                    while t < related.len()
                        invariant
                            t <= related@.len(),
                            source_chars@ == normalize_id_spec(skills@[i2 as int].name@),
                            holds_str(known_ids.deep_view(), source_chars@),
                            forall|k: int|
                                0 <= k < known_ids@.len() ==> is_node_id(
                                    nodes@,
                                    (#[trigger] known_ids.deep_view()[k]),
                                ),
                            forall|j: int|
                                0 <= j < skills@.len() ==> ((
                                #[trigger] skills@[j]).frontmatter is Some && normalize_id_spec(
                                    skills@[j].name@,
                                ).len() > 0) ==> holds_str(
                                    known_ids.deep_view(),
                                    normalize_id_spec(skills@[j].name@),
                                ),
                            forall|e: int|
                                0 <= e < edges@.len() ==> holds_str(
                                    known_ids.deep_view(),
                                    (#[trigger] edges@[e]).source@,
                                ) && holds_str(known_ids.deep_view(), edges@[e].target@),
                        decreases related@.len() - t,
                    {
                        let target_id = normalize_id(related[t].as_str());
                        let target_chars = to_chars(target_id.as_str());
                        if target_chars.len() > 0 {
                            let ghost known_old = known_ids.deep_view();
                            let ghost nodes_old = nodes@;
                            if !ids_hold(&known_ids, &target_chars) {
                                nodes.push(
                                    GraphNode {
                                        id: crate::vcs::copy_string(&target_id),
                                        label: crate::vcs::copy_string(&related[t]),
                                        node_type: String::from_str("unresolved"),
                                        category: None,
                                        status: None,
                                        is_moc: false,
                                        is_ghost: true,
                                    },
                                );
                                known_ids.push(crate::vcs::copy_string(&target_id));
                                proof {
                                    assert(known_ids.deep_view() =~= known_old.push(
                                        target_chars@,
                                    ));
                                    assert(nodes@[nodes@.len() - 1].id@ == target_chars@);
                                    assert forall|k: int|
                                        0 <= k < known_ids@.len() implies is_node_id(
                                        nodes@,
                                        (#[trigger] known_ids.deep_view()[k]),
                                    ) by {
                                        if k < known_old.len() {
                                            let n = choose|n: int|
                                                0 <= n < nodes_old.len() && nodes_old[n].id@
                                                    == known_old[k];
                                            assert(nodes@[n].id@ == known_old[k]);
                                        }
                                    }
                                    assert forall|j: int|
                                        0 <= j < skills@.len() && ((
                                        #[trigger] skills@[j]).frontmatter is Some
                                            && normalize_id_spec(skills@[j].name@).len()
                                            > 0) implies holds_str(
                                        known_ids.deep_view(),
                                        normalize_id_spec(skills@[j].name@),
                                    ) by {
                                        let x = normalize_id_spec(skills@[j].name@);
                                        let n = choose|n: int|
                                            0 <= n < known_old.len() && known_old[n] == x;
                                        assert(known_ids.deep_view()[n] == x);
                                    }
                                    assert forall|e: int|
                                        0 <= e < edges@.len() implies holds_str(
                                        known_ids.deep_view(),
                                        (#[trigger] edges@[e]).source@,
                                    ) && holds_str(known_ids.deep_view(), edges@[e].target@) by {
                                        let s = edges@[e].source@;
                                        let n1 = choose|n: int|
                                            0 <= n < known_old.len() && known_old[n] == s;
                                        assert(known_ids.deep_view()[n1] == s);
                                        let tg = edges@[e].target@;
                                        let n2 = choose|n: int|
                                            0 <= n < known_old.len() && known_old[n] == tg;
                                        assert(known_ids.deep_view()[n2] == tg);
                                    }
                                    let ns = choose|n: int|
                                        0 <= n < known_old.len() && known_old[n] == source_chars@;
                                    assert(known_ids.deep_view()[ns] == source_chars@);
                                    assert(known_ids.deep_view()[known_old.len() as int]
                                        == target_chars@);
                                    assert(holds_str(known_ids.deep_view(), target_chars@));
                                }
                            }
                            let ghost edges_old = edges@;
                            edges.push(
                                GraphEdge {
                                    source: crate::vcs::copy_string(&source_id),
                                    target: target_id,
                                    kind: String::from_str("related"),
                                },
                            );
                            proof {
                                assert forall|e: int|
                                    0 <= e < edges@.len() implies holds_str(
                                    known_ids.deep_view(),
                                    (#[trigger] edges@[e]).source@,
                                ) && holds_str(known_ids.deep_view(), edges@[e].target@) by {
                                    if e < edges_old.len() {
                                        assert(edges@[e] == edges_old[e]);
                                    } else {
                                        assert(edges@[e].source@ == source_chars@);
                                        assert(edges@[e].target@ == target_chars@);
                                    }
                                }
                            }
                        }
                        t = t + 1;
                    }

                    let scripts = get_string_array(fm, "scripts");
                    let mut sc: usize = 0;
                    while sc < scripts.len()
                        invariant
                            sc <= scripts@.len(),
                            source_chars@ == normalize_id_spec(skills@[i2 as int].name@),
                            holds_str(known_ids.deep_view(), source_chars@),
                            forall|k: int|
                                0 <= k < known_ids@.len() ==> is_node_id(
                                    nodes@,
                                    (#[trigger] known_ids.deep_view()[k]),
                                ),
                            forall|j: int|
                                0 <= j < skills@.len() ==> ((
                                #[trigger] skills@[j]).frontmatter is Some && normalize_id_spec(
                                    skills@[j].name@,
                                ).len() > 0) ==> holds_str(
                                    known_ids.deep_view(),
                                    normalize_id_spec(skills@[j].name@),
                                ),
                            forall|e: int|
                                0 <= e < edges@.len() ==> holds_str(
                                    known_ids.deep_view(),
                                    (#[trigger] edges@[e]).source@,
                                ) && holds_str(known_ids.deep_view(), edges@[e].target@),
                        decreases scripts@.len() - sc,
                    {
                        // script:<trimmed path>
                        let path_chars = to_chars(scripts[sc].as_str());
                        let trimmed = trim_chars(&path_chars);
                        let mut idv = to_chars("script:");
                        let mut tcopy = trimmed;
                        idv.append(&mut tcopy);
                        let script_id = from_chars(&idv);
                        let script_chars = to_chars(script_id.as_str());
                        let ghost known_old = known_ids.deep_view();
                        let ghost nodes_old = nodes@;
                        if !ids_hold(&known_ids, &script_chars) {
                            // The label is the path's final segment.
                            let segs = split_chars(&path_chars, '/');
                            let label = if segs.len() > 0 {
                                from_chars(&segs[segs.len() - 1])
                            } else {
                                crate::vcs::copy_string(&scripts[sc])
                            };
                            nodes.push(
                                GraphNode {
                                    id: crate::vcs::copy_string(&script_id),
                                    label,
                                    node_type: String::from_str("script"),
                                    category: None,
                                    status: None,
                                    is_moc: false,
                                    is_ghost: false,
                                },
                            );
                            known_ids.push(crate::vcs::copy_string(&script_id));
                            proof {
                                assert(known_ids.deep_view() =~= known_old.push(script_chars@));
                                assert(nodes@[nodes@.len() - 1].id@ == script_chars@);
                                assert forall|k: int|
                                    0 <= k < known_ids@.len() implies is_node_id(
                                    nodes@,
                                    (#[trigger] known_ids.deep_view()[k]),
                                ) by {
                                    if k < known_old.len() {
                                        let n = choose|n: int|
                                            0 <= n < nodes_old.len() && nodes_old[n].id@
                                                == known_old[k];
                                        assert(nodes@[n].id@ == known_old[k]);
                                    }
                                }
                                assert forall|j: int|
                                    0 <= j < skills@.len() && ((
                                    #[trigger] skills@[j]).frontmatter is Some
                                        && normalize_id_spec(skills@[j].name@).len()
                                        > 0) implies holds_str(
                                    known_ids.deep_view(),
                                    normalize_id_spec(skills@[j].name@),
                                ) by {
                                    let x = normalize_id_spec(skills@[j].name@);
                                    let n = choose|n: int|
                                        0 <= n < known_old.len() && known_old[n] == x;
                                    assert(known_ids.deep_view()[n] == x);
                                }
                                assert forall|e: int|
                                    0 <= e < edges@.len() implies holds_str(
                                    known_ids.deep_view(),
                                    (#[trigger] edges@[e]).source@,
                                ) && holds_str(known_ids.deep_view(), edges@[e].target@) by {
                                    let s = edges@[e].source@;
                                    let n1 = choose|n: int|
                                        0 <= n < known_old.len() && known_old[n] == s;
                                    assert(known_ids.deep_view()[n1] == s);
                                    let tg = edges@[e].target@;
                                    let n2 = choose|n: int|
                                        0 <= n < known_old.len() && known_old[n] == tg;
                                    assert(known_ids.deep_view()[n2] == tg);
                                }
                                let ns = choose|n: int|
                                    0 <= n < known_old.len() && known_old[n] == source_chars@;
                                assert(known_ids.deep_view()[ns] == source_chars@);
                                assert(known_ids.deep_view()[known_old.len() as int]
                                    == script_chars@);
                                assert(holds_str(known_ids.deep_view(), script_chars@));
                            }
                        }
                        let ghost edges_old = edges@;
                        edges.push(
                            GraphEdge {
                                source: crate::vcs::copy_string(&source_id),
                                target: script_id,
                                kind: String::from_str("scripts"),
                            },
                        );
                        proof {
                            assert forall|e: int|
                                0 <= e < edges@.len() implies holds_str(
                                known_ids.deep_view(),
                                (#[trigger] edges@[e]).source@,
                            ) && holds_str(known_ids.deep_view(), edges@[e].target@) by {
                                if e < edges_old.len() {
                                    assert(edges@[e] == edges_old[e]);
                                } else {
                                    assert(edges@[e].source@ == source_chars@);
                                    assert(edges@[e].target@ == script_chars@);
                                }
                            }
                        }
                        sc = sc + 1;
                    }
                }
            },
            None => {},
        }
        i2 = i2 + 1;
    }

    proof {
        assert forall|e: int|
            0 <= e < edges@.len() implies is_node_id(nodes@, (#[trigger] edges@[e]).source@)
                && is_node_id(nodes@, edges@[e].target@) by {
            let s = edges@[e].source@;
            let n1 = choose|n: int|
                0 <= n < known_ids.deep_view().len() && known_ids.deep_view()[n] == s;
            assert(is_node_id(nodes@, known_ids.deep_view()[n1]));
            let tg = edges@[e].target@;
            let n2 = choose|n: int|
                0 <= n < known_ids.deep_view().len() && known_ids.deep_view()[n] == tg;
            assert(is_node_id(nodes@, known_ids.deep_view()[n2]));
        }
    }
    let node_count = nodes.len();
    let edge_count = edges.len();
    Ok(SkillGraph { nodes, edges, node_count, edge_count })
}

} // verus!
