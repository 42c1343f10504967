use autogit::frontmatter::{derive_name, derive_name_from, extract_frontmatter};
use autogit::graph::{build_graph, normalize_id};
use autogit::frontmatter::SkillEntry;

#[test]
fn test_extract_frontmatter_valid() {
    let content = "---\nname: test-skill\ntype: skill\n---\n# Body\nHello";
    let (fm, body) = extract_frontmatter(content);
    assert!(fm.is_some());
    assert_eq!(fm.unwrap()["name"], "test-skill");
    assert!(body.starts_with("# Body"));
}

#[test]
fn test_extract_frontmatter_none() {
    let content = "# Just a heading\nNo frontmatter here.";
    let (fm, body) = extract_frontmatter(content);
    assert!(fm.is_none());
    assert_eq!(body, content);
}

#[test]
fn test_derive_name_from_frontmatter() {
    let fm = serde_json::from_str::<serde_json::Value>("{\"name\": \"my-skill\"}").unwrap();
    assert_eq!(derive_name(&Some(fm), "fallback"), "my-skill");
}

#[test]
fn test_derive_name_fallback() {
    assert_eq!(derive_name(&None, "file-stem"), "file-stem");
}

#[test]
fn malformed_yaml_frontmatter_is_skipped_silently() {
    let content = "---\n: [ not yaml\n---\nBody";
    let (fm, body) = extract_frontmatter(content);
    assert!(fm.is_none());
    assert_eq!(body, content);
}

#[test]
fn unterminated_frontmatter_is_no_frontmatter() {
    let content = "---\nname: x\nno terminator";
    let (fm, body) = extract_frontmatter(content);
    assert!(fm.is_none());
    assert_eq!(body, content);
}

#[test]
fn derive_name_trims_and_falls_back_on_blank() {
    let padded = "  padded name  ".to_string();
    assert_eq!(derive_name_from(Some(&padded), "stem"), "padded name");
    let blank = "   ".to_string();
    assert_eq!(derive_name_from(Some(&blank), "stem"), "stem");
}

#[test]
fn normalize_id_collapses_and_lowercases() {
    assert_eq!(normalize_id("Hello World"), "hello-world");
    assert_eq!(normalize_id("  My__Great Skill!  "), "my-great-skill");
    assert_eq!(normalize_id("---"), "");
    assert_eq!(normalize_id("Rust 101"), "rust-101");
}

fn skill(name: &str, fm_json: &str) -> SkillEntry {
    SkillEntry {
        path: format!("/skills/{}.md", name),
        name: name.to_string(),
        frontmatter: Some(serde_json::from_str(fm_json).unwrap()),
        body: String::new(),
    }
}

#[test]
fn build_graph_links_and_ghosts() {
    let skills = vec![
        skill("Alpha", "{\"type\": \"skill\", \"related\": [\"Beta\", \"Missing One\"]}"),
        skill("Beta", "{\"moc\": true, \"scripts\": [\" run.sh \"]}"),
        SkillEntry {
            path: "/skills/none.md".to_string(),
            name: "No Frontmatter".to_string(),
            frontmatter: None,
            body: String::new(),
        },
    ];
    let g = build_graph(skills).unwrap();
    assert_eq!(g.node_count, g.nodes.len());
    assert_eq!(g.edge_count, g.edges.len());
    // alpha, beta, ghost "missing-one", script node.
    assert_eq!(g.node_count, 4);
    assert_eq!(g.edge_count, 3);
    let ghost = g.nodes.iter().find(|n| n.id == "missing-one").expect("ghost node exists");
    assert!(ghost.is_ghost);
    assert_eq!(ghost.node_type, "unresolved");
    let beta = g.nodes.iter().find(|n| n.id == "beta").expect("beta exists");
    assert!(beta.is_moc);
    assert_eq!(beta.node_type, "moc");
    let script = g.nodes.iter().find(|n| n.id == "script:run.sh").expect("script node exists");
    assert_eq!(script.node_type, "script");
    // Every edge endpoint names a node.
    for e in &g.edges {
        assert!(g.nodes.iter().any(|n| n.id == e.source));
        assert!(g.nodes.iter().any(|n| n.id == e.target));
    }
}
