use memoria::knowledge::{find_node_id, graph_data, plan_activity_links, related_nodes, resolve_node, NodeRequest, NodeResolution};
use memoria::storage::{Activity, KnowledgeEdge, KnowledgeNode};

fn node(id: &str, ty: &str, ident: &str, label: Option<&str>) -> KnowledgeNode {
    let mut n = KnowledgeNode::new(ty, ident);
    n.id = id.to_string();
    n.label = label.map(|s| s.to_string());
    n
}

fn edge(id: &str, s: &str, t: &str, ty: &str) -> KnowledgeEdge {
    let mut e = KnowledgeEdge::new(s, t, ty);
    e.id = id.to_string();
    e
}

#[test]
fn links_for_focus_events() {
    let mut a = Activity::new("app_focus");
    assert!(plan_activity_links(&a).is_none());
    a.app_bundle_id = Some("com.apple.Safari".to_string());
    a.app_name = Some("Safari".to_string());
    a.session_id = Some("s1".to_string());
    let l = plan_activity_links(&a).unwrap();
    assert_eq!((l.node.node_type.as_str(), l.node.identifier.as_str()), ("app", "com.apple.Safari"));
    assert_eq!(l.node.label.as_deref(), Some("Safari"));
    let s = l.session.unwrap();
    assert_eq!((s.node_type.as_str(), s.identifier.as_str()), ("session", "s1"));
    assert!(s.label.is_none());
}

#[test]
fn links_for_other_activities() {
    let shot = Activity::new("screenshot");
    let l = plan_activity_links(&shot).unwrap();
    assert_eq!((l.node.node_type.as_str(), l.node.identifier.as_str()), ("screenshot", shot.id.as_str()));
    assert!(l.session.is_none());
    let clip = Activity::new("clipboard");
    assert_eq!(plan_activity_links(&clip).unwrap().node.node_type, "clipboard");
    let mut web = Activity::new("ocr_text");
    web.url = Some("https://x.org".to_string());
    web.file_path = Some("/f".to_string());
    assert_eq!(plan_activity_links(&web).unwrap().node.node_type, "url");
    web.url = None;
    let l = plan_activity_links(&web).unwrap();
    assert_eq!((l.node.node_type.as_str(), l.node.identifier.as_str()), ("file", "/f"));
    web.file_path = None;
    web.title = Some("T".to_string());
    let l = plan_activity_links(&web).unwrap();
    assert_eq!((l.node.node_type.as_str(), l.node.label.as_deref()), ("activity", Some("T")));
}

#[test]
fn find_node_id_takes_first_match() {
    let nodes = vec![node("n1", "app", "x", None), node("n2", "app", "y", None), node("n3", "app", "y", None)];
    assert_eq!(find_node_id(&nodes, "y").as_deref(), Some("n2"));
    assert!(find_node_id(&nodes, "z").is_none());
    assert!(find_node_id(&vec![], "y").is_none());
}

#[test]
fn related_nodes_follow_edges() {
    let nodes = vec![node("a", "app", "ida", Some("A")), node("b", "file", "idb", None), node("c", "url", "idc", None)];
    let edges = vec![edge("e1", "a", "b", "contains"), edge("e2", "c", "a", "links"), edge("e3", "a", "zz", "x")];
    let r = related_nodes("a", &edges, &nodes);
    assert_eq!(r.len(), 2);
    assert_eq!((r[0].id.as_str(), r[0].label.as_str(), r[0].edge_type.as_str(), r[0].edge_index), ("b", "idb", "contains", 0));
    assert_eq!((r[1].id.as_str(), r[1].node_type.as_str(), r[1].edge_index), ("c", "url", 1));
}

#[test]
fn graph_data_draws_everything() {
    let nodes = vec![node("a", "app", "ida", Some("A")), node("b", "file", "idb", None)];
    let edges = vec![edge("e1", "a", "b", "contains")];
    let g = graph_data(&nodes, &edges);
    assert_eq!(g.nodes.len(), 2);
    assert_eq!((g.nodes[0].label.as_str(), g.nodes[1].label.as_str()), ("A", "idb"));
    assert_eq!((g.edges[0].source.as_str(), g.edges[0].target.as_str(), g.edges[0].edge_type.as_str()), ("a", "b", "contains"));
}

#[test]
fn session_edge_goes_from_session_to_node() {
    let mut a = Activity::new("clipboard");
    a.session_id = Some("s1".to_string());
    let links = plan_activity_links(&a).unwrap();
    let e = links.session_edge("session-node", "clip-node").unwrap();
    assert_eq!(
        (e.source_id.as_str(), e.target_id.as_str(), e.edge_type.as_str()),
        ("session-node", "clip-node", "contains")
    );
    assert!(e.properties.is_none());
    let b = Activity::new("clipboard");
    assert!(plan_activity_links(&b).unwrap().session_edge("x", "y").is_none());
}

#[test]
fn resolve_node_finds_or_makes() {
    let req = NodeRequest { node_type: "app".to_string(), identifier: "com.a".to_string(), label: Some("A".to_string()) };
    let mut nodes = vec![node("n1", "app", "com.b", None)];
    let made = match resolve_node(&nodes, &req) {
        NodeResolution::Create(n) => n,
        NodeResolution::Existing(_) => panic!("nothing to find"),
    };
    assert_eq!((made.node_type.as_str(), made.identifier.as_str(), made.label.as_deref()), ("app", "com.a", Some("A")));
    nodes.push(made.clone());
    let other = NodeRequest { label: Some("other label".to_string()), ..req.clone() };
    match resolve_node(&nodes, &other) {
        NodeResolution::Existing(id) => assert_eq!(id, made.id),
        NodeResolution::Create(_) => panic!("the made node is found again"),
    }
    assert_eq!(nodes.len(), 2);
}
