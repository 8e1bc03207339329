//! The knowledge graph: which nodes an activity is linked to, looking nodes
//! up, the neighbours of a node, and the graph as drawn.

use vstd::prelude::*;
use crate::storage::{Activity, KnowledgeEdge, KnowledgeNode};
use crate::external::is_uuid_text;
use crate::text::same_str;

verus! {

broadcast use vstd::string::group_string_axioms;

/// A node to be found by type and identifier, or made with the given label.
#[derive(Debug, Clone)]
pub struct NodeRequest {
    pub node_type: String,
    pub identifier: String,
    pub label: Option<String>,
}

/// The node an activity stands for and, when it belongs to a session, the
/// session node that `contains` it.
#[derive(Debug, Clone)]
pub struct ActivityLinks {
    pub node: NodeRequest,
    pub session: Option<NodeRequest>,
}

/// A neighbour of a node, reached over the edge at `edge_index` of the edges
/// it was computed from.  The edge's weight stays with the storage layer and
/// is found again by that index.
#[derive(Debug, Clone)]
pub struct RelatedNode {
    pub id: String,
    pub node_type: String,
    pub label: String,
    pub identifier: String,
    pub edge_type: String,
    pub edge_index: usize,
}

/// The whole graph as drawn.
#[derive(Debug, Clone)]
pub struct GraphData {
    pub nodes: Vec<GraphNode>,
    pub edges: Vec<GraphEdge>,
}

/// A node as drawn.
#[derive(Debug, Clone)]
pub struct GraphNode {
    pub id: String,
    pub node_type: String,
    pub label: String,
}

/// An edge as drawn.
#[derive(Debug, Clone)]
pub struct GraphEdge {
    pub id: String,
    pub source: String,
    pub target: String,
    pub edge_type: String,
}

/// A node request as plain values: type, identifier and label.
pub open spec fn request_view(r: NodeRequest) -> (Seq<char>, Seq<char>, Option<Seq<char>>) {
    (r.node_type@, r.identifier@, opt_text(r.label))
}

/// The chars of an optional string, if present.
pub open spec fn opt_text(o: Option<String>) -> Option<Seq<char>> {
    match o {
        Some(s) => Some(s@),
        None => None,
    }
}

/// The node that stands for an activity: its application for a focus event
/// (none without a bundle id), the activity itself for a screenshot or a
/// clipboard entry, otherwise its URL, else its file, else the activity.
pub open spec fn activity_node(a: Activity) -> Option<(Seq<char>, Seq<char>, Option<Seq<char>>)> {
    if a.activity_type@ == "app_focus"@ {
        match a.app_bundle_id {
            Some(b) => Some(("app"@, b@, opt_text(a.app_name))),
            None => None,
        }
    } else if a.activity_type@ == "screenshot"@ {
        Some(("screenshot"@, a.id@, None))
    } else if a.activity_type@ == "clipboard"@ {
        Some(("clipboard"@, a.id@, None))
    } else {
        match a.url {
            Some(u) => Some(("url"@, u@, None)),
            None => match a.file_path {
                Some(f) => Some(("file"@, f@, None)),
                None => Some(("activity"@, a.id@, opt_text(a.title))),
            },
        }
    }
}

fn copy_opt(o: &Option<String>) -> (r: Option<String>)
    ensures
        r == *o,
{
    match o {
        Some(s) => Some(s.clone()),
        None => None,
    }
}

fn request(node_type: &str, identifier: &String, label: Option<String>) -> (r: NodeRequest)
    ensures
        r.node_type@ == node_type@,
        r.identifier@ == identifier@,
        r.label == label,
{
    NodeRequest { node_type: node_type.to_owned(), identifier: identifier.clone(), label }
}

/// The nodes an activity is to be linked to: `None` when it stands for no
/// node; otherwise its node, and the node of its session, if any.
pub fn plan_activity_links(a: &Activity) -> (r: Option<ActivityLinks>)
    ensures
        r is Some <==> activity_node(*a) is Some,
        r matches Some(l) ==> {
            &&& request_view(l.node) == activity_node(*a)->0
            &&& l.session is Some <==> a.session_id is Some
            &&& l.session matches Some(s) ==> request_view(s) == ("session"@, a.session_id->0@, None::<Seq<char>>)
        },
{
    let node = if same_str(a.activity_type.as_str(), "app_focus") {
        match &a.app_bundle_id {
            Some(b) => request("app", b, copy_opt(&a.app_name)),
            None => {
                return None;
            },
        }
    } else if same_str(a.activity_type.as_str(), "screenshot") {
        request("screenshot", &a.id, None)
    } else if same_str(a.activity_type.as_str(), "clipboard") {
        request("clipboard", &a.id, None)
    } else {
        match &a.url {
            Some(u) => request("url", u, None),
            None => match &a.file_path {
                Some(f) => request("file", f, None),
                None => request("activity", &a.id, copy_opt(&a.title)),
            },
        }
    };
    let session = match &a.session_id {
        Some(s) => Some(request("session", s, None)),
        None => None,
    };
    Some(ActivityLinks { node, session })
}

impl ActivityLinks {
    /// The edge that ties the activity's node, stored under `node_id`, to its
    /// session's node, stored under `session_node_id`: from the session node
    /// to the activity's node, of type `contains`, with a new random id.
    /// None when the activity belongs to no session.
    pub fn session_edge(&self, session_node_id: &str, node_id: &str) -> (r: Option<KnowledgeEdge>)
        ensures
            r is Some <==> self.session is Some,
            r matches Some(e) ==> {
                &&& is_uuid_text(e.id@)
                &&& e.source_id@ == session_node_id@
                &&& e.target_id@ == node_id@
                &&& e.edge_type@ == "contains"@
                &&& e.properties is None
            },
    {
        match &self.session {
            Some(_) => Some(KnowledgeEdge::new(session_node_id, node_id, "contains")),
            None => None,
        }
    }
}

/// How a node request is settled against the nodes of its type already
/// stored: the id of the first stored node with its identifier, or a new
/// node to store.
#[derive(Debug, Clone)]
pub enum NodeResolution {
    Existing(String),
    Create(KnowledgeNode),
}

/// A node made for `request`: of its type, identifier and label.
pub open spec fn made_for(n: KnowledgeNode, request: NodeRequest) -> bool {
    &&& is_uuid_text(n.id@)
    &&& n.node_type@ == request.node_type@
    &&& n.identifier@ == request.identifier@
    &&& n.label == request.label
    &&& n.properties is None
}

/// The store and the id that looking up or creating a node with
/// `identifier` settles on, when `fresh` is the node made if none is found:
/// the first stored node with that identifier, else `fresh`, appended.
pub open spec fn settle_node(nodes: Seq<KnowledgeNode>, identifier: Seq<char>, fresh: KnowledgeNode) -> (
    Seq<KnowledgeNode>,
    Seq<char>,
) {
    match first_with_identifier(nodes, identifier) {
        Some(k) => (nodes, nodes[k].id@),
        None => (nodes.push(fresh), fresh.id@),
    }
}

/// Looking up or creating a node twice with the same identifier settles on
/// the same node both times, and the second time stores nothing: the first
/// time's node, found or created, is found again.
pub proof fn lemma_settle_node_twice(
    nodes: Seq<KnowledgeNode>,
    identifier: Seq<char>,
    fresh1: KnowledgeNode,
    fresh2: KnowledgeNode,
)
    requires
        fresh1.identifier@ == identifier,
    ensures
        settle_node(settle_node(nodes, identifier, fresh1).0, identifier, fresh2) == (
            settle_node(nodes, identifier, fresh1).0,
            settle_node(nodes, identifier, fresh1).1,
        ),
{
    let after = nodes.push(fresh1);
    if first_with_identifier(nodes, identifier) is None {
        assert(after.drop_last() =~= nodes);
        assert(first_with_identifier(after, identifier) == Some(nodes.len() as int));
    }
}

/// Settles `request` against `nodes`, the stored nodes of its type: the id
/// of the first with its identifier, or a new node made for it.
pub fn resolve_node(nodes: &Vec<KnowledgeNode>, request: &NodeRequest) -> (r: NodeResolution)
    ensures
        match r {
            NodeResolution::Existing(id) => first_with_identifier(nodes@, request.identifier@) matches Some(
                k,
            ) && id@ == nodes@[k].id@,
            NodeResolution::Create(n) => first_with_identifier(nodes@, request.identifier@) is None
                && made_for(n, *request),
        },
        match r {
            NodeResolution::Existing(id) => settle_node(nodes@, request.identifier@, arbitrary()) == (
                nodes@,
                id@,
            ),
            NodeResolution::Create(n) => settle_node(nodes@, request.identifier@, n) == (
                nodes@.push(n),
                n.id@,
            ),
        },
{
    match find_node_id(nodes, request.identifier.as_str()) {
        Some(id) => NodeResolution::Existing(id),
        None => {
            let mut n = KnowledgeNode::new(request.node_type.as_str(), request.identifier.as_str());
            n.label = copy_opt(&request.label);
            NodeResolution::Create(n)
        },
    }
}

/// The index of the first node whose identifier is `identifier`.
pub open spec fn first_with_identifier(nodes: Seq<KnowledgeNode>, identifier: Seq<char>) -> Option<int>
    decreases nodes.len(),
{
    if nodes.len() == 0 {
        None
    } else {
        match first_with_identifier(nodes.drop_last(), identifier) {
            Some(i) => Some(i),
            None => if nodes.last().identifier@ == identifier {
                Some(nodes.len() - 1)
            } else {
                None
            },
        }
    }
}

/// The index of the first node whose id is `id`.
pub open spec fn first_with_id(nodes: Seq<KnowledgeNode>, id: Seq<char>) -> Option<int>
    decreases nodes.len(),
{
    if nodes.len() == 0 {
        None
    } else {
        match first_with_id(nodes.drop_last(), id) {
            Some(i) => Some(i),
            None => if nodes.last().id@ == id {
                Some(nodes.len() - 1)
            } else {
                None
            },
        }
    }
}

/// A found index is the first whose identifier matches.
pub proof fn lemma_first_with_identifier(nodes: Seq<KnowledgeNode>, identifier: Seq<char>)
    ensures
        first_with_identifier(nodes, identifier) matches Some(i) ==> 0 <= i < nodes.len()
            && nodes[i].identifier@ == identifier && forall|j: int|
            0 <= j < i ==> nodes[j].identifier@ != identifier,
        first_with_identifier(nodes, identifier) is None ==> forall|j: int|
            0 <= j < nodes.len() ==> nodes[j].identifier@ != identifier,
    decreases nodes.len(),
{
    if nodes.len() > 0 {
        let d = nodes.drop_last();
        lemma_first_with_identifier(d, identifier);
        match first_with_identifier(d, identifier) {
            Some(i) => {
                assert(d[i] == nodes[i]);
                assert forall|j: int| 0 <= j < i implies nodes[j].identifier@ != identifier by {
                    assert(d[j] == nodes[j]);
                }
            },
            None => {
                assert forall|j: int| 0 <= j < d.len() implies nodes[j].identifier@ != identifier by {
                    assert(d[j] == nodes[j]);
                }
            },
        }
    }
}

/// The id of the first node whose identifier is `identifier`, if any.
pub fn find_node_id(nodes: &Vec<KnowledgeNode>, identifier: &str) -> (r: Option<String>)
    ensures
        r is Some <==> first_with_identifier(nodes@, identifier@) is Some,
        r matches Some(id) ==> id@ == nodes@[first_with_identifier(nodes@, identifier@)->0].id@,
{
    let mut i: usize = 0;
    while i < nodes.len()
        invariant
            i <= nodes.len(),
            first_with_identifier(nodes@.take(i as int), identifier@) is None,
        decreases nodes.len() - i,
    {
        proof {
            assert(nodes@.take(i + 1).drop_last() =~= nodes@.take(i as int));
        }
        if same_str(nodes[i].identifier.as_str(), identifier) {
            proof {
                lemma_first_index_extends(nodes@, identifier@, i as int);
            }
            return Some(nodes[i].id.clone());
        }
        i += 1;
    }
    assert(nodes@.take(nodes.len() as int) =~= nodes@);
    None
}

proof fn lemma_first_index_extends(nodes: Seq<KnowledgeNode>, identifier: Seq<char>, i: int)
    requires
        0 <= i < nodes.len(),
        first_with_identifier(nodes.take(i), identifier) is None,
        nodes[i].identifier@ == identifier,
    ensures
        first_with_identifier(nodes, identifier) == Some(i),
{
    lemma_first_with_identifier(nodes, identifier);
    lemma_first_with_identifier(nodes.take(i), identifier);
    if first_with_identifier(nodes, identifier) != Some(i) {
        let j = first_with_identifier(nodes, identifier)->0;
        assert(nodes.take(i)[j] == nodes[j]);
    }
}

/// A neighbour as plain values.
pub struct RelatedView {
    pub id: Seq<char>,
    pub node_type: Seq<char>,
    pub label: Seq<char>,
    pub identifier: Seq<char>,
    pub edge_type: Seq<char>,
    pub edge_index: usize,
}

impl View for RelatedNode {
    type V = RelatedView;

    open spec fn view(&self) -> RelatedView {
        RelatedView {
            id: self.id@,
            node_type: self.node_type@,
            label: self.label@,
            identifier: self.identifier@,
            edge_type: self.edge_type@,
            edge_index: self.edge_index,
        }
    }
}

/// The label a node is shown with: its label, else its identifier.
pub open spec fn shown_label(n: KnowledgeNode) -> Seq<char> {
    match n.label {
        Some(l) => l@,
        None => n.identifier@,
    }
}

/// The end of `e` that is not `node_id` (its source when neither is).
pub open spec fn other_end(e: KnowledgeEdge, node_id: Seq<char>) -> Seq<char> {
    if e.source_id@ == node_id {
        e.target_id@
    } else {
        e.source_id@
    }
}

/// The neighbours of `node_id` over `edges`, in edge order: for each edge,
/// the first node whose id is the other end, skipped when there is none.
pub open spec fn related(node_id: Seq<char>, edges: Seq<KnowledgeEdge>, nodes: Seq<KnowledgeNode>) -> Seq<RelatedView>
    decreases edges.len(),
{
    if edges.len() == 0 {
        seq![]
    } else {
        let e = edges.last();
        related(node_id, edges.drop_last(), nodes) + match first_with_id(nodes, other_end(e, node_id)) {
            Some(k) => seq![RelatedView {
                id: nodes[k].id@,
                node_type: nodes[k].node_type@,
                label: shown_label(nodes[k]),
                identifier: nodes[k].identifier@,
                edge_type: e.edge_type@,
                edge_index: (edges.len() - 1) as usize,
            }],
            None => seq![],
        }
    }
}

fn find_by_id(nodes: &Vec<KnowledgeNode>, id: &str) -> (r: Option<usize>)
    ensures
        match r {
            Some(k) => first_with_id(nodes@, id@) == Some(k as int) && k < nodes.len(),
            None => first_with_id(nodes@, id@) is None,
        },
{
    let mut i: usize = 0;
    while i < nodes.len()
        invariant
            i <= nodes.len(),
            first_with_id(nodes@.take(i as int), id@) is None,
        decreases nodes.len() - i,
    {
        proof {
            assert(nodes@.take(i + 1).drop_last() =~= nodes@.take(i as int));
        }
        if same_str(nodes[i].id.as_str(), id) {
            proof {
                lemma_first_id_extends(nodes@, id@, i as int);
            }
            return Some(i);
        }
        i += 1;
    }
    assert(nodes@.take(nodes.len() as int) =~= nodes@);
    None
}

proof fn lemma_first_with_id(nodes: Seq<KnowledgeNode>, id: Seq<char>)
    ensures
        first_with_id(nodes, id) matches Some(i) ==> 0 <= i < nodes.len() && nodes[i].id@ == id
            && forall|j: int| 0 <= j < i ==> nodes[j].id@ != id,
        first_with_id(nodes, id) is None ==> forall|j: int| 0 <= j < nodes.len() ==> nodes[j].id@ != id,
    decreases nodes.len(),
{
    if nodes.len() > 0 {
        let d = nodes.drop_last();
        lemma_first_with_id(d, id);
        match first_with_id(d, id) {
            Some(i) => {
                assert(d[i] == nodes[i]);
                assert forall|j: int| 0 <= j < i implies nodes[j].id@ != id by {
                    assert(d[j] == nodes[j]);
                }
            },
            None => {
                assert forall|j: int| 0 <= j < d.len() implies nodes[j].id@ != id by {
                    assert(d[j] == nodes[j]);
                }
            },
        }
    }
}

proof fn lemma_first_id_extends(nodes: Seq<KnowledgeNode>, id: Seq<char>, i: int)
    requires
        0 <= i < nodes.len(),
        first_with_id(nodes.take(i), id) is None,
        nodes[i].id@ == id,
    ensures
        first_with_id(nodes, id) == Some(i),
{
    lemma_first_with_id(nodes, id);
    lemma_first_with_id(nodes.take(i), id);
    if first_with_id(nodes, id) != Some(i) {
        let j = first_with_id(nodes, id)->0;
        assert(nodes.take(i)[j] == nodes[j]);
    }
}

fn label_of(n: &KnowledgeNode) -> (r: String)
    ensures
        r@ == shown_label(*n),
{
    match &n.label {
        Some(l) => l.clone(),
        None => n.identifier.clone(),
    }
}

/// The neighbours of `node_id` over `edges` (the edges that touch it), each
/// with the node at the edge's other end, in edge order.
pub fn related_nodes(node_id: &str, edges: &Vec<KnowledgeEdge>, nodes: &Vec<KnowledgeNode>) -> (r: Vec<RelatedNode>)
    ensures
        r@.map_values(|x: RelatedNode| x.view()) == related(node_id@, edges@, nodes@),
{
    let mut out: Vec<RelatedNode> = Vec::new();
    let mut i: usize = 0;
    while i < edges.len()
        invariant
            i <= edges.len(),
            out@.map_values(|x: RelatedNode| x.view()) == related(node_id@, edges@.take(i as int), nodes@),
        decreases edges.len() - i,
    {
        proof {
            assert(edges@.take(i + 1).drop_last() =~= edges@.take(i as int));
            assert(edges@.take(i + 1).last() == edges@[i as int]);
        }
        let e = &edges[i];
        let other = if same_str(e.source_id.as_str(), node_id) {
            &e.target_id
        } else {
            &e.source_id
        };
        let ghost before = out@.map_values(|x: RelatedNode| x.view());
        match find_by_id(nodes, other.as_str()) {
            Some(k) => {
                let n = &nodes[k];
                out.push(
                    RelatedNode {
                        id: n.id.clone(),
                        node_type: n.node_type.clone(),
                        label: label_of(n),
                        identifier: n.identifier.clone(),
                        edge_type: e.edge_type.clone(),
                        edge_index: i,
                    },
                );
                assert(out@.map_values(|x: RelatedNode| x.view()) =~= before + seq![out@.last().view()]);
            },
            None => {
                assert(out@.map_values(|x: RelatedNode| x.view()) =~= before + Seq::<RelatedView>::empty());
            },
        }
        i += 1;
    }
    assert(edges@.take(edges.len() as int) =~= edges@);
    out
}

/// `g` draws `nodes` and `edges`: one drawn node per node and one drawn edge
/// per edge, in order, each node labelled by its label or else its
/// identifier.
pub open spec fn draws(g: GraphData, nodes: Seq<KnowledgeNode>, edges: Seq<KnowledgeEdge>) -> bool {
    &&& g.nodes@.len() == nodes.len()
    &&& g.edges@.len() == edges.len()
    &&& forall|i: int|
        0 <= i < nodes.len() ==> {
            &&& (#[trigger] g.nodes@[i]).id@ == nodes[i].id@
            &&& g.nodes@[i].node_type@ == nodes[i].node_type@
            &&& g.nodes@[i].label@ == shown_label(nodes[i])
        }
    &&& forall|i: int|
        0 <= i < edges.len() ==> {
            &&& (#[trigger] g.edges@[i]).id@ == edges[i].id@
            &&& g.edges@[i].source@ == edges[i].source_id@
            &&& g.edges@[i].target@ == edges[i].target_id@
            &&& g.edges@[i].edge_type@ == edges[i].edge_type@
        }
}

/// The graph as drawn from its stored nodes and edges.
pub fn graph_data(nodes: &Vec<KnowledgeNode>, edges: &Vec<KnowledgeEdge>) -> (g: GraphData)
    ensures
        draws(g, nodes@, edges@),
{
    let mut gn: Vec<GraphNode> = Vec::new();
    let mut i: usize = 0;
    while i < nodes.len()
        invariant
            i <= nodes.len(),
            gn@.len() == i,
            forall|j: int|
                0 <= j < i ==> {
                    &&& (#[trigger] gn@[j]).id@ == nodes@[j].id@
                    &&& gn@[j].node_type@ == nodes@[j].node_type@
                    &&& gn@[j].label@ == shown_label(nodes@[j])
                },
        decreases nodes.len() - i,
    {
        let n = &nodes[i];
        gn.push(GraphNode { id: n.id.clone(), node_type: n.node_type.clone(), label: label_of(n) });
        i += 1;
    }
    let mut ge: Vec<GraphEdge> = Vec::new();
    let mut k: usize = 0;
    while k < edges.len()
        invariant
            k <= edges.len(),
            ge@.len() == k,
            forall|j: int|
                0 <= j < k ==> {
                    &&& (#[trigger] ge@[j]).id@ == edges@[j].id@
                    &&& ge@[j].source@ == edges@[j].source_id@
                    &&& ge@[j].target@ == edges@[j].target_id@
                    &&& ge@[j].edge_type@ == edges@[j].edge_type@
                },
        decreases edges.len() - k,
    {
        let e = &edges[k];
        ge.push(
            GraphEdge {
                id: e.id.clone(),
                source: e.source_id.clone(),
                target: e.target_id.clone(),
                edge_type: e.edge_type.clone(),
            },
        );
        k += 1;
    }
    GraphData { nodes: gn, edges: ge }
}

/// Every neighbour comes from one of the edges: the edge index is in range,
/// the neighbour is the first node with the id of that edge's other end,
/// and it carries that edge's type.
pub proof fn lemma_related_shape(node_id: Seq<char>, edges: Seq<KnowledgeEdge>, nodes: Seq<KnowledgeNode>)
    requires
        edges.len() <= usize::MAX,
    ensures
        related(node_id, edges, nodes).len() <= edges.len(),
        forall|i: int|
            0 <= i < related(node_id, edges, nodes).len() ==> {
                let r = #[trigger] related(node_id, edges, nodes)[i];
                &&& r.edge_index < edges.len()
                &&& r.id == other_end(edges[r.edge_index as int], node_id)
                &&& r.edge_type == edges[r.edge_index as int].edge_type@
            },
    decreases edges.len(),
{
    if edges.len() > 0 {
        let d = edges.drop_last();
        lemma_related_shape(node_id, d, nodes);
        let prev = related(node_id, d, nodes);
        let e = edges.last();
        lemma_first_with_id(nodes, other_end(e, node_id));
        let all = related(node_id, edges, nodes);
        assert forall|i: int| 0 <= i < all.len() implies {
            let r = #[trigger] all[i];
            &&& r.edge_index < edges.len()
            &&& r.id == other_end(edges[r.edge_index as int], node_id)
            &&& r.edge_type == edges[r.edge_index as int].edge_type@
        } by {
            if i < prev.len() {
                assert(all[i] == prev[i]);
                assert(d[prev[i].edge_index as int] == edges[prev[i].edge_index as int]);
            } else {
                let k = first_with_id(nodes, other_end(e, node_id))->0;
                assert(all[i] == RelatedView {
                    id: nodes[k].id@,
                    node_type: nodes[k].node_type@,
                    label: shown_label(nodes[k]),
                    identifier: nodes[k].identifier@,
                    edge_type: e.edge_type@,
                    edge_index: (edges.len() - 1) as usize,
                });
            }
        }
    }
}

/// The neighbour `r` stands for node `k` reached over edge `e` from
/// `node_id`: node `k` is the first node whose id is the edge's far end (its
/// target when it starts at `node_id`, else its source), and `r` carries that
/// node's id, type and identifier, its label (its identifier where it has
/// none), and the edge's type.
pub open spec fn neighbour_of(
    r: RelatedView,
    node_id: Seq<char>,
    e: KnowledgeEdge,
    nodes: Seq<KnowledgeNode>,
    k: int,
) -> bool {
    &&& 0 <= k < nodes.len()
    &&& nodes[k].id@ == (if e.source_id@ == node_id {
        e.target_id@
    } else {
        e.source_id@
    })
    &&& forall|j: int| 0 <= j < k ==> nodes[j].id@ != nodes[k].id@
    &&& r.id == nodes[k].id@
    &&& r.node_type == nodes[k].node_type@
    &&& r.identifier == nodes[k].identifier@
    &&& r.label == match nodes[k].label {
        Some(l) => l@,
        None => nodes[k].identifier@,
    }
    &&& r.edge_type == e.edge_type@
}

/// Each neighbour listed carries the fields of the node at the far end of
/// its edge, and the edges' order is kept: neighbours come by increasing
/// edge index, one at most per edge.  An edge whose far end is the id of
/// some node gives a neighbour.
pub proof fn lemma_related_fields(node_id: Seq<char>, edges: Seq<KnowledgeEdge>, nodes: Seq<KnowledgeNode>)
    requires
        edges.len() <= usize::MAX,
    ensures
        forall|i: int|
            0 <= i < related(node_id, edges, nodes).len() ==> {
                let r = #[trigger] related(node_id, edges, nodes)[i];
                &&& r.edge_index < edges.len()
                &&& exists|k: int| neighbour_of(r, node_id, edges[r.edge_index as int], nodes, k)
            },
        forall|i: int, j: int|
            0 <= i < j < related(node_id, edges, nodes).len() ==> (#[trigger] related(
                node_id,
                edges,
                nodes,
            )[i]).edge_index < (#[trigger] related(node_id, edges, nodes)[j]).edge_index,
        forall|x: int, k: int|
            0 <= x < edges.len() && 0 <= k < nodes.len() && #[trigger] nodes[k].id@ == (if (
            #[trigger] edges[x]).source_id@ == node_id {
                edges[x].target_id@
            } else {
                edges[x].source_id@
            }) ==> exists|i: int|
                0 <= i < related(node_id, edges, nodes).len() && (#[trigger] related(
                    node_id,
                    edges,
                    nodes,
                )[i]).edge_index == x,
    decreases edges.len(),
{
    if edges.len() > 0 {
        let d = edges.drop_last();
        lemma_related_fields(node_id, d, nodes);
        let prev = related(node_id, d, nodes);
        let e = edges.last();
        lemma_first_with_id(nodes, other_end(e, node_id));
        let all = related(node_id, edges, nodes);
        assert forall|i: int| 0 <= i < all.len() implies {
            let r = #[trigger] all[i];
            &&& r.edge_index < edges.len()
            &&& exists|k: int| neighbour_of(r, node_id, edges[r.edge_index as int], nodes, k)
        } by {
            if i < prev.len() {
                assert(all[i] == prev[i]);
                assert(d[prev[i].edge_index as int] == edges[prev[i].edge_index as int]);
            } else {
                let k = first_with_id(nodes, other_end(e, node_id))->0;
                assert(neighbour_of(all[i], node_id, e, nodes, k));
            }
        }
        assert forall|i: int, j: int| 0 <= i < j < all.len() implies (#[trigger] all[i]).edge_index
            < (#[trigger] all[j]).edge_index by {
            assert(all[i] == prev[i]);
            if j < prev.len() {
                assert(all[j] == prev[j]);
            }
        }
        assert forall|x: int, k: int|
            0 <= x < edges.len() && 0 <= k < nodes.len() && #[trigger] nodes[k].id@ == (if (
            #[trigger] edges[x]).source_id@ == node_id {
                edges[x].target_id@
            } else {
                edges[x].source_id@
            }) implies exists|i: int| 0 <= i < all.len() && (#[trigger] all[i]).edge_index == x by {
            if x < d.len() {
                assert(d[x] == edges[x]);
                assert(nodes[k].id@ == (if (d[x]).source_id@ == node_id {
                    d[x].target_id@
                } else {
                    d[x].source_id@
                }));
                let i = choose|i: int| 0 <= i < prev.len() && (#[trigger] prev[i]).edge_index == x;
                assert(all[i] == prev[i]);
            } else {
                assert(all[prev.len() as int].edge_index == x);
            }
        }
    }
}

/// The node an activity is linked to, case by case: a focus event links to
/// its application, found by bundle id and labelled with the application's
/// name (no node without a bundle id); a screenshot or a clipboard entry
/// links to a node of its own, found by the activity's id; any other activity
/// links to its URL, else its file, found by that text, else to a node of its
/// own labelled with its title.
pub proof fn lemma_activity_node_cases(a: Activity)
    ensures
        a.activity_type@ == "app_focus"@ ==> match a.app_bundle_id {
            Some(b) => activity_node(a) == Some(
                (
                    "app"@,
                    b@,
                    match a.app_name {
                        Some(n) => Some(n@),
                        None => None::<Seq<char>>,
                    },
                ),
            ),
            None => activity_node(a) is None,
        },
        a.activity_type@ == "screenshot"@ ==> activity_node(a) == Some(("screenshot"@, a.id@, None::<Seq<char>>)),
        a.activity_type@ == "clipboard"@ ==> activity_node(a) == Some(("clipboard"@, a.id@, None::<Seq<char>>)),
        a.activity_type@ != "app_focus"@ && a.activity_type@ != "screenshot"@ && a.activity_type@
            != "clipboard"@ ==> match (a.url, a.file_path) {
            (Some(u), _) => activity_node(a) == Some(("url"@, u@, None::<Seq<char>>)),
            (None, Some(f)) => activity_node(a) == Some(("file"@, f@, None::<Seq<char>>)),
            (None, None) => activity_node(a) == Some(
                (
                    "activity"@,
                    a.id@,
                    match a.title {
                        Some(t) => Some(t@),
                        None => None::<Seq<char>>,
                    },
                ),
            ),
        },
{
    reveal_strlit("app_focus");
    reveal_strlit("screenshot");
    reveal_strlit("clipboard");
    assert("screenshot"@[0] != "app_focus"@[0]);
    assert("clipboard"@[0] != "app_focus"@[0]);
    assert("clipboard"@[0] != "screenshot"@[0]);
}

/// Two activities of a type other than focus, screenshot or clipboard that
/// were seen at the same URL link to the same node, whatever else differs.
pub proof fn lemma_same_url_same_node(a: Activity, b: Activity)
    requires
        a.activity_type@ != "app_focus"@ && a.activity_type@ != "screenshot"@ && a.activity_type@
            != "clipboard"@,
        b.activity_type@ != "app_focus"@ && b.activity_type@ != "screenshot"@ && b.activity_type@
            != "clipboard"@,
        a.url is Some,
        b.url is Some,
        a.url->0@ == b.url->0@,
    ensures
        activity_node(a) == activity_node(b),
        activity_node(a) == Some(("url"@, a.url->0@, None::<Seq<char>>)),
{
    lemma_activity_node_cases(a);
    lemma_activity_node_cases(b);
}

} // verus!
