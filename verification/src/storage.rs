//! The records that Memoria stores: activities, sessions, embeddings, the
//! embedding queue, knowledge-graph nodes and edges, and screenshots.

use vstd::prelude::*;
use crate::external::{new_uuid_text, utc_now_timestamp, is_uuid_text};

verus! {

broadcast use vstd::string::group_string_axioms;

/// One captured event: an application focus, a clipboard copy, a screenshot,
/// OCR text, a file or a web page.
#[derive(Debug, Clone)]
pub struct Activity {
    pub id: String,
    pub activity_type: String,
    pub app_name: Option<String>,
    pub app_bundle_id: Option<String>,
    pub title: Option<String>,
    pub content: Option<String>,
    pub file_path: Option<String>,
    pub url: Option<String>,
    pub timestamp: i64,
    pub session_id: Option<String>,
    pub metadata: Option<String>,
    pub created_at: i64,
}

impl Activity {
    /// A fresh activity of the given type, stamped now, with a new random id
    /// and every optional field empty.
    pub fn new(activity_type: &str) -> (a: Activity)
        ensures
            is_uuid_text(a.id@),
            a.activity_type@ == activity_type@,
            a.app_name is None,
            a.app_bundle_id is None,
            a.title is None,
            a.content is None,
            a.file_path is None,
            a.url is None,
            a.session_id is None,
            a.metadata is None,
            a.timestamp == a.created_at,
    {
        let now = utc_now_timestamp();
        Activity {
            id: new_uuid_text(),
            activity_type: activity_type.to_owned(),
            app_name: None,
            app_bundle_id: None,
            title: None,
            content: None,
            file_path: None,
            url: None,
            timestamp: now,
            session_id: None,
            metadata: None,
            created_at: now,
        }
    }
}

/// A stretch of activity without an idle gap.
#[derive(Debug, Clone)]
pub struct Session {
    pub id: String,
    pub session_type: String,
    pub start_time: i64,
    pub end_time: Option<i64>,
    pub app_sequence: Option<String>,
    pub metadata: Option<String>,
    pub created_at: i64,
}

impl Session {
    /// A fresh open session of the given type, started now, with a new
    /// random id.
    pub fn new(session_type: &str) -> (s: Session)
        ensures
            is_uuid_text(s.id@),
            s.session_type@ == session_type@,
            s.end_time is None,
            s.app_sequence is None,
            s.metadata is None,
            s.start_time == s.created_at,
    {
        let now = utc_now_timestamp();
        Session {
            id: new_uuid_text(),
            session_type: session_type.to_owned(),
            start_time: now,
            end_time: None,
            app_sequence: None,
            metadata: None,
            created_at: now,
        }
    }
}

/// The stored embedding vector of an activity, as raw bytes.
#[derive(Debug, Clone)]
pub struct Embedding {
    pub id: String,
    pub activity_id: String,
    pub embedding: Vec<u8>,
    pub model_name: String,
    pub dimensions: i32,
    pub created_at: i64,
}

/// An activity's text waiting for its embedding to be computed.
#[derive(Debug, Clone)]
pub struct PendingEmbedding {
    pub id: String,
    pub activity_id: String,
    pub content: String,
    pub priority: i32,
    pub created_at: i64,
    pub retry_count: i32,
}

impl PendingEmbedding {
    /// A fresh queue entry for `content` of the given activity, created now
    /// with priority and retry count zero.
    pub fn new(activity_id: &str, content: &str) -> (p: PendingEmbedding)
        ensures
            is_uuid_text(p.id@),
            p.activity_id@ == activity_id@,
            p.content@ == content@,
            p.priority == 0,
            p.retry_count == 0,
    {
        let now = utc_now_timestamp();
        PendingEmbedding {
            id: new_uuid_text(),
            activity_id: activity_id.to_owned(),
            content: content.to_owned(),
            priority: 0,
            created_at: now,
            retry_count: 0,
        }
    }
}

/// A node of the knowledge graph: an application, file, URL, session,
/// screenshot, clipboard entry or other activity.
#[derive(Debug, Clone)]
pub struct KnowledgeNode {
    pub id: String,
    pub node_type: String,
    pub identifier: String,
    pub label: Option<String>,
    pub properties: Option<String>,
    pub created_at: i64,
    pub updated_at: i64,
}

impl KnowledgeNode {
    /// A fresh unlabelled node, created now, with a new random id.
    pub fn new(node_type: &str, identifier: &str) -> (n: KnowledgeNode)
        ensures
            is_uuid_text(n.id@),
            n.node_type@ == node_type@,
            n.identifier@ == identifier@,
            n.label is None,
            n.properties is None,
            n.created_at == n.updated_at,
    {
        let now = utc_now_timestamp();
        KnowledgeNode {
            id: new_uuid_text(),
            node_type: node_type.to_owned(),
            identifier: identifier.to_owned(),
            label: None,
            properties: None,
            created_at: now,
            updated_at: now,
        }
    }
}

/// A directed edge of the knowledge graph.  Its weight, a float, is kept by
/// the storage layer; every edge this library makes has weight one.
#[derive(Debug, Clone)]
pub struct KnowledgeEdge {
    pub id: String,
    pub source_id: String,
    pub target_id: String,
    pub edge_type: String,
    pub properties: Option<String>,
    pub created_at: i64,
}

impl KnowledgeEdge {
    /// A fresh edge of the given type between two nodes, created now, with a
    /// new random id.
    pub fn new(source_id: &str, target_id: &str, edge_type: &str) -> (e: KnowledgeEdge)
        ensures
            is_uuid_text(e.id@),
            e.source_id@ == source_id@,
            e.target_id@ == target_id@,
            e.edge_type@ == edge_type@,
            e.properties is None,
    {
        KnowledgeEdge {
            id: new_uuid_text(),
            source_id: source_id.to_owned(),
            target_id: target_id.to_owned(),
            edge_type: edge_type.to_owned(),
            properties: None,
            created_at: utc_now_timestamp(),
        }
    }
}

/// A captured screenshot and the text read from it.
#[derive(Debug, Clone)]
pub struct Screenshot {
    pub id: String,
    pub activity_id: Option<String>,
    pub image_path: String,
    pub text_content: Option<String>,
    pub timestamp: i64,
    pub width: Option<i32>,
    pub height: Option<i32>,
    pub created_at: i64,
}

} // verus!
