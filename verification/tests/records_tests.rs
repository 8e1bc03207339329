use memoria::config::{data_dir_in_home, Settings};
use memoria::embedding::{
    embedding_record, pending_embedding_for, plan_indexing_round, simple_hash, wrapping_pow,
    IndexingRound,
};
use memoria::metrics::Metrics;
use memoria::storage::{Activity, KnowledgeEdge, KnowledgeNode, PendingEmbedding, Session};

fn is_uuid_text(s: &str) -> bool {
    s.len() == 36
        && s.chars().enumerate().all(|(i, c)| {
            if i == 8 || i == 13 || i == 18 || i == 23 {
                c == '-'
            } else {
                c.is_ascii_hexdigit() && !c.is_ascii_uppercase()
            }
        })
}

#[test]
fn activity_new_is_blank_and_stamped() {
    let a = Activity::new("app_focus");
    assert_eq!(a.activity_type, "app_focus");
    assert!(is_uuid_text(&a.id));
    assert!(a.app_name.is_none() && a.title.is_none() && a.content.is_none());
    assert!(a.url.is_none() && a.file_path.is_none() && a.session_id.is_none());
    assert_eq!(a.timestamp, a.created_at);
    assert!(a.timestamp > 1_600_000_000);
    let b = Activity::new("app_focus");
    assert_ne!(a.id, b.id);
}

#[test]
fn record_constructors() {
    let s = Session::new("general");
    assert_eq!(s.session_type, "general");
    assert!(s.end_time.is_none() && is_uuid_text(&s.id));
    let p = PendingEmbedding::new("act", "text");
    assert_eq!((p.activity_id.as_str(), p.content.as_str(), p.priority, p.retry_count), ("act", "text", 0, 0));
    let n = KnowledgeNode::new("app", "com.x");
    assert_eq!((n.node_type.as_str(), n.identifier.as_str()), ("app", "com.x"));
    assert!(n.label.is_none() && n.created_at == n.updated_at);
    let e = KnowledgeEdge::new("s", "t", "contains");
    assert_eq!((e.source_id.as_str(), e.target_id.as_str(), e.edge_type.as_str()), ("s", "t", "contains"));
}

#[test]
fn metrics_counters() {
    let mut m = Metrics::new();
    assert_eq!(m.events_captured, 0);
    m.increment_events();
    m.increment_events();
    assert_eq!(m.events_captured, 2);
    assert!(m.last_event_time > 1_600_000_000);
    m.increment_screenshots();
    m.increment_ocr();
    m.increment_embeddings();
    m.increment_searches();
    m.set_queue_size(7);
    m.record_vector_search_latency(12);
    m.record_embedding_latency(3);
    let s = m.get_all();
    assert_eq!(
        (s.events_captured, s.screenshots_captured, s.ocr_processed, s.embeddings_generated, s.search_queries),
        (2, 1, 1, 1, 1)
    );
    assert_eq!((s.indexing_queue_size, s.vector_search_latency_ms, s.embedding_generation_ms), (7, 12, 3));
    assert!(s.uptime_seconds < 60);
}

#[test]
fn metrics_counter_wraps() {
    let mut m = Metrics::new();
    m.search_queries = u64::MAX;
    m.increment_searches();
    assert_eq!(m.search_queries, 0);
    m.record_event_at(42);
    assert_eq!((m.events_captured, m.last_event_time), (1, 42));
}

#[test]
fn settings_defaults() {
    let s = Settings::defaults_with_data_dir("/d".to_string());
    assert_eq!(s.data_dir, "/d");
    assert_eq!(s.log_level, "info");
    assert!(s.activity_capture.enabled && s.activity_capture.clipboard_monitoring);
    assert!(!s.activity_capture.browser_history);
    assert_eq!(s.screen_capture.interval_seconds, 30);
    assert_eq!(s.privacy.exclude_apps, vec!["1Password", "Bitwarden", "Keychain Access"]);
    assert_eq!(s.privacy.exclude_directories, vec!["/Users/*/Library/Containers"]);
    assert!(s.privacy.pause_on_lock);
    assert_eq!(s.privacy.retention_days, 90);
    assert_eq!(s.performance.embedding_batch_size, 10);
    assert_eq!(s.developer.metrics_port, 9090);
    let d = Settings::default();
    assert!(d.data_dir.ends_with(".memoria"));
    assert_eq!(d.performance.max_concurrent_ocr, 2);
}

#[test]
fn data_dir_joins_like_a_path() {
    assert_eq!(data_dir_in_home("/home/u"), "/home/u/.memoria");
    assert_eq!(data_dir_in_home("/home/u/"), "/home/u/.memoria");
    assert_eq!(data_dir_in_home(""), ".memoria");
    let joined = std::path::PathBuf::from("/root").join(".memoria");
    assert_eq!(data_dir_in_home("/root"), joined.to_str().unwrap());
}

#[test]
fn simple_hash_values() {
    assert_eq!(simple_hash(""), 0);
    assert_eq!(simple_hash("a"), 32);
    assert_eq!(simple_hash("ab"), 98240);
}

fn reference_hash(text: &str) -> u64 {
    let mut hash: u64 = 0;
    for (i, byte) in text.bytes().enumerate() {
        hash = hash.wrapping_add(((byte as u64).wrapping_mul(31)).wrapping_pow(i as u32));
        hash = hash.rotate_left(5);
    }
    hash
}

#[test]
fn simple_hash_matches_reference() {
    for s in ["hello world", "Ünïcödé ✓", "the quick brown fox jumps over the lazy dog"] {
        assert_eq!(simple_hash(s), reference_hash(s));
    }
}

#[test]
fn wrapping_pow_matches_std() {
    for (b, e) in [(3u64, 4u32), (2, 63), (2, 64), (3007, 5), (u64::MAX, 3), (0, 0), (12345, 99999)] {
        assert_eq!(wrapping_pow(b, e), b.wrapping_pow(e));
    }
}

#[test]
fn pending_embedding_for_long_text_only() {
    let mut a = Activity::new("clipboard");
    a.content = Some("  short  ".to_string());
    assert!(pending_embedding_for(&a).is_none());
    a.content = None;
    a.title = Some("\r\n a title that is long enough \r\n".to_string());
    let p = pending_embedding_for(&a).unwrap();
    assert_eq!(p.content, "a title that is long enough");
    assert_eq!(p.activity_id, a.id);
    let mut b = Activity::new("other");
    b.url = Some("x".repeat(6000));
    assert_eq!(pending_embedding_for(&b).unwrap().content.len(), 5000);
    let c = Activity::new("other");
    assert!(pending_embedding_for(&c).is_none());
}

#[test]
fn indexing_round_and_record() {
    let mut s = Settings::defaults_with_data_dir("/d".to_string());
    assert_eq!(plan_indexing_round(&s), IndexingRound::Fetch(10));
    s.activity_capture.enabled = false;
    assert_eq!(plan_indexing_round(&s), IndexingRound::Pause);
    let p = PendingEmbedding::new("act-1", "text");
    let e = embedding_record(&p, vec![1, 2, 3]);
    assert_eq!((e.activity_id.as_str(), e.model_name.as_str(), e.dimensions), ("act-1", "memoria-simple", 384));
    assert_eq!(e.embedding, vec![1, 2, 3]);
    assert!(is_uuid_text(&e.id));
}

#[test]
fn event_counter_counts_each_call() {
    let mut m = Metrics::new();
    for t in 0..5u64 {
        m.record_event_at(100 + t);
    }
    assert_eq!((m.events_captured, m.last_event_time), (5, 104));
    m.events_captured = u64::MAX - 1;
    m.record_event_at(1);
    m.record_event_at(2);
    m.record_event_at(3);
    assert_eq!(m.events_captured, 1);
}
