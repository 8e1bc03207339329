use memoria::activity::{clipboard_activity, ClipboardWatch, is_excluded_app, parse_app_info, FocusPlan, FocusTracker};
use memoria::capture::{escape_for_script, ocr_text_from_output, plan_capture_round, vision_ocr_script, CaptureRound};
use memoria::config::Settings;
use memoria::ipc::{activity_preview, find_activity, status_info};
use memoria::search::{filtered_positions, matches_filters, searchable_text};
use memoria::storage::Activity;

fn app(name: &str) -> memoria::activity::AppInfo {
    parse_app_info(&format!("{}||bundle.{}||", name, name)).unwrap()
}

#[test]
fn parse_app_info_examples() {
    let a = parse_app_info("Safari||com.apple.Safari||Start Page\n").unwrap();
    assert_eq!((a.name.as_str(), a.bundle_id.as_str(), a.window_title.as_deref()), ("Safari", "com.apple.Safari", Some("Start Page")));
    let b = parse_app_info("  Finder||com.apple.finder||  ").unwrap();
    assert_eq!((b.name.as_str(), b.bundle_id.as_str()), ("Finder", "com.apple.finder"));
    assert!(b.window_title.is_none());
    assert!(parse_app_info("Only a name").is_none());
    assert!(parse_app_info("").is_none());
    let c = parse_app_info("a|||b").unwrap();
    assert_eq!((c.name.as_str(), c.bundle_id.as_str()), ("a", "|b"));
    let d = parse_app_info("x||y||t||extra").unwrap();
    assert_eq!(d.window_title.as_deref(), Some("t"));
}

#[test]
fn excluded_apps_ignore_case() {
    let ex = vec!["1password".to_string(), "Keychain Access".to_string()];
    assert!(is_excluded_app("1Password 7", &ex));
    assert!(is_excluded_app("KEYCHAIN ACCESS", &ex));
    assert!(!is_excluded_app("Safari", &ex));
    assert!(!is_excluded_app("Safari", &vec![]));
}

#[test]
fn focus_tracker_sessions_and_changes() {
    let mut t = FocusTracker::new(1000);
    let ex = vec!["secret".to_string()];
    assert_eq!(t.plan(&app("Secret Notes"), &ex, 1001, true, false), FocusPlan::Skip);
    assert_eq!(t.plan(&app("Safari"), &ex, 1000 + 900, true, false), FocusPlan::Track { new_session: false });
    assert_eq!(t.plan(&app("Safari"), &ex, 1000 + 901, true, false), FocusPlan::Track { new_session: true });
    assert_eq!(t.plan(&app("Safari"), &ex, 1000 + 901, false, false), FocusPlan::Skip);
    assert_eq!(t.plan(&app("Safari"), &ex, 1000 + 901, true, true), FocusPlan::Skip);
    t.begin_session(Some("s1".to_string()));
    let a = t.observe(&app("Safari"), 2000).unwrap();
    assert_eq!(a.activity_type, "app_focus");
    assert_eq!(a.app_name.as_deref(), Some("Safari"));
    assert_eq!(a.app_bundle_id.as_deref(), Some("bundle.Safari"));
    assert_eq!(a.session_id.as_deref(), Some("s1"));
    assert!(t.observe(&app("Safari"), 2001).is_none());
    assert_eq!((t.last_app.as_str(), t.last_activity_time), ("Safari", 2001));
    assert!(t.observe(&app("Mail"), 2002).is_some());
}

#[test]
fn clipboard_texts_kept() {
    assert!(clipboard_activity(String::new()).is_none());
    let a = clipboard_activity("copied".to_string()).unwrap();
    assert_eq!((a.activity_type.as_str(), a.content.as_deref()), ("clipboard", Some("copied")));
    assert!(clipboard_activity("x".repeat(9999)).is_some());
    assert!(clipboard_activity("x".repeat(10000)).is_none());
    assert!(clipboard_activity("é".repeat(5000)).is_none());
}

#[test]
fn clipboard_watch_records_changes_only() {
    let ex = vec!["1Password".to_string()];
    let safari = Some(app("Safari"));
    let vault = Some(app("1Password 7"));
    let mut w = ClipboardWatch::new();
    let a = w.poll("first".to_string(), true, true, false, &safari, &ex).unwrap();
    assert_eq!((a.activity_type.as_str(), a.content.as_deref()), ("clipboard", Some("first")));
    assert!(w.poll("first".to_string(), true, true, false, &safari, &ex).is_none());
    assert!(w.poll("second".to_string(), true, true, false, &None, &ex).is_some());
    assert_eq!(w.last_text.as_deref(), Some("second"));
    // An excluded application in front: read and remembered, not recorded.
    assert!(w.poll("secret".to_string(), true, true, false, &vault, &ex).is_none());
    assert_eq!(w.last_text.as_deref(), Some("secret"));
    assert!(w.poll("secret".to_string(), true, true, false, &safari, &ex).is_none());
    // Monitoring off, capture off or paused: nothing read or recorded.
    assert!(w.poll("third".to_string(), false, true, false, &safari, &ex).is_none());
    assert!(w.poll("third".to_string(), true, false, false, &safari, &ex).is_none());
    assert!(w.poll("third".to_string(), true, true, true, &safari, &ex).is_none());
    assert_eq!(w.last_text.as_deref(), Some("secret"));
    assert!(w.poll("third".to_string(), true, true, false, &safari, &ex).is_some());
    assert!(w.poll(String::new(), true, true, false, &safari, &ex).is_none());
}

#[test]
fn focus_run_records_each_change_once() {
    let ex = vec!["secret".to_string()];
    let mut t = FocusTracker::new(0);
    let mut recorded = Vec::new();
    let samples = [("Safari", 10, false), ("Safari", 20, false), ("Secret", 30, false), ("Mail", 40, true), ("Mail", 50, false), ("Mail", 2000, false)];
    for (name, now, paused) in samples {
        match t.plan(&app(name), &ex, now, true, paused) {
            FocusPlan::Skip => continue,
            FocusPlan::Track { new_session } => {
                if new_session {
                    t.begin_session(Some(format!("s{}", now)));
                }
                if let Some(a) = t.observe(&app(name), now) {
                    recorded.push((a.app_name.unwrap(), a.session_id));
                }
            }
        }
    }
    assert_eq!(recorded, vec![("Safari".to_string(), None), ("Mail".to_string(), None)]);
    assert_eq!(t.current_session_id.as_deref(), Some("s2000"));
    assert_eq!(t.last_activity_time, 2000);
}

#[test]
fn capture_rounds() {
    let mut s = Settings::defaults_with_data_dir("/d".to_string());
    assert_eq!(plan_capture_round(&s, false), CaptureRound::Capture { ocr: true, interval_seconds: 30 });
    assert_eq!(plan_capture_round(&s, true), CaptureRound::Pause);
    s.screen_capture.ocr_enabled = false;
    s.screen_capture.interval_seconds = 5;
    assert_eq!(plan_capture_round(&s, false), CaptureRound::Capture { ocr: false, interval_seconds: 5 });
    s.screen_capture.enabled = false;
    assert_eq!(plan_capture_round(&s, false), CaptureRound::Pause);
}

#[test]
fn script_escaping() {
    assert_eq!(escape_for_script(r#"a\b"c"#), r#"a\\b\"c"#);
    assert_eq!(escape_for_script("/plain/path.png"), "/plain/path.png");
    let script = vision_ocr_script(r#"/tmp/x"y.png"#);
    assert!(script.contains(r#"set imagePath to "/tmp/x\"y.png""#));
    assert!(script.contains("VNRecognizeTextRequest"));
    assert!(script.contains("options:{}"));
}

#[test]
fn ocr_output_trimmed() {
    assert_eq!(ocr_text_from_output("  hello\nworld \n").as_deref(), Some("hello\nworld"));
    assert!(ocr_text_from_output(" \n\t").is_none());
}

#[test]
fn search_text_and_filters() {
    let mut a = Activity::new("app_focus");
    assert!(searchable_text(&a).is_none());
    a.url = Some("u".to_string());
    a.file_path = Some("f".to_string());
    assert_eq!(searchable_text(&a).as_deref(), Some("f"));
    a.title = Some("t".to_string());
    a.content = Some("c".to_string());
    assert_eq!(searchable_text(&a).as_deref(), Some("c"));
    a.app_name = Some("Safari".to_string());
    a.timestamp = 100;
    assert!(matches_filters(&a, None, None, None, None));
    assert!(matches_filters(&a, Some("app_focus"), Some("Safari"), Some(100), Some(100)));
    assert!(!matches_filters(&a, Some("clipboard"), None, None, None));
    assert!(!matches_filters(&a, None, Some("Mail"), None, None));
    assert!(!matches_filters(&a, None, None, Some(101), None));
    assert!(!matches_filters(&a, None, None, None, Some(99)));
    a.app_name = None;
    assert!(!matches_filters(&a, None, Some("Safari"), None, None));
}

#[test]
fn status_and_preview() {
    let s = Settings::defaults_with_data_dir("/d".to_string());
    let st = status_info(true, 5, 2, 3, &s);
    assert!(st.is_paused && st.activity_capture_enabled && st.screen_capture_enabled && st.clipboard_monitoring_enabled);
    assert_eq!((st.activity_count, st.screenshot_count, st.pending_embeddings), (5, 2, 3));
    let mut a = Activity::new("clipboard");
    a.content = Some("body".to_string());
    let b = Activity::new("screenshot");
    let list = vec![b.clone(), a.clone()];
    assert_eq!(find_activity(&list, &a.id), Some(1));
    assert_eq!(find_activity(&list, "missing"), None);
    let twice = vec![b.clone(), a.clone(), a.clone()];
    assert_eq!(find_activity(&twice, &a.id), Some(1));
    assert_eq!(find_activity(&vec![], &a.id), None);
    let p = activity_preview(&a, vec![]);
    assert_eq!((p.title.as_str(), p.content.as_deref(), p.id.as_str()), ("body", Some("body"), a.id.as_str()));
    assert_eq!(activity_preview(&b, vec![]).title, "");
}

#[test]
fn filtered_positions_keep_first_passing() {
    let mut acts = Vec::new();
    for (i, ty) in ["clipboard", "app_focus", "clipboard", "clipboard", "screenshot", "clipboard"].iter().enumerate() {
        let mut a = Activity::new(ty);
        a.timestamp = 10 * i as i64;
        acts.push(a);
    }
    assert_eq!(filtered_positions(&acts, Some("clipboard"), None, None, None, 10), vec![0, 2, 3, 5]);
    assert_eq!(filtered_positions(&acts, Some("clipboard"), None, None, None, 2), vec![0, 2]);
    assert_eq!(filtered_positions(&acts, None, None, Some(20), Some(40), 10), vec![2, 3, 4]);
    assert_eq!(filtered_positions(&acts, Some("clipboard"), None, None, None, 0), Vec::<usize>::new());
    assert!(filtered_positions(&vec![], None, None, None, None, 3).is_empty());
}
