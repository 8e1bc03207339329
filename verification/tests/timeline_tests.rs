use memoria::storage::{Activity, Session};
use memoria::timeline::{
    build_timeline, group_by_day, session_activities, timeline_activity, timeline_start, TimelineActivity,
};

fn act(id: &str, ts: i64) -> Activity {
    let mut a = Activity::new("app_focus");
    a.id = id.to_string();
    a.timestamp = ts;
    a
}

fn shown(id: &str) -> TimelineActivity {
    timeline_activity(&act(id, 0))
}

#[test]
fn timeline_start_subtracts_days() {
    assert_eq!(timeline_start(1_000_000, 7), 1_000_000 - 7 * 86400);
    assert_eq!(timeline_start(5, 0), 5);
}

#[test]
fn timeline_activity_title_fallback() {
    let mut a = act("a", 1);
    a.app_name = Some("Safari".to_string());
    assert_eq!(timeline_activity(&a).title, "Safari");
    a.content = Some("copied".to_string());
    assert_eq!(timeline_activity(&a).title, "copied");
    a.title = Some("Window".to_string());
    let t = timeline_activity(&a);
    assert_eq!((t.title.as_str(), t.id.as_str(), t.timestamp), ("Window", "a", 1));
    assert_eq!(timeline_activity(&act("b", 2)).title, "");
}

#[test]
fn group_by_day_groups_runs() {
    let dates: Vec<String> = ["d1", "d1", "d2", "d1"].iter().map(|s| s.to_string()).collect();
    let acts = vec![shown("a"), shown("b"), shown("c"), shown("d")];
    let days = group_by_day(dates, acts);
    let summary: Vec<(String, Vec<String>)> = days
        .iter()
        .map(|d| (d.date.clone(), d.activities.iter().map(|a| a.id.clone()).collect()))
        .collect();
    assert_eq!(
        summary,
        vec![
            ("d1".to_string(), vec!["a".to_string(), "b".to_string()]),
            ("d2".to_string(), vec!["c".to_string()]),
            ("d1".to_string(), vec!["d".to_string()]),
        ]
    );
    assert!(group_by_day(vec![], vec![]).is_empty());
}

#[test]
fn build_timeline_by_utc_day() {
    let acts = vec![act("late", 2 * 86400 + 5), act("mid", 86400 + 100), act("early", 86400), act("first", 10)];
    let mut s = Session::new("general");
    s.id = "s1".to_string();
    let t = build_timeline(&acts, &vec![s]);
    let dates: Vec<&str> = t.days.iter().map(|d| d.date.as_str()).collect();
    assert_eq!(dates, vec!["1970-01-03", "1970-01-02", "1970-01-01"]);
    assert_eq!(t.days[1].activities.len(), 2);
    assert_eq!(t.sessions.len(), 1);
    assert_eq!(t.sessions[0].id, "s1");
    assert_eq!(t.sessions[0].session_type, "general");
}

#[test]
fn session_activities_filters_in_order() {
    let mut a = act("a", 1);
    a.session_id = Some("s".to_string());
    let b = act("b", 2);
    let mut c = act("c", 3);
    c.session_id = Some("s".to_string());
    let mut d = act("d", 4);
    d.session_id = Some("t".to_string());
    let r = session_activities(&vec![a, b, c, d], "s");
    let ids: Vec<&str> = r.iter().map(|x| x.id.as_str()).collect();
    assert_eq!(ids, vec!["a", "c"]);
}

#[test]
fn group_by_day_newest_first_gives_decreasing_days() {
    let dates: Vec<String> =
        ["2024-03-02", "2024-03-02", "2024-03-01", "2024-02-29", "2024-02-29"].iter().map(|s| s.to_string()).collect();
    let acts = vec![shown("a"), shown("b"), shown("c"), shown("d"), shown("e")];
    let days = group_by_day(dates, acts);
    let keys: Vec<&str> = days.iter().map(|d| d.date.as_str()).collect();
    assert_eq!(keys, vec!["2024-03-02", "2024-03-01", "2024-02-29"]);
    assert!(keys.windows(2).all(|w| w[1] < w[0]));
}
