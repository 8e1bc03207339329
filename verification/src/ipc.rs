//! What the user interface is answered: the status line and the preview of
//! one activity.

use vstd::prelude::*;
use crate::config::Settings;
use crate::storage::Activity;
use crate::knowledge::RelatedNode;
use crate::text::same_str;

verus! {

broadcast use vstd::string::group_string_axioms;

/// The status line: whether tracking is paused, how much is stored, how much
/// waits for embedding, and which capture is on.
#[derive(Debug, Clone)]
pub struct StatusInfo {
    pub is_paused: bool,
    pub activity_count: i64,
    pub screenshot_count: i64,
    pub pending_embeddings: usize,
    pub activity_capture_enabled: bool,
    pub screen_capture_enabled: bool,
    pub clipboard_monitoring_enabled: bool,
}

/// One activity as previewed, with its neighbours in the knowledge graph.
#[derive(Debug, Clone)]
pub struct ActivityPreview {
    pub id: String,
    pub activity_type: String,
    pub title: String,
    pub app_name: Option<String>,
    pub file_path: Option<String>,
    pub url: Option<String>,
    pub content: Option<String>,
    pub timestamp: i64,
    pub session_id: Option<String>,
    pub related_nodes: Vec<RelatedNode>,
}

/// The status line for the given pause state, counts and settings.
pub fn status_info(
    is_paused: bool,
    activity_count: i64,
    screenshot_count: i64,
    pending_embeddings: usize,
    settings: &Settings,
) -> (s: StatusInfo)
    ensures
        s.is_paused == is_paused,
        s.activity_count == activity_count,
        s.screenshot_count == screenshot_count,
        s.pending_embeddings == pending_embeddings,
        s.activity_capture_enabled == settings.activity_capture.enabled,
        s.screen_capture_enabled == settings.screen_capture.enabled,
        s.clipboard_monitoring_enabled == settings.activity_capture.clipboard_monitoring,
{
    StatusInfo {
        is_paused,
        activity_count,
        screenshot_count,
        pending_embeddings,
        activity_capture_enabled: settings.activity_capture.enabled,
        screen_capture_enabled: settings.screen_capture.enabled,
        clipboard_monitoring_enabled: settings.activity_capture.clipboard_monitoring,
    }
}

/// The index of the first activity whose id is `id`.
pub open spec fn first_activity_with_id(activities: Seq<Activity>, id: Seq<char>) -> Option<int>
    decreases activities.len(),
{
    if activities.len() == 0 {
        None
    } else {
        match first_activity_with_id(activities.drop_last(), id) {
            Some(i) => Some(i),
            None => if activities.last().id@ == id {
                Some(activities.len() - 1)
            } else {
                None
            },
        }
    }
}

/// A found index is the first whose id matches; none is found exactly when
/// no activity has the id.
pub proof fn lemma_first_activity(activities: Seq<Activity>, id: Seq<char>)
    ensures
        first_activity_with_id(activities, id) matches Some(i) ==> 0 <= i < activities.len()
            && activities[i].id@ == id && forall|j: int| 0 <= j < i ==> activities[j].id@ != id,
        first_activity_with_id(activities, id) is None ==> forall|j: int|
            0 <= j < activities.len() ==> activities[j].id@ != id,
    decreases activities.len(),
{
    if activities.len() > 0 {
        let d = activities.drop_last();
        lemma_first_activity(d, id);
        match first_activity_with_id(d, id) {
            Some(i) => {
                assert(d[i] == activities[i]);
                assert forall|j: int| 0 <= j < i implies activities[j].id@ != id by {
                    assert(d[j] == activities[j]);
                }
            },
            None => {
                assert forall|j: int| 0 <= j < d.len() implies activities[j].id@ != id by {
                    assert(d[j] == activities[j]);
                }
            },
        }
    }
}

proof fn lemma_first_activity_extends(activities: Seq<Activity>, id: Seq<char>, i: int)
    requires
        0 <= i < activities.len(),
        first_activity_with_id(activities.take(i), id) is None,
        activities[i].id@ == id,
    ensures
        first_activity_with_id(activities, id) == Some(i),
{
    lemma_first_activity(activities, id);
    lemma_first_activity(activities.take(i), id);
    if first_activity_with_id(activities, id) != Some(i) {
        let j = first_activity_with_id(activities, id)->0;
        assert(activities.take(i)[j] == activities[j]);
    }
}

/// Where the activity with the given id is, if it is among `activities`.
pub fn find_activity(activities: &Vec<Activity>, id: &str) -> (r: Option<usize>)
    ensures
        match r {
            Some(k) => first_activity_with_id(activities@, id@) == Some(k as int) && k
                < activities.len(),
            None => first_activity_with_id(activities@, id@) is None,
        },
        match r {
            Some(k) => activities@[k as int].id@ == id@ && forall|j: int|
                0 <= j < k ==> (#[trigger] activities@[j]).id@ != id@,
            None => forall|j: int| 0 <= j < activities.len() ==> (#[trigger] activities@[j]).id@ != id@,
        },
{
    let mut i: usize = 0;
    while i < activities.len()
        invariant
            i <= activities.len(),
            first_activity_with_id(activities@.take(i as int), id@) is None,
        decreases activities.len() - i,
    {
        proof {
            assert(activities@.take(i + 1).drop_last() =~= activities@.take(i as int));
        }
        if same_str(activities[i].id.as_str(), id) {
            proof {
                lemma_first_activity_extends(activities@, id@, i as int);
                lemma_first_activity(activities@, id@);
            }
            return Some(i);
        }
        i += 1;
    }
    assert(activities@.take(activities.len() as int) =~= activities@);
    proof {
        lemma_first_activity(activities@, id@);
    }
    None
}

/// The title an activity is previewed with: its title, else its content,
/// else the empty text.
pub open spec fn preview_title(a: Activity) -> Seq<char> {
    match a.title {
        Some(t) => t@,
        None => match a.content {
            Some(c) => c@,
            None => Seq::<char>::empty(),
        },
    }
}

fn copy_opt(o: &Option<String>) -> (r: Option<String>)
    ensures
        r == *o,
{
    match o {
        Some(s) => Some(s.clone()),
        None => None,
    }
}

/// The preview of an activity with the given neighbours.
pub fn activity_preview(a: &Activity, related_nodes: Vec<RelatedNode>) -> (p: ActivityPreview)
    ensures
        p.id == a.id,
        p.activity_type == a.activity_type,
        p.title@ == preview_title(*a),
        p.app_name == a.app_name,
        p.file_path == a.file_path,
        p.url == a.url,
        p.content == a.content,
        p.timestamp == a.timestamp,
        p.session_id == a.session_id,
        p.related_nodes == related_nodes,
{
    let title = match &a.title {
        Some(t) => t.clone(),
        None => match &a.content {
            Some(c) => c.clone(),
            None => String::new(),
        },
    };
    ActivityPreview {
        id: a.id.clone(),
        activity_type: a.activity_type.clone(),
        title,
        app_name: copy_opt(&a.app_name),
        file_path: copy_opt(&a.file_path),
        url: copy_opt(&a.url),
        content: copy_opt(&a.content),
        timestamp: a.timestamp,
        session_id: copy_opt(&a.session_id),
        related_nodes,
    }
}

/// An activity is previewed under its title when it has one, else under its
/// content, else under the empty text.
pub proof fn lemma_preview_title_order(a: Activity)
    ensures
        a.title matches Some(t) ==> preview_title(a) == t@,
        a.title is None ==> (a.content matches Some(c) ==> preview_title(a) == c@),
        a.title is None && a.content is None ==> preview_title(a) == Seq::<char>::empty(),
{
}

} // verus!
