//! The timeline: recent activities grouped into calendar days, next to the
//! latest sessions.

use vstd::prelude::*;
use crate::storage::{Activity, Session};
use crate::external::{utc_format, utc_formatted, utc_now_timestamp};
use crate::text::same_str;

verus! {

broadcast use vstd::string::group_string_axioms;

/// The timeline as shown: days, newest first as stored, and sessions.
#[derive(Debug, Clone)]
pub struct Timeline {
    pub days: Vec<TimelineDay>,
    pub sessions: Vec<TimelineSession>,
}

/// The activities of one calendar day (`%Y-%m-%d`, UTC).
#[derive(Debug, Clone)]
pub struct TimelineDay {
    pub date: String,
    pub activities: Vec<TimelineActivity>,
}

/// One activity as the timeline shows it.
#[derive(Debug, Clone)]
pub struct TimelineActivity {
    pub id: String,
    pub activity_type: String,
    pub title: String,
    pub app_name: Option<String>,
    pub timestamp: i64,
    pub session_id: Option<String>,
}

/// One session as the timeline shows it.
#[derive(Debug, Clone)]
pub struct TimelineSession {
    pub id: String,
    pub session_type: String,
    pub start_time: i64,
    pub end_time: Option<i64>,
    pub app_sequence: Option<String>,
}

/// The `%Y-%m-%d` text of the UTC day that holds a timestamp, if chrono has
/// one.
pub open spec fn utc_day_text(timestamp: i64) -> Option<Seq<char>> {
    utc_formatted(timestamp, "%Y-%m-%d"@)
}

/// The chars of an optional string, if present.
pub open spec fn opt_view(o: Option<String>) -> Option<Seq<char>> {
    match o {
        Some(s) => Some(s@),
        None => None,
    }
}

/// The first present of three optional texts, or the empty text.
pub open spec fn first_present(a: Option<String>, b: Option<String>, c: Option<String>) -> Seq<char> {
    match a {
        Some(x) => x@,
        None => match b {
            Some(y) => y@,
            None => match c {
                Some(z) => z@,
                None => Seq::<char>::empty(),
            },
        },
    }
}

/// `t` shows activity `a`: same id, type, app, time and session, titled by
/// the activity's title, else its content, else its application name.
pub open spec fn shows_activity(t: TimelineActivity, a: Activity) -> bool {
    &&& t.id@ == a.id@
    &&& t.activity_type@ == a.activity_type@
    &&& t.title@ == first_present(a.title, a.content, a.app_name)
    &&& opt_view(t.app_name) == opt_view(a.app_name)
    &&& t.timestamp == a.timestamp
    &&& opt_view(t.session_id) == opt_view(a.session_id)
}

/// `t` shows session `s`.
pub open spec fn shows_session(t: TimelineSession, s: Session) -> bool {
    &&& t.id@ == s.id@
    &&& t.session_type@ == s.session_type@
    &&& t.start_time == s.start_time
    &&& t.end_time == s.end_time
    &&& opt_view(t.app_sequence) == opt_view(s.app_sequence)
}

/// Runs of consecutive entries with equal keys, each run with its key.
pub open spec fn group_runs<T>(keys: Seq<Seq<char>>, items: Seq<T>) -> Seq<(Seq<char>, Seq<T>)>
    decreases items.len(),
{
    if items.len() == 0 || keys.len() != items.len() {
        seq![]
    } else {
        let g = group_runs(keys.drop_last(), items.drop_last());
        let k = keys.last();
        let a = items.last();
        if g.len() > 0 && g.last().0 == k {
            g.update(g.len() - 1, (k, g.last().1.push(a)))
        } else {
            g.push((k, seq![a]))
        }
    }
}

/// The concatenation of the runs' items.
pub open spec fn flatten_runs<T>(g: Seq<(Seq<char>, Seq<T>)>) -> Seq<T>
    decreases g.len(),
{
    if g.len() == 0 {
        seq![]
    } else {
        flatten_runs(g.drop_last()) + g.last().1
    }
}

/// The days of a timeline as (date, activities) pairs.
pub open spec fn days_view(days: Seq<TimelineDay>) -> Seq<(Seq<char>, Seq<TimelineActivity>)> {
    days.map_values(|d: TimelineDay| (d.date@, d.activities@))
}

/// Grouping into runs keeps every entry, in order; no run is empty;
/// neighbouring runs have different keys; and every entry sits in the run of
/// its own key.
pub proof fn lemma_group_runs<T>(keys: Seq<Seq<char>>, items: Seq<T>)
    requires
        keys.len() == items.len(),
    ensures
        flatten_runs(group_runs(keys, items)) == items,
        forall|j: int|
            0 <= j < group_runs(keys, items).len() ==> (#[trigger] group_runs(keys, items)[j]).1.len()
                > 0,
        forall|j: int|
            0 <= j < group_runs(keys, items).len() - 1 ==> (#[trigger] group_runs(keys, items)[j]).0
                != group_runs(keys, items)[j + 1].0,
        group_runs(keys, items).len() > 0 ==> group_runs(keys, items).last().0 == keys.last(),
    decreases items.len(),
{
    if items.len() > 0 {
        let ks = keys.drop_last();
        let is = items.drop_last();
        lemma_group_runs(ks, is);
        let g = group_runs(ks, is);
        let k = keys.last();
        let a = items.last();
        if g.len() > 0 && g.last().0 == k {
            let g2 = g.update(g.len() - 1, (k, g.last().1.push(a)));
            assert(g2.drop_last() =~= g.drop_last());
            assert(flatten_runs(g) == flatten_runs(g.drop_last()) + g.last().1);
            assert(flatten_runs(g2) == flatten_runs(g2.drop_last()) + g2.last().1);
            assert(items =~= is.push(a));
            assert(flatten_runs(g2) =~= items);
        } else {
            let g2 = g.push((k, seq![a]));
            assert(g2.drop_last() =~= g);
            assert(flatten_runs(g2) == flatten_runs(g) + seq![a]);
            assert(items =~= is.push(a));
            assert(flatten_runs(g2) =~= items);
        }
    } else {
        assert(items =~= Seq::<T>::empty());
    }
}

/// Every entry of a run carries the run's key.
pub proof fn lemma_group_runs_keys<T>(keys: Seq<Seq<char>>, items: Seq<T>)
    requires
        keys.len() == items.len(),
    ensures
        flatten_keys(group_runs(keys, items)) == keys,
    decreases items.len(),
{
    if items.len() > 0 {
        let ks = keys.drop_last();
        let is = items.drop_last();
        lemma_group_runs_keys(ks, is);
        let g = group_runs(ks, is);
        let k = keys.last();
        let a = items.last();
        if g.len() > 0 && g.last().0 == k {
            let g2 = g.update(g.len() - 1, (k, g.last().1.push(a)));
            assert(g2.drop_last() =~= g.drop_last());
            assert(flatten_keys(g) == flatten_keys(g.drop_last()) + Seq::new(
                g.last().1.len(),
                |i: int| g.last().0,
            ));
            assert(keys =~= ks.push(k));
            assert(flatten_keys(g2) =~= keys);
        } else {
            let g2 = g.push((k, seq![a]));
            assert(g2.drop_last() =~= g);
            assert(keys =~= ks.push(k));
            assert(flatten_keys(g2) =~= keys);
        }
    } else {
        assert(keys =~= Seq::<Seq<char>>::empty());
    }
}

/// `a` comes at or before `b` in the order of their chars' code points,
/// character by character, a prefix first (the order `str`'s `<=` uses).
pub open spec fn text_le(a: Seq<char>, b: Seq<char>) -> bool
    decreases a.len(),
{
    if a.len() == 0 {
        true
    } else if b.len() == 0 {
        false
    } else if a[0] != b[0] {
        (a[0] as u32) < (b[0] as u32)
    } else {
        text_le(a.drop_first(), b.drop_first())
    }
}

/// Each key comes at or before the key before it.
pub open spec fn non_increasing(keys: Seq<Seq<char>>) -> bool {
    forall|i: int, j: int| 0 <= i && j == i + 1 && j < keys.len() ==> text_le(#[trigger] keys[j], #[trigger] keys[i])
}

/// Each run's key comes strictly before the key of the run before it.
pub open spec fn runs_decreasing<T>(g: Seq<(Seq<char>, Seq<T>)>) -> bool {
    forall|i: int, j: int|
        0 <= i && j == i + 1 && j < g.len() ==> text_le(#[trigger] g[j].0, #[trigger] g[i].0) && g[j].0
            != g[i].0
}

/// Grouping entries whose keys never increase gives runs whose keys strictly
/// decrease: with dates newest first, each day comes before the older days.
pub proof fn lemma_group_runs_decreasing<T>(keys: Seq<Seq<char>>, items: Seq<T>)
    requires
        keys.len() == items.len(),
        non_increasing(keys),
    ensures
        runs_decreasing(group_runs(keys, items)),
    decreases items.len(),
{
    if items.len() > 0 {
        let ks = keys.drop_last();
        let is = items.drop_last();
        assert forall|i: int, j: int| 0 <= i && j == i + 1 && j < ks.len() implies text_le(
            #[trigger] ks[j],
            #[trigger] ks[i],
        ) by {
            assert(ks[i] == keys[i] && ks[j] == keys[j]);
        }
        lemma_group_runs_decreasing(ks, is);
        lemma_group_runs(ks, is);
        let g = group_runs(ks, is);
        let k = keys.last();
        let a = items.last();
        if g.len() > 0 && g.last().0 == k {
            let g2 = g.update(g.len() - 1, (k, g.last().1.push(a)));
            assert forall|i: int, j: int| 0 <= i && j == i + 1 && j < g2.len() implies text_le(
                #[trigger] g2[j].0,
                #[trigger] g2[i].0,
            ) && g2[j].0 != g2[i].0 by {
                assert(g[i].0 == g2[i].0 && g[j].0 == g2[j].0);
            }
        } else {
            let g2 = g.push((k, seq![a]));
            if g.len() > 0 {
                assert(g.last().0 == ks.last());
                assert(text_le(keys[keys.len() - 1], keys[keys.len() - 2]));
            }
            assert forall|i: int, j: int| 0 <= i && j == i + 1 && j < g2.len() implies text_le(
                #[trigger] g2[j].0,
                #[trigger] g2[i].0,
            ) && g2[j].0 != g2[i].0 by {
                if j < g.len() {
                    assert(g[i] == g2[i] && g[j] == g2[j]);
                }
            }
        }
    }
}

/// The key of every entry, run after run.
pub open spec fn flatten_keys<T>(g: Seq<(Seq<char>, Seq<T>)>) -> Seq<Seq<char>>
    decreases g.len(),
{
    if g.len() == 0 {
        seq![]
    } else {
        flatten_keys(g.drop_last()) + Seq::new(g.last().1.len(), |i: int| g.last().0)
    }
}

fn copy_opt(o: &Option<String>) -> (r: Option<String>)
    ensures
        r == *o,
{
    match o {
        Some(s) => Some(s.clone()),
        None => None,
    }
}

fn first_present_text(a: &Option<String>, b: &Option<String>, c: &Option<String>) -> (r: String)
    ensures
        r@ == first_present(*a, *b, *c),
{
    match a {
        Some(x) => x.clone(),
        None => match b {
            Some(y) => y.clone(),
            None => match c {
                Some(z) => z.clone(),
                None => String::new(),
            },
        },
    }
}

/// An activity as the timeline shows it.
pub fn timeline_activity(a: &Activity) -> (t: TimelineActivity)
    ensures
        shows_activity(t, *a),
{
    TimelineActivity {
        id: a.id.clone(),
        activity_type: a.activity_type.clone(),
        title: first_present_text(&a.title, &a.content, &a.app_name),
        app_name: copy_opt(&a.app_name),
        timestamp: a.timestamp,
        session_id: copy_opt(&a.session_id),
    }
}

/// A session as the timeline shows it.
pub fn timeline_session(s: &Session) -> (t: TimelineSession)
    ensures
        shows_session(t, *s),
{
    TimelineSession {
        id: s.id.clone(),
        session_type: s.session_type.clone(),
        start_time: s.start_time,
        end_time: s.end_time,
        app_sequence: copy_opt(&s.app_sequence),
    }
}

fn copy_timeline_activity(t: &TimelineActivity) -> (r: TimelineActivity)
    ensures
        r == *t,
{
    TimelineActivity {
        id: t.id.clone(),
        activity_type: t.activity_type.clone(),
        title: t.title.clone(),
        app_name: copy_opt(&t.app_name),
        timestamp: t.timestamp,
        session_id: copy_opt(&t.session_id),
    }
}

/// Groups timeline activities into days: each run of consecutive entries
/// with the same date becomes one day, in order.
pub fn group_by_day(dates: Vec<String>, activities: Vec<TimelineActivity>) -> (days: Vec<TimelineDay>)
    requires
        dates.len() == activities.len(),
    ensures
        days_view(days@) == group_runs(dates.deep_view(), activities@),
        non_increasing(dates.deep_view()) ==> runs_decreasing(days_view(days@)),
{
    let ghost keys = dates.deep_view();
    let ghost items = activities@;
    let mut days: Vec<TimelineDay> = Vec::new();
    let mut cur_date = String::new();
    let mut cur: Vec<TimelineActivity> = Vec::new();
    let mut i: usize = 0;
    while i < activities.len()
        invariant
            keys == dates.deep_view(),
            items == activities@,
            dates.len() == activities.len(),
            i <= activities.len(),
            i == 0 ==> days@.len() == 0,
            i > 0 ==> cur_date@ == keys[i - 1],
            group_runs(keys.take(i as int), items.take(i as int)) == if i == 0 {
                days_view(days@)
            } else {
                days_view(days@).push((cur_date@, cur@))
            },
        decreases activities.len() - i,
    {
        let ghost g = group_runs(keys.take(i as int), items.take(i as int));
        let ghost k = keys[i as int];
        proof {
            assert(keys.take(i + 1).drop_last() =~= keys.take(i as int));
            assert(items.take(i + 1).drop_last() =~= items.take(i as int));
            assert(keys.take(i + 1).last() == keys[i as int]);
            assert(items.take(i + 1).last() == items[i as int]);
            assert(keys[i as int] == dates[i as int]@);
        }
        let a = copy_timeline_activity(&activities[i]);
        if i > 0 && same_str(cur_date.as_str(), dates[i].as_str()) {
            let ghost before = cur@;
            cur.push(a);
            proof {
                assert(g.last().0 == k);
                assert(g.update(g.len() - 1, (k, g.last().1.push(items[i as int])))
                    =~= days_view(days@).push((cur_date@, cur@)));
            }
        } else {
            if i > 0 {
                let ghost dv = days_view(days@);
                let ghost done = (cur_date@, cur@);
                days.push(TimelineDay { date: cur_date, activities: cur });
                assert(days_view(days@) =~= dv.push(done));
            }
            cur_date = dates[i].clone();
            cur = Vec::new();
            cur.push(a);
            proof {
                if i == 0 {
                    assert(group_runs(keys.take(0), items.take(0)) =~= Seq::<(Seq<char>, Seq<TimelineActivity>)>::empty());
                }
                assert(cur@ =~= seq![items[i as int]]);
            }
        }
        i += 1;
    }
    assert(keys.take(activities.len() as int) =~= keys);
    assert(items.take(activities.len() as int) =~= items);
    if i > 0 {
        let ghost dv = days_view(days@);
        let ghost done = (cur_date@, cur@);
        days.push(TimelineDay { date: cur_date, activities: cur });
        assert(days_view(days@) =~= dv.push(done));
    } else {
        assert(group_runs(keys, items) =~= Seq::<(Seq<char>, Seq<TimelineActivity>)>::empty());
    }
    proof {
        if non_increasing(keys) {
            lemma_group_runs_decreasing(keys, items);
        }
    }
    days
}

/// The first second of a window of `days` days that ends at `now`.
pub fn timeline_start(now: i64, days: usize) -> (start: i64)
    requires
        days * 86400 <= i64::MAX,
        now - days * 86400 >= i64::MIN,
    ensures
        start == now - days * 86400,
{
    let span = (days as i64) * 86400;
    now - span
}

/// The day text of a timestamp; where chrono has none, the day text of the
/// current time is used instead.
fn day_key(timestamp: i64) -> (d: String)
    ensures
        utc_day_text(timestamp) is Some ==> d@ == utc_day_text(timestamp)->0,
{
    match utc_format(timestamp, "%Y-%m-%d") {
        Some(d) => d,
        None => match utc_format(utc_now_timestamp(), "%Y-%m-%d") {
            Some(d) => d,
            None => String::new(),
        },
    }
}

/// Every activity has a UTC day text.
pub open spec fn all_days_known(activities: Seq<Activity>) -> bool {
    forall|i: int| 0 <= i < activities.len() ==> (#[trigger] utc_day_text(activities[i].timestamp)) is Some
}

/// The UTC day texts of the activities, in order.
pub open spec fn day_texts(activities: Seq<Activity>) -> Seq<Seq<char>> {
    Seq::new(activities.len(), |i: int| utc_day_text(activities[i].timestamp)->0)
}

/// `t` is the timeline of `activities` and `sessions`: the activities, each
/// as the timeline shows it and keyed by its UTC day, grouped into runs of
/// the same day; and the sessions, each as the timeline shows it.  When the
/// activities' day texts never increase (activities newest first), the days
/// come newest first with strictly decreasing dates.
pub open spec fn is_timeline_of(t: Timeline, activities: Seq<Activity>, sessions: Seq<Session>) -> bool {
    &&& all_days_known(activities) && non_increasing(day_texts(activities)) ==> runs_decreasing(
        days_view(t.days@),
    )
    &&& exists|dates: Seq<Seq<char>>, shown: Seq<TimelineActivity>|
        {
            &&& dates.len() == activities.len()
            &&& shown.len() == activities.len()
            &&& forall|i: int|
                0 <= i < activities.len() ==> shows_activity(#[trigger] shown[i], activities[i])
            &&& forall|i: int|
                0 <= i < activities.len() && utc_day_text(activities[i].timestamp) is Some
                    ==> #[trigger] dates[i] == utc_day_text(activities[i].timestamp)->0
            &&& days_view(t.days@) == group_runs(dates, shown)
        }
    &&& t.sessions@.len() == sessions.len()
    &&& forall|i: int| 0 <= i < sessions.len() ==> shows_session(#[trigger] t.sessions@[i], sessions[i])
}

/// Builds the timeline of the given activities (as stored, newest first)
/// and sessions.
pub fn build_timeline(activities: &Vec<Activity>, sessions: &Vec<Session>) -> (t: Timeline)
    ensures
        is_timeline_of(t, activities@, sessions@),
{
    let mut dates: Vec<String> = Vec::new();
    let mut shown: Vec<TimelineActivity> = Vec::new();
    let mut i: usize = 0;
    while i < activities.len()
        invariant
            i <= activities.len(),
            dates.len() == i,
            shown.len() == i,
            forall|j: int| 0 <= j < i ==> shows_activity(#[trigger] shown@[j], activities@[j]),
            forall|j: int|
                0 <= j < i && utc_day_text(activities@[j].timestamp) is Some ==> #[trigger] dates@[j]@
                    == utc_day_text(activities@[j].timestamp)->0,
        decreases activities.len() - i,
    {
        dates.push(day_key(activities[i].timestamp));
        shown.push(timeline_activity(&activities[i]));
        i += 1;
    }
    let ghost keys = dates.deep_view();
    let ghost items = shown@;
    assert forall|j: int|
        0 <= j < activities.len() && utc_day_text(activities@[j].timestamp) is Some
            implies #[trigger] keys[j] == utc_day_text(activities@[j].timestamp)->0 by {
        assert(keys[j] == dates@[j]@);
    }
    let days = group_by_day(dates, shown);
    proof {
        if all_days_known(activities@) {
            assert forall|j: int| 0 <= j < keys.len() implies keys[j] == day_texts(activities@)[j] by {
                assert(utc_day_text(activities@[j].timestamp) is Some);
            }
            assert(keys =~= day_texts(activities@));
        }
    }
    let mut ts: Vec<TimelineSession> = Vec::new();
    let mut k: usize = 0;
    while k < sessions.len()
        invariant
            k <= sessions.len(),
            ts.len() == k,
            forall|j: int| 0 <= j < k ==> shows_session(#[trigger] ts@[j], sessions@[j]),
        decreases sessions.len() - k,
    {
        ts.push(timeline_session(&sessions[k]));
        k += 1;
    }
    let t = Timeline { days, sessions: ts };
    assert(is_timeline_of(t, activities@, sessions@));
    t
}

/// A copy of an activity, equal to it.
pub fn copy_activity(a: &Activity) -> (r: Activity)
    ensures
        r == *a,
{
    Activity {
        id: a.id.clone(),
        activity_type: a.activity_type.clone(),
        app_name: copy_opt(&a.app_name),
        app_bundle_id: copy_opt(&a.app_bundle_id),
        title: copy_opt(&a.title),
        content: copy_opt(&a.content),
        file_path: copy_opt(&a.file_path),
        url: copy_opt(&a.url),
        timestamp: a.timestamp,
        session_id: copy_opt(&a.session_id),
        metadata: copy_opt(&a.metadata),
        created_at: a.created_at,
    }
}

/// The activities that belong to the session `session_id`, in order.
pub open spec fn in_session(activities: Seq<Activity>, session_id: Seq<char>) -> Seq<Activity>
    decreases activities.len(),
{
    if activities.len() == 0 {
        seq![]
    } else {
        in_session(activities.drop_last(), session_id) + if opt_view(activities.last().session_id)
            == Some(session_id) {
            seq![activities.last()]
        } else {
            seq![]
        }
    }
}

/// The activities of `all` that belong to the given session, in order.
pub fn session_activities(all: &Vec<Activity>, session_id: &str) -> (r: Vec<Activity>)
    ensures
        r@ == in_session(all@, session_id@),
{
    let mut out: Vec<Activity> = Vec::new();
    let mut i: usize = 0;
    while i < all.len()
        invariant
            i <= all.len(),
            out@ == in_session(all@.take(i as int), session_id@),
        decreases all.len() - i,
    {
        proof {
            assert(all@.take(i + 1).drop_last() =~= all@.take(i as int));
            assert(all@.take(i + 1).last() == all@[i as int]);
        }
        let keep = match &all[i].session_id {
            Some(s) => same_str(s.as_str(), session_id),
            None => false,
        };
        if keep {
            out.push(copy_activity(&all[i]));
        } else {
            assert(out@ + Seq::<Activity>::empty() =~= out@);
        }
        i += 1;
    }
    assert(all@.take(all.len() as int) =~= all@);
    out
}

/// Filtering by session keeps only activities of that session, and no more
/// than there were.
pub proof fn lemma_in_session(activities: Seq<Activity>, session_id: Seq<char>)
    ensures
        in_session(activities, session_id).len() <= activities.len(),
        forall|i: int|
            0 <= i < in_session(activities, session_id).len() ==> opt_view(
                (#[trigger] in_session(activities, session_id)[i]).session_id,
            ) == Some(session_id),
    decreases activities.len(),
{
    if activities.len() > 0 {
        let d = activities.drop_last();
        lemma_in_session(d, session_id);
        let prev = in_session(d, session_id);
        let extra: Seq<Activity> = if opt_view(activities.last().session_id) == Some(session_id) {
            seq![activities.last()]
        } else {
            seq![]
        };
        assert forall|i: int| 0 <= i < in_session(activities, session_id).len() implies opt_view(
            (#[trigger] in_session(activities, session_id)[i]).session_id,
        ) == Some(session_id) by {
            if i < prev.len() {
                assert(in_session(activities, session_id)[i] == prev[i]);
            } else {
                assert(in_session(activities, session_id)[i] == extra[i - prev.len()]);
            }
        }
    }
}

/// The timeline keeps every activity of the window exactly once and in
/// order: reading its days one after another gives the activities as shown.
pub proof fn lemma_timeline_keeps_activities(t: Timeline, activities: Seq<Activity>, sessions: Seq<Session>)
    requires
        is_timeline_of(t, activities, sessions),
    ensures
        flatten_runs(days_view(t.days@)).len() == activities.len(),
        forall|i: int|
            0 <= i < activities.len() ==> shows_activity(
                #[trigger] flatten_runs(days_view(t.days@))[i],
                activities[i],
            ),
        forall|j: int| 0 <= j < t.days@.len() ==> (#[trigger] t.days@[j]).activities@.len() > 0,
        forall|j: int| 0 <= j < t.days@.len() - 1 ==> (#[trigger] t.days@[j]).date@ != t.days@[j + 1].date@,
{
    let (dates, shown) = choose|dates: Seq<Seq<char>>, shown: Seq<TimelineActivity>|
        {
            &&& dates.len() == activities.len()
            &&& shown.len() == activities.len()
            &&& forall|i: int|
                0 <= i < activities.len() ==> shows_activity(#[trigger] shown[i], activities[i])
            &&& forall|i: int|
                0 <= i < activities.len() && utc_day_text(activities[i].timestamp) is Some
                    ==> #[trigger] dates[i] == utc_day_text(activities[i].timestamp)->0
            &&& days_view(t.days@) == group_runs(dates, shown)
        };
    lemma_group_runs(dates, shown);
    let g = days_view(t.days@);
    assert forall|j: int| 0 <= j < t.days@.len() implies (#[trigger] t.days@[j]).activities@.len() > 0 by {
        assert(g[j] == (t.days@[j].date@, t.days@[j].activities@));
    }
    assert forall|j: int| 0 <= j < t.days@.len() - 1 implies (#[trigger] t.days@[j]).date@ != t.days@[j + 1].date@ by {
        assert(g[j] == (t.days@[j].date@, t.days@[j].activities@));
        assert(g[j + 1] == (t.days@[j + 1].date@, t.days@[j + 1].activities@));
    }
}

/// A timeline entry is titled by the activity's title when it has one, else
/// by its content, else by its application's name, else by the empty text.
pub proof fn lemma_timeline_title_order(t: TimelineActivity, a: Activity)
    requires
        shows_activity(t, a),
    ensures
        a.title matches Some(x) ==> t.title@ == x@,
        a.title is None ==> (a.content matches Some(c) ==> t.title@ == c@),
        a.title is None && a.content is None ==> (a.app_name matches Some(n) ==> t.title@ == n@),
        a.title is None && a.content is None && a.app_name is None ==> t.title@ == Seq::<char>::empty(),
{
}

} // verus!
