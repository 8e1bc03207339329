//! Activity capture decisions: reading the focused application from the
//! system's answer, excluding private applications, deciding when a new
//! session starts and when a focus change is recorded, and which clipboard
//! texts are kept.

use vstd::prelude::*;
use crate::storage::Activity;
use crate::processing::{trim, trim_bounds};
use crate::text::{has_infix, utf8_len, chars_of, string_from_range, same_str, contains_str, utf8_len_at_most};
use crate::external::{lowercase, to_lowercase};

verus! {

broadcast use vstd::string::group_string_axioms;

/// Minutes without activity after which a new session starts.
pub const IDLE_THRESHOLD_MINUTES: i64 = 15;

/// The focused application: its name, bundle id and window title.
#[derive(Debug, Clone)]
pub struct AppInfo {
    pub name: String,
    pub bundle_id: String,
    pub window_title: Option<String>,
}

/// `s` split at each `"||"`, leftmost first, with `cur` before it.
pub open spec fn split_bars_from(s: Seq<char>, cur: Seq<char>) -> Seq<Seq<char>>
    decreases s.len(),
{
    if s.len() == 0 {
        seq![cur]
    } else if s.len() >= 2 && s[0] == '|' && s[1] == '|' {
        seq![cur] + split_bars_from(s.skip(2), seq![])
    } else {
        split_bars_from(s.drop_first(), cur.push(s[0]))
    }
}

/// The pieces of `s` between successive `"||"` separators
/// (`str::split("||")`).
pub open spec fn split_bars(s: Seq<char>) -> Seq<Seq<char>> {
    split_bars_from(s, seq![])
}

/// The application described by the answer `output` of the focus query:
/// its trimmed text split at `"||"` into name, bundle id and, when present
/// and non-empty, window title; none with fewer than two pieces.
pub open spec fn app_info_of(output: Seq<char>) -> Option<(Seq<char>, Seq<char>, Option<Seq<char>>)> {
    let parts = split_bars(trim(output));
    if parts.len() >= 2 {
        Some(
            (
                parts[0],
                parts[1],
                if parts.len() > 2 && parts[2].len() > 0 {
                    Some(parts[2])
                } else {
                    None
                },
            ),
        )
    } else {
        None
    }
}

/// An application as plain values.
pub open spec fn app_view(a: AppInfo) -> (Seq<char>, Seq<char>, Option<Seq<char>>) {
    (
        a.name@,
        a.bundle_id@,
        match a.window_title {
            Some(t) => Some(t@),
            None => None,
        },
    )
}

/// The pieces of `v[from..to]` split at each `"||"`.
fn split_bars_range(v: &Vec<char>, from: usize, to: usize) -> (r: Vec<String>)
    requires
        from <= to <= v.len(),
    ensures
        r.deep_view() == split_bars(v@.subrange(from as int, to as int)),
{
    let ghost s = v@.subrange(from as int, to as int);
    let mut done: Vec<String> = Vec::new();
    let mut start: usize = from;
    let mut i: usize = from;
    assert(v@.subrange(from as int, from as int) =~= Seq::<char>::empty());
    assert(done.deep_view() + split_bars(s) =~= split_bars(s));
    while i < to
        invariant
            from <= start <= i <= to <= v.len(),
            s == v@.subrange(from as int, to as int),
            done.deep_view() + split_bars_from(
                v@.subrange(i as int, to as int),
                v@.subrange(start as int, i as int),
            ) == split_bars(s),
        decreases to - i,
    {
        let ghost rest = v@.subrange(i as int, to as int);
        if i + 1 < to && v[i] == '|' && v[i + 1] == '|' {
            let piece = string_from_range(v, start, i);
            let ghost before = done.deep_view();
            done.push(piece);
            proof {
                assert(rest.skip(2) =~= v@.subrange(i + 2, to as int));
                assert(done.deep_view() =~= before + seq![v@.subrange(start as int, i as int)]);
                assert(v@.subrange(i + 2, i + 2) =~= Seq::<char>::empty());
            }
            i = i + 2;
            start = i;
        } else {
            proof {
                assert(rest.drop_first() =~= v@.subrange(i + 1, to as int));
                assert(v@.subrange(start as int, i as int).push(v@[i as int]) =~= v@.subrange(
                    start as int,
                    i + 1,
                ));
            }
            i = i + 1;
        }
    }
    let piece = string_from_range(v, start, to);
    let ghost before = done.deep_view();
    done.push(piece);
    assert(done.deep_view() =~= before + seq![v@.subrange(start as int, to as int)]);
    done
}

/// Reads the focused application from the answer of the focus query
/// (`name||bundle id||window title`).
pub fn parse_app_info(output: &str) -> (r: Option<AppInfo>)
    ensures
        match r {
            Some(a) => app_info_of(output@) == Some(app_view(a)),
            None => app_info_of(output@) is None,
        },
{
    let v = chars_of(output);
    let (a, b) = trim_bounds(&v);
    let mut parts = split_bars_range(&v, a, b);
    let ghost ps = parts.deep_view();
    if parts.len() < 2 {
        return None;
    }
    let window_title = if parts.len() > 2 && !parts[2].as_str().is_empty() {
        Some(parts[2].clone())
    } else {
        None
    };
    let bundle_id = parts[1].clone();
    let name = parts[0].clone();
    proof {
        assert(ps[0] == parts@[0]@);
        assert(ps[1] == parts@[1]@);
        if parts.len() > 2 {
            assert(ps[2] == parts@[2]@);
        }
    }
    Some(AppInfo { name, bundle_id, window_title })
}

/// Some pattern of `patterns` occurs in `s`.
pub open spec fn any_infix(s: Seq<char>, patterns: Seq<Seq<char>>) -> bool {
    exists|i: int| 0 <= i < patterns.len() && has_infix(s, #[trigger] patterns[i])
}

/// An application is excluded when the lowercase form of one of the
/// excluded names occurs in the lowercase form of its name.
pub open spec fn is_excluded(name: Seq<char>, excluded: Seq<Seq<char>>) -> bool {
    exists|i: int| 0 <= i < excluded.len() && has_infix(lowercase(name), lowercase(#[trigger] excluded[i]))
}

/// Whether one of `patterns` occurs in `s`.
pub fn contains_any(s: &str, patterns: &Vec<String>) -> (b: bool)
    ensures
        b == any_infix(s@, patterns.deep_view()),
{
    let ghost ps = patterns.deep_view();
    let mut i: usize = 0;
    while i < patterns.len()
        invariant
            ps == patterns.deep_view(),
            i <= patterns.len(),
            forall|j: int| 0 <= j < i ==> !has_infix(s@, #[trigger] ps[j]),
        decreases patterns.len() - i,
    {
        if contains_str(s, patterns[i].as_str()) {
            assert(has_infix(s@, ps[i as int]));
            return true;
        }
        i += 1;
    }
    false
}

/// Whether the application called `name` is one the user excluded.
pub fn is_excluded_app(name: &str, excluded_apps: &Vec<String>) -> (b: bool)
    ensures
        b == is_excluded(name@, excluded_apps.deep_view()),
{
    let lowered_name = to_lowercase(name);
    let mut lowered: Vec<String> = Vec::new();
    let mut i: usize = 0;
    while i < excluded_apps.len()
        invariant
            i <= excluded_apps.len(),
            lowered.len() == i,
            forall|j: int| 0 <= j < i ==> (#[trigger] lowered.deep_view()[j]) == lowercase(excluded_apps.deep_view()[j]),
        decreases excluded_apps.len() - i,
    {
        let l = to_lowercase(excluded_apps[i].as_str());
        let ghost before = lowered.deep_view();
        lowered.push(l);
        assert(lowered.deep_view() =~= before.push(lowercase(excluded_apps.deep_view()[i as int])));
        i += 1;
    }
    let b = contains_any(lowered_name.as_str(), &lowered);
    proof {
        if b {
            let j = choose|j: int| 0 <= j < lowered.deep_view().len() && has_infix(lowered_name@, #[trigger] lowered.deep_view()[j]);
            assert(has_infix(lowercase(name@), lowercase(excluded_apps.deep_view()[j])));
        } else {
            assert forall|j: int| 0 <= j < excluded_apps.deep_view().len() implies !has_infix(
                lowercase(name@),
                lowercase(#[trigger] excluded_apps.deep_view()[j]),
            ) by {
                assert(lowered.deep_view()[j] == lowercase(excluded_apps.deep_view()[j]));
            }
        }
    }
    b
}

/// What the focus tracker remembers between samples.
#[derive(Debug, Clone)]
pub struct FocusTracker {
    /// The name of the application last seen focused (empty at first).
    pub last_app: String,
    /// When activity was last seen (Unix seconds).
    pub last_activity_time: i64,
    /// The session new activities belong to.
    pub current_session_id: Option<String>,
}

/// What to do with one sample of the focused application.
#[derive(Debug, Clone, Copy, PartialEq, Eq)]
pub enum FocusPlan {
    /// Capture is off or paused, or the application is excluded: record
    /// nothing, remember nothing.
    Skip,
    /// Track it, first starting a new session when asked to.
    Track { new_session: bool },
}

/// A sample of the application called `name` is tracked: capture is on, not
/// paused, and the application is not excluded.
pub open spec fn is_tracked(
    name: Seq<char>,
    excluded: Seq<Seq<char>>,
    capture_enabled: bool,
    paused: bool,
) -> bool {
    capture_enabled && !paused && !is_excluded(name, excluded)
}

/// The plan for a sample taken at `now`, activity having last been seen at
/// `last_time`.
pub open spec fn plan_spec(last_time: i64, kept: bool, now: i64) -> FocusPlan {
    if kept {
        FocusPlan::Track { new_session: idle_expired(last_time, now) }
    } else {
        FocusPlan::Skip
    }
}

/// More than the idle threshold has passed between `last` and `now`.
pub open spec fn idle_expired(last: i64, now: i64) -> bool {
    now - last > IDLE_THRESHOLD_MINUTES * 60
}

/// The focus activity recorded for `app` in the given session.
pub open spec fn is_focus_activity(a: Activity, app: AppInfo, session: Option<String>) -> bool {
    &&& crate::external::is_uuid_text(a.id@)
    &&& a.activity_type@ == "app_focus"@
    &&& a.app_name matches Some(n) && n@ == app.name@
    &&& a.app_bundle_id matches Some(b) && b@ == app.bundle_id@
    &&& a.title == app.window_title
    &&& a.session_id == session
    &&& a.content is None
    &&& a.file_path is None
    &&& a.url is None
    &&& a.metadata is None
    &&& a.timestamp == a.created_at
}

impl FocusTracker {
    /// A tracker that has seen no application, with activity last seen at
    /// `now` and no session.
    pub fn new(now: i64) -> (t: FocusTracker)
        ensures
            t.last_app@ == Seq::<char>::empty(),
            t.last_activity_time == now,
            t.current_session_id is None,
    {
        FocusTracker { last_app: String::new(), last_activity_time: now, current_session_id: None }
    }

    /// How to handle a sample of `app` taken at `now`: skip it while capture
    /// is off or paused, or when the application is excluded; otherwise track
    /// it, with a new session when the last activity is more than fifteen
    /// minutes old.
    pub fn plan(
        &self,
        app: &AppInfo,
        excluded_apps: &Vec<String>,
        now: i64,
        capture_enabled: bool,
        paused: bool,
    ) -> (p: FocusPlan)
        ensures
            p == plan_spec(
                self.last_activity_time,
                is_tracked(app.name@, excluded_apps.deep_view(), capture_enabled, paused),
                now,
            ),
    {
        if !capture_enabled || paused || is_excluded_app(app.name.as_str(), excluded_apps) {
            return FocusPlan::Skip;
        }
        let gap: i128 = (now as i128) - (self.last_activity_time as i128);
        FocusPlan::Track { new_session: gap > (IDLE_THRESHOLD_MINUTES as i128) * 60 }
    }

    /// Makes `session_id` the current session (none when it could not be
    /// created).
    pub fn begin_session(&mut self, session_id: Option<String>)
        ensures
            final(self).current_session_id == session_id,
            final(self).last_app == old(self).last_app,
            final(self).last_activity_time == old(self).last_activity_time,
    {
        self.current_session_id = session_id;
    }

    /// Takes a tracked sample of `app` at `now`: when the application
    /// changed, returns its focus activity in the current session to record;
    /// the application and the time are remembered either way.
    pub fn observe(&mut self, app: &AppInfo, now: i64) -> (r: Option<Activity>)
        ensures
            r is Some <==> app.name@ != old(self).last_app@,
            r matches Some(a) ==> is_focus_activity(a, *app, old(self).current_session_id),
            (final(self).last_app@, final(self).last_activity_time, r is Some) == observe_spec(
                old(self).last_app@,
                app.name@,
                now,
            ),
            final(self).last_app@ == app.name@,
            final(self).last_activity_time == now,
            final(self).current_session_id == old(self).current_session_id,
    {
        let changed = !same_str(app.name.as_str(), self.last_app.as_str());
        let r = if changed {
            let mut a = Activity::new("app_focus");
            a.app_name = Some(app.name.clone());
            a.app_bundle_id = Some(app.bundle_id.clone());
            a.title = match &app.window_title {
                Some(t) => Some(t.clone()),
                None => None,
            };
            a.session_id = match &self.current_session_id {
                Some(s) => Some(s.clone()),
                None => None,
            };
            self.last_app = app.name.clone();
            Some(a)
        } else {
            None
        };
        self.last_activity_time = now;
        r
    }
}

/// A tracked sample as plain values: from the remembered application, the
/// application and time remembered afterwards, and whether it recorded.
pub open spec fn observe_spec(last_app: Seq<char>, name: Seq<char>, now: i64) -> (Seq<char>, i64, bool) {
    (name, now, name != last_app)
}

/// A focus change is recorded once: a second sample of the same
/// application records nothing.
pub proof fn lemma_focus_recorded_once(last_app: Seq<char>, name: Seq<char>, t1: i64, t2: i64)
    ensures
        !observe_spec(observe_spec(last_app, name, t1).0, name, t2).2,
{
}

impl View for FocusTracker {
    type V = (Seq<char>, i64, Option<String>);

    /// The remembered application name, the time activity was last seen, and
    /// the current session.
    open spec fn view(&self) -> (Seq<char>, i64, Option<String>) {
        (self.last_app@, self.last_activity_time, self.current_session_id)
    }
}

/// One sample of the focus loop, as plain values: the focused application's
/// name, the excluded names, the capture and pause switches, the time, and
/// the session created for the sample where its plan asked for one.
pub struct FocusSample {
    pub name: Seq<char>,
    pub excluded: Seq<Seq<char>>,
    pub capture_enabled: bool,
    pub paused: bool,
    pub now: i64,
    pub created: Option<String>,
}

/// The sample is tracked (see `is_tracked`).
pub open spec fn sample_tracked(x: FocusSample) -> bool {
    is_tracked(x.name, x.excluded, x.capture_enabled, x.paused)
}

/// One sample handled as the focus loop handles it (`plan`, then
/// `begin_session` with the created session where a new one is asked for,
/// then `observe`): the tracker's state afterwards, and the focus change
/// recorded, as the application's name and its session, if any.
pub open spec fn focus_step(s: (Seq<char>, i64, Option<String>), x: FocusSample) -> (
    (Seq<char>, i64, Option<String>),
    Option<(Seq<char>, Option<String>)>,
) {
    match plan_spec(s.1, sample_tracked(x), x.now) {
        FocusPlan::Skip => (s, None),
        FocusPlan::Track { new_session } => {
            let session = if new_session {
                x.created
            } else {
                s.2
            };
            let after = observe_spec(s.0, x.name, x.now);
            (
                (after.0, after.1, session),
                if after.2 {
                    Some((x.name, session))
                } else {
                    None
                },
            )
        },
    }
}

/// The tracker's states over a run of samples from `init`: the state before
/// each sample, then the final one.
pub open spec fn focus_states(init: (Seq<char>, i64, Option<String>), xs: Seq<FocusSample>) -> Seq<
    (Seq<char>, i64, Option<String>),
>
    decreases xs.len(),
{
    if xs.len() == 0 {
        seq![init]
    } else {
        let before = focus_states(init, xs.drop_last());
        before.push(focus_step(before.last(), xs.last()).0)
    }
}

/// What the run records at sample `i`.
pub open spec fn focus_record(init: (Seq<char>, i64, Option<String>), xs: Seq<FocusSample>, i: int) -> Option<
    (Seq<char>, Option<String>),
> {
    focus_step(focus_states(init, xs)[i], xs[i]).1
}

/// The name of the application of the last tracked sample before sample
/// `i` (the initial name when there is none).
pub open spec fn last_tracked_name(init: (Seq<char>, i64, Option<String>), xs: Seq<FocusSample>, i: int) -> Seq<char>
    decreases i,
{
    if i <= 0 {
        init.0
    } else if sample_tracked(xs[i - 1]) {
        xs[i - 1].name
    } else {
        last_tracked_name(init, xs, i - 1)
    }
}

/// The time of the last tracked sample before sample `i` (the initial time
/// when there is none).
pub open spec fn last_tracked_time(init: (Seq<char>, i64, Option<String>), xs: Seq<FocusSample>, i: int) -> i64
    decreases i,
{
    if i <= 0 {
        init.1
    } else if sample_tracked(xs[i - 1]) {
        xs[i - 1].now
    } else {
        last_tracked_time(init, xs, i - 1)
    }
}

/// The session in force before sample `i`: the one created for the latest
/// tracked sample that came more than the idle threshold after the tracked
/// sample before it (or after the start), the initial session when there is
/// none.
pub open spec fn session_before(init: (Seq<char>, i64, Option<String>), xs: Seq<FocusSample>, i: int) -> Option<String>
    decreases i,
{
    if i <= 0 {
        init.2
    } else if sample_tracked(xs[i - 1]) && idle_expired(last_tracked_time(init, xs, i - 1), xs[i - 1].now) {
        xs[i - 1].created
    } else {
        session_before(init, xs, i - 1)
    }
}

proof fn lemma_focus_states_shape(init: (Seq<char>, i64, Option<String>), xs: Seq<FocusSample>)
    ensures
        focus_states(init, xs).len() == xs.len() + 1,
        focus_states(init, xs)[0] == init,
        forall|i: int|
            0 <= i < xs.len() ==> focus_states(init, xs)[i + 1] == focus_step(
                #[trigger] focus_states(init, xs)[i],
                xs[i],
            ).0,
    decreases xs.len(),
{
    if xs.len() > 0 {
        let d = xs.drop_last();
        lemma_focus_states_shape(init, d);
        assert forall|i: int| 0 <= i < xs.len() implies focus_states(init, xs)[i + 1] == focus_step(
            #[trigger] focus_states(init, xs)[i],
            xs[i],
        ).0 by {
            if i < d.len() {
                assert(d[i] == xs[i]);
            }
        }
    }
}

proof fn lemma_focus_state_at(init: (Seq<char>, i64, Option<String>), xs: Seq<FocusSample>, i: int)
    requires
        0 <= i <= xs.len(),
    ensures
        focus_states(init, xs)[i] == (
            last_tracked_name(init, xs, i),
            last_tracked_time(init, xs, i),
            session_before(init, xs, i),
        ),
    decreases i,
{
    lemma_focus_states_shape(init, xs);
    if i > 0 {
        lemma_focus_state_at(init, xs, i - 1);
        assert(focus_states(init, xs)[i] == focus_step(focus_states(init, xs)[i - 1], xs[i - 1]).0);
    }
}

/// Over any run of samples, the sample at `i` is recorded exactly when it is
/// tracked (capture on, not paused, application not excluded) and its
/// application differs from that of the last tracked sample before it (the
/// initial one when none was); what is recorded is that application with the
/// session in force after the sample, which is new exactly at tracked samples
/// more than fifteen minutes after the last tracked one (see
/// `session_before`).
pub proof fn lemma_focus_run(init: (Seq<char>, i64, Option<String>), xs: Seq<FocusSample>, i: int)
    requires
        0 <= i < xs.len(),
    ensures
        focus_record(init, xs, i) is Some <==> sample_tracked(xs[i]) && xs[i].name != last_tracked_name(
            init,
            xs,
            i,
        ),
        focus_record(init, xs, i) matches Some(r) ==> r == (xs[i].name, session_before(init, xs, i + 1)),
{
    lemma_focus_state_at(init, xs, i);
}

/// Two focus changes recorded one after the other in a run, with nothing
/// recorded between them, are of different applications.
pub proof fn lemma_focus_changes_differ(
    init: (Seq<char>, i64, Option<String>),
    xs: Seq<FocusSample>,
    i: int,
    j: int,
)
    requires
        0 <= i < j < xs.len(),
        focus_record(init, xs, i) is Some,
        focus_record(init, xs, j) is Some,
        forall|k: int| i < k < j ==> (#[trigger] focus_record(init, xs, k)) is None,
    ensures
        focus_record(init, xs, i).unwrap().0 != focus_record(init, xs, j).unwrap().0,
{
    lemma_focus_run(init, xs, i);
    lemma_focus_run(init, xs, j);
    lemma_last_name_kept(init, xs, i, j);
}

proof fn lemma_last_name_kept(init: (Seq<char>, i64, Option<String>), xs: Seq<FocusSample>, i: int, m: int)
    requires
        0 <= i < m < xs.len() + 1,
        focus_record(init, xs, i) is Some,
        forall|k: int| i < k < m ==> (#[trigger] focus_record(init, xs, k)) is None,
    ensures
        last_tracked_name(init, xs, m) == xs[i].name,
    decreases m,
{
    lemma_focus_run(init, xs, i);
    if m > i + 1 {
        lemma_last_name_kept(init, xs, i, m - 1);
        assert(focus_record(init, xs, m - 1) is None);
        lemma_focus_run(init, xs, m - 1);
    }
}

/// Clipboard text is kept when it is non-empty and under 10000 bytes.
pub open spec fn keeps_clipboard(text: Seq<char>) -> bool {
    text.len() > 0 && utf8_len(text) < 10000
}

/// The clipboard activity for `text`, when the text is worth keeping.
pub fn clipboard_activity(text: String) -> (r: Option<Activity>)
    ensures
        r is Some <==> keeps_clipboard(text@),
        r matches Some(a) ==> a.activity_type@ == "clipboard"@ && a.content == Some(text)
            && a.title is None && a.app_name is None && a.session_id is None,
{
    let v = chars_of(text.as_str());
    if v.len() == 0 || utf8_len_at_most(&v, 9999) == false {
        return None;
    }
    let mut a = Activity::new("clipboard");
    a.content = Some(text);
    Some(a)
}

/// What the clipboard watcher remembers: the text it read at its last poll
/// that read the clipboard.
#[derive(Debug, Clone)]
pub struct ClipboardWatch {
    pub last_text: Option<String>,
}

impl View for ClipboardWatch {
    type V = Option<Seq<char>>;

    open spec fn view(&self) -> Option<Seq<char>> {
        match self.last_text {
            Some(t) => Some(t@),
            None => None,
        }
    }
}

/// A clipboard poll reads the clipboard: clipboard monitoring and capture
/// are both on and capture is not paused.
pub open spec fn clipboard_read(clipboard_monitoring: bool, capture_enabled: bool, paused: bool) -> bool {
    clipboard_monitoring && capture_enabled && !paused
}

/// The application in front, if known, is one the user excluded.
pub open spec fn front_excluded(front: Option<AppInfo>, excluded: Seq<Seq<char>>) -> bool {
    match front {
        Some(a) => is_excluded(a.name@, excluded),
        None => false,
    }
}

/// One clipboard poll as plain values: from the text read at the last
/// reading poll, the text now on the clipboard, whether this poll reads it
/// and whether an excluded application is in front, the text remembered
/// afterwards and whether the text is recorded.  A reading poll remembers
/// the text; it records it when no excluded application is in front, the
/// text is worth keeping and it differs from the text read last.
pub open spec fn clipboard_poll_spec(
    last: Option<Seq<char>>,
    text: Seq<char>,
    read: bool,
    excluded_front: bool,
) -> (Option<Seq<char>>, bool) {
    if read {
        (Some(text), !excluded_front && keeps_clipboard(text) && last != Some(text))
    } else {
        (last, false)
    }
}

/// Clipboard changes only are recorded: a reading poll that finds the text
/// the reading poll before it found records nothing.
pub proof fn lemma_clipboard_changes_only(
    last: Option<Seq<char>>,
    text: Seq<char>,
    excluded_before: bool,
    excluded_now: bool,
)
    ensures
        !clipboard_poll_spec(clipboard_poll_spec(last, text, true, excluded_before).0, text, true, excluded_now).1,
{
}

impl ClipboardWatch {
    /// A watcher that has read nothing yet.
    pub fn new() -> (w: ClipboardWatch)
        ensures
            w@ is None,
    {
        ClipboardWatch { last_text: None }
    }

    /// One poll finding `text` on the clipboard: returns the clipboard
    /// activity to record, if any, as `clipboard_poll_spec` says, and
    /// remembers what it read.
    pub fn poll(
        &mut self,
        text: String,
        clipboard_monitoring: bool,
        capture_enabled: bool,
        paused: bool,
        frontmost: &Option<AppInfo>,
        excluded_apps: &Vec<String>,
    ) -> (r: Option<Activity>)
        ensures
            (final(self)@, r is Some) == clipboard_poll_spec(
                old(self)@,
                text@,
                clipboard_read(clipboard_monitoring, capture_enabled, paused),
                front_excluded(*frontmost, excluded_apps.deep_view()),
            ),
            r matches Some(a) ==> a.activity_type@ == "clipboard"@ && a.content == Some(text)
                && a.title is None && a.app_name is None && a.session_id is None,
    {
        if !(clipboard_monitoring && capture_enabled && !paused) {
            return None;
        }
        let same = match &self.last_text {
            Some(t) => same_str(t.as_str(), text.as_str()),
            None => false,
        };
        let in_front_excluded = match frontmost {
            Some(a) => is_excluded_app(a.name.as_str(), excluded_apps),
            None => false,
        };
        self.last_text = Some(text.clone());
        if same || in_front_excluded {
            return None;
        }
        clipboard_activity(text)
    }
}

/// A new session starts exactly when a tracked sample comes more than 900
/// seconds (fifteen minutes) after activity was last seen; an untracked
/// sample is skipped.
pub proof fn lemma_idle_threshold(last_time: i64, now: i64)
    ensures
        now - last_time > 900 ==> plan_spec(last_time, true, now) == (FocusPlan::Track { new_session: true }),
        now - last_time <= 900 ==> plan_spec(last_time, true, now) == (FocusPlan::Track { new_session: false }),
        plan_spec(last_time, false, now) == FocusPlan::Skip,
{
}

/// Clipboard text is kept exactly when it is not empty and its UTF-8 form is
/// shorter than 10000 bytes.
pub proof fn lemma_clipboard_size(text: Seq<char>)
    ensures
        text.len() == 0 ==> !keeps_clipboard(text),
        utf8_len(text) >= 10000 ==> !keeps_clipboard(text),
        text.len() > 0 && utf8_len(text) < 10000 ==> keeps_clipboard(text),
{
}

/// An application whose name is one of the excluded names, in any mix of
/// case the lowercase mapping folds, is excluded.
pub proof fn lemma_excluded_by_name(name: Seq<char>, excluded: Seq<Seq<char>>, i: int)
    requires
        0 <= i < excluded.len(),
        lowercase(excluded[i]) == lowercase(name),
    ensures
        is_excluded(name, excluded),
{
    let l = lowercase(name);
    let e = lowercase(excluded[i]);
    assert(l.subrange(0, 0 + e.len() as int) =~= e);
    assert(has_infix(l, e));
}

} // verus!
