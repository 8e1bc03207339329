//! The parts of search that involve no scores: the text an activity is
//! searched by, and the filters a result must pass.

use vstd::prelude::*;
use crate::storage::Activity;
use crate::text::same_str;

verus! {

broadcast use vstd::string::group_string_axioms;

/// The text an activity is searched (and embedded) by: its content, else its
/// title, else its file path, else its URL.
pub open spec fn search_text(a: Activity) -> Option<Seq<char>> {
    match a.content {
        Some(c) => Some(c@),
        None => match a.title {
            Some(t) => Some(t@),
            None => match a.file_path {
                Some(f) => Some(f@),
                None => match a.url {
                    Some(u) => Some(u@),
                    None => None,
                },
            },
        },
    }
}

/// The text an activity is searched by, if it has any.
pub fn searchable_text(a: &Activity) -> (r: Option<String>)
    ensures
        match r {
            Some(t) => search_text(*a) == Some(t@),
            None => search_text(*a) is None,
        },
{
    match &a.content {
        Some(c) => Some(c.clone()),
        None => match &a.title {
            Some(t) => Some(t.clone()),
            None => match &a.file_path {
                Some(f) => Some(f.clone()),
                None => match &a.url {
                    Some(u) => Some(u.clone()),
                    None => None,
                },
            },
        },
    }
}

/// Whether an activity passes the filters of a search: the given type, the
/// given application, and the given time bounds (inclusive), each only when
/// present.
pub open spec fn passes_filters(
    a: Activity,
    activity_type: Option<Seq<char>>,
    app_name: Option<Seq<char>>,
    start_time: Option<i64>,
    end_time: Option<i64>,
) -> bool {
    &&& activity_type matches Some(t) ==> a.activity_type@ == t
    &&& app_name matches Some(n) ==> (a.app_name matches Some(m) && m@ == n)
    &&& start_time matches Some(s) ==> a.timestamp >= s
    &&& end_time matches Some(e) ==> a.timestamp <= e
}

/// The chars of an optional `&str`, if present.
pub open spec fn opt_str(o: Option<&str>) -> Option<Seq<char>> {
    match o {
        Some(s) => Some(s@),
        None => None,
    }
}

/// Whether an activity passes the filters of a search.
pub fn matches_filters(
    a: &Activity,
    activity_type: Option<&str>,
    app_name: Option<&str>,
    start_time: Option<i64>,
    end_time: Option<i64>,
) -> (b: bool)
    ensures
        b == passes_filters(*a, opt_str(activity_type), opt_str(app_name), start_time, end_time),
{
    if let Some(t) = activity_type {
        if !same_str(a.activity_type.as_str(), t) {
            return false;
        }
    }
    if let Some(n) = app_name {
        match &a.app_name {
            Some(m) => {
                if !same_str(m.as_str(), n) {
                    return false;
                }
            },
            None => {
                return false;
            },
        }
    }
    if let Some(s) = start_time {
        if a.timestamp < s {
            return false;
        }
    }
    if let Some(e) = end_time {
        if a.timestamp > e {
            return false;
        }
    }
    true
}

/// The positions of the activities that pass the filters, in order.
pub open spec fn passing_positions(
    activities: Seq<Activity>,
    activity_type: Option<Seq<char>>,
    app_name: Option<Seq<char>>,
    start_time: Option<i64>,
    end_time: Option<i64>,
) -> Seq<int>
    decreases activities.len(),
{
    if activities.len() == 0 {
        seq![]
    } else {
        let before = passing_positions(activities.drop_last(), activity_type, app_name, start_time, end_time);
        if passes_filters(activities.last(), activity_type, app_name, start_time, end_time) {
            before.push(activities.len() - 1)
        } else {
            before
        }
    }
}

/// The first `limit` entries of `s` (all of them when there are fewer).
pub open spec fn at_most<T>(s: Seq<T>, limit: nat) -> Seq<T> {
    if s.len() <= limit {
        s
    } else {
        s.take(limit as int)
    }
}

/// The positions, in order, of the first `limit` activities that pass the
/// filters: what keeping the results that pass and then cutting them to
/// `limit` leaves.
pub fn filtered_positions(
    activities: &Vec<Activity>,
    activity_type: Option<&str>,
    app_name: Option<&str>,
    start_time: Option<i64>,
    end_time: Option<i64>,
    limit: usize,
) -> (r: Vec<usize>)
    ensures
        r@.map_values(|p: usize| p as int) == at_most(
            passing_positions(activities@, opt_str(activity_type), opt_str(app_name), start_time, end_time),
            limit as nat,
        ),
{
    let ghost t = opt_str(activity_type);
    let ghost n = opt_str(app_name);
    let mut out: Vec<usize> = Vec::new();
    let mut i: usize = 0;
    while i < activities.len()
        invariant
            i <= activities.len(),
            t == opt_str(activity_type),
            n == opt_str(app_name),
            out@.map_values(|p: usize| p as int) == at_most(
                passing_positions(activities@.take(i as int), t, n, start_time, end_time),
                limit as nat,
            ),
        decreases activities.len() - i,
    {
        let ghost before = passing_positions(activities@.take(i as int), t, n, start_time, end_time);
        assert(activities@.take(i + 1).drop_last() =~= activities@.take(i as int));
        assert(activities@.take(i + 1).last() == activities@[i as int]);
        let ghost old_out = out@;
        if matches_filters(&activities[i], activity_type, app_name, start_time, end_time) {
            if out.len() < limit {
                out.push(i);
                assert(out@.map_values(|p: usize| p as int) =~= old_out.map_values(|p: usize| p as int).push(
                    i as int,
                ));
            } else {
                assert(before.push(i as int).take(limit as int) =~= before.take(limit as int));
            }
        }
        i += 1;
    }
    assert(activities@.take(activities.len() as int) =~= activities@);
    out
}

/// An activity is searched by its content when it has one, else by its
/// title, else by its file path, else by its URL; with none of them it has
/// no searchable text.
pub proof fn lemma_search_text_order(a: Activity)
    ensures
        a.content matches Some(c) ==> search_text(a) == Some(c@),
        a.content is None ==> (a.title matches Some(t) ==> search_text(a) == Some(t@)),
        a.content is None && a.title is None ==> (a.file_path matches Some(f) ==> search_text(a)
            == Some(f@)),
        a.content is None && a.title is None && a.file_path is None ==> (a.url matches Some(u)
            ==> search_text(a) == Some(u@)),
        a.content is None && a.title is None && a.file_path is None && a.url is None
            ==> search_text(a) is None,
{
}

/// The search filters, one by one: with no filter every activity passes; an
/// activity of another type, of another or no application, or from before
/// the start or after the end fails; one that matches every given filter
/// passes.
pub proof fn lemma_filters(
    a: Activity,
    activity_type: Option<Seq<char>>,
    app_name: Option<Seq<char>>,
    start_time: Option<i64>,
    end_time: Option<i64>,
)
    ensures
        passes_filters(a, None, None, None, None),
        activity_type matches Some(t) && a.activity_type@ != t ==> !passes_filters(
            a,
            activity_type,
            app_name,
            start_time,
            end_time,
        ),
        app_name matches Some(n) && a.app_name is None ==> !passes_filters(
            a,
            activity_type,
            app_name,
            start_time,
            end_time,
        ),
        app_name matches Some(n) && a.app_name matches Some(m) && m@ != n ==> !passes_filters(
            a,
            activity_type,
            app_name,
            start_time,
            end_time,
        ),
        start_time matches Some(s) && a.timestamp < s ==> !passes_filters(
            a,
            activity_type,
            app_name,
            start_time,
            end_time,
        ),
        end_time matches Some(e) && a.timestamp > e ==> !passes_filters(
            a,
            activity_type,
            app_name,
            start_time,
            end_time,
        ),
        (activity_type is None || activity_type == Some(a.activity_type@)) && (app_name is None || (
        a.app_name is Some && app_name == Some(a.app_name->0@))) && (start_time is None
            || start_time->0 <= a.timestamp) && (end_time is None || a.timestamp <= end_time->0)
            ==> passes_filters(a, activity_type, app_name, start_time, end_time),
{
}

} // verus!
