//! The cross-project dashboard list: which dated items and virtual occurrences of each of
//! the user's projects it shows, their rows, and one date order over all of them.
use vstd::prelude::*;
use crate::calendar::{
    calendar_date, calendar_date_spec, dashboard_has_time, dashboard_has_time_spec, detail_url,
    detail_url_spec, is_included, is_included_spec, type_symbol, type_symbol_spec,
};
use crate::dates::{label_spec, local_label, opt_label_spec};
use crate::domain::{
    Item, ItemKind, Project, ProjectOccurrence, ts_ok, opt_view, clone_opt, copy_str,
    occurrence_base_url,
};
use crate::event_list::{is_stable_order, listed, lookup, stable_order};
use crate::storage::{DueItem, TeamMemberInfo};
use crate::text::str_eq;

verus! {

/// (user id, display name) of each member of a project's team.
pub open spec fn member_names_ok(names: Seq<(String, String)>, members: Seq<TeamMemberInfo>) -> bool {
    &&& names.len() == members.len()
    &&& forall|i: int|
        0 <= i < members.len() ==> {
            &&& (#[trigger] names[i]).0@ == members[i].user.id@
            &&& names[i].1@ == members[i].user.first_name@ + " "@ + members[i].user.last_name@
        }
}

/// Each member's id with "first last" as their display name.
pub fn member_names(members: &Vec<TeamMemberInfo>) -> (r: Vec<(String, String)>)
    ensures
        member_names_ok(r@, members@),
{
    let mut out: Vec<(String, String)> = Vec::new();
    let mut i: usize = 0;
    while i < members.len()
        invariant
            i <= members@.len(),
            out@.len() == i,
            forall|k: int|
                0 <= k < i ==> {
                    &&& (#[trigger] out@[k]).0@ == members@[k].user.id@
                    &&& out@[k].1@ == members@[k].user.first_name@ + " "@ + members@[k].user.last_name@
                },
        decreases members@.len() - i,
    {
        let u = &members[i].user;
        let name = String::from_str(u.first_name.as_str()).concat(" ").concat(u.last_name.as_str());
        out.push((copy_str(&u.id), name));
        i = i + 1;
    }
    out
}

fn name_of(names: &Vec<(String, String)>, id: &Option<String>) -> (r: Option<String>)
    ensures
        opt_view(r) == (match *id {
            Some(u) => lookup(names@, u@),
            None => None,
        }),
{
    match id {
        Some(u) => crate::event_list::lookup_value(names, u.as_str()),
        None => None,
    }
}

/// One real item on the dashboard.
#[derive(Debug, Clone)]
pub struct MainDashboardRow {
    pub item_id: String,
    pub project_name: String,
    pub name: String,
    pub complete: bool,
    pub date_label: Option<String>,
    pub date_kind_label: &'static str,
    pub overdue: bool,
    pub type_symbol: &'static str,
    pub parent_name: Option<String>,
    pub assignee_name: Option<String>,
    /// The checkbox's route; an Event has none.
    pub toggle_target: Option<String>,
    pub detail_link: String,
    /// What the next click sets `complete` to.
    pub toggle_complete_json: String,
}

/// "Scheduled" for an Event shown by its scheduled date, else "Due".
pub open spec fn date_kind_spec(item: Item) -> Seq<char> {
    if item.kind == ItemKind::Event && item.scheduled_date is Some {
        "Scheduled"@
    } else {
        "Due"@
    }
}

pub open spec fn dashboard_row_ok(
    r: MainDashboardRow,
    di: DueItem,
    project_id: Seq<char>,
    project_name: Seq<char>,
    names: Seq<(String, String)>,
    tz: int,
    now: i64,
) -> bool {
    let item = di.item;
    &&& r.item_id@ == item.id@
    &&& r.project_name@ == project_name
    &&& r.name@ == item.name@
    &&& r.complete == item.complete
    &&& opt_view(r.date_label) == opt_label_spec(calendar_date_spec(item), tz, dashboard_has_time_spec(item))
    &&& r.date_kind_label@ == date_kind_spec(item)
    &&& r.overdue == item.overdue_at(now)
    &&& r.type_symbol@ == type_symbol_spec(item.kind)
    &&& opt_view(r.parent_name) == (if di.parent_name@.len() == 0 { None } else { Some(di.parent_name@) })
    &&& opt_view(r.assignee_name) == (match item.assigned_to_user_id {
        Some(u) => lookup(names, u@),
        None => None,
    })
    &&& opt_view(r.toggle_target) == (if item.kind == ItemKind::Event {
        None
    } else {
        Some("/web/dashboard/projects/"@ + project_id + "/items/"@ + item.id@)
    })
    &&& r.detail_link@ == detail_url_spec(item, project_id)
    &&& r.toggle_complete_json@ == (if item.complete { "false"@ } else { "true"@ })
}

impl MainDashboardRow {
    /// The row of a dated item, overdue as of `now`.
    pub fn from_due_item(
        di: &DueItem,
        project_id: &str,
        project_name: &str,
        names: &Vec<(String, String)>,
        tz: i32,
        now: i64,
    ) -> (r: Self)
        requires
            di.item.dates_ok(),
        ensures
            dashboard_row_ok(r, *di, project_id@, project_name@, names@, tz as int, now),
    {
        let item = &di.item;
        let date_label = match calendar_date(item) {
            Some(d) => Some(local_label(d, tz, dashboard_has_time(item))),
            None => None,
        };
        let date_kind_label = if item.kind == ItemKind::Event && item.scheduled_date.is_some() {
            "Scheduled"
        } else {
            "Due"
        };
        Self {
            item_id: copy_str(&item.id),
            project_name: String::from_str(project_name),
            name: copy_str(&item.name),
            complete: item.complete,
            date_label,
            date_kind_label,
            overdue: item.is_overdue(now),
            type_symbol: type_symbol(item.kind),
            parent_name: if di.parent_name.as_str().unicode_len() == 0 {
                None
            } else {
                Some(copy_str(&di.parent_name))
            },
            assignee_name: name_of(names, &item.assigned_to_user_id),
            toggle_target: if item.kind == ItemKind::Event {
                None
            } else {
                Some(String::from_str("/web/dashboard/projects/").concat(project_id).concat("/items/").concat(
                    item.id.as_str(),
                ))
            },
            detail_link: detail_url(item, project_id),
            toggle_complete_json: if item.complete {
                String::from_str("false")
            } else {
                String::from_str("true")
            },
        }
    }
}

/// A still-virtual occurrence on the dashboard.
#[derive(Debug, Clone)]
pub struct MainDashboardVirtualRow {
    pub series_id: String,
    pub occurrence_ts: i64,
    pub project_name: String,
    pub name: String,
    pub date_label: String,
    pub date_kind_label: &'static str,
    pub type_symbol: &'static str,
    pub title: String,
    pub materialize_url: String,
    pub skip_url: String,
    pub is_current: bool,
    pub assignee_name: Option<String>,
    pub is_skipped: bool,
    pub unskip_url: String,
}

pub open spec fn dashboard_virtual_ok(
    r: MainDashboardVirtualRow,
    occ: ProjectOccurrence,
    project_id: Seq<char>,
    project_name: Seq<char>,
    tz: int,
) -> bool {
    let base = occurrence_base_url(project_id, occ.series_id@, occ.occurrence_date);
    let is_event = occ.item_type == ItemKind::Event;
    &&& r.series_id@ == occ.series_id@
    &&& r.occurrence_ts == occ.occurrence_date
    &&& r.project_name@ == project_name
    &&& r.name@ == occ.series_name@
    &&& r.date_label@ == label_spec(occ.occurrence_date as int, tz, true)
    &&& r.date_kind_label@ == (if is_event { "Scheduled"@ } else { "Due"@ })
    &&& r.type_symbol@ == type_symbol_spec(occ.item_type)
    &&& r.title@ == (if is_event { "Event"@ } else { "Task"@ }) + " (not yet created)"@
    &&& r.materialize_url@ == base
    &&& r.skip_url@ == base + "/skip"@
    &&& r.is_current == occ.is_current
    &&& opt_view(r.assignee_name) == opt_view(occ.assigned_to_user_name)
    &&& r.is_skipped == occ.skipped()
    &&& r.unskip_url@ == base + "/unskip"@
}

impl MainDashboardVirtualRow {
    pub fn from_occurrence(occ: &ProjectOccurrence, project_id: &str, project_name: &str, tz: i32) -> (r: Self)
        requires
            ts_ok(occ.occurrence_date),
        ensures
            dashboard_virtual_ok(r, *occ, project_id@, project_name@, tz as int),
    {
        let is_event = occ.item_type == ItemKind::Event;
        Self {
            series_id: copy_str(&occ.series_id),
            occurrence_ts: occ.occurrence_date,
            project_name: String::from_str(project_name),
            name: copy_str(&occ.series_name),
            date_label: local_label(occ.occurrence_date, tz, true),
            date_kind_label: if is_event {
                "Scheduled"
            } else {
                "Due"
            },
            type_symbol: type_symbol(occ.item_type),
            title: String::from_str(if is_event {
                "Event"
            } else {
                "Task"
            }).concat(" (not yet created)"),
            materialize_url: occ.materialize_url(project_id),
            skip_url: occ.skip_url(project_id),
            is_current: occ.is_current,
            assignee_name: clone_opt(&occ.assigned_to_user_name),
            is_skipped: occ.is_skipped(),
            unskip_url: occ.unskip_url(project_id),
        }
    }
}

// ---- which entries show -----------------------------------------------------------

/// Whether a dashboard date lies in the preset's window; an undated item only shows when
/// the window is unbounded on both sides.
pub open spec fn in_window_spec(d: Option<i64>, after: Option<i64>, before: Option<i64>) -> bool {
    match d {
        Some(d) => (match after {
            Some(a) => d >= a,
            None => true,
        }) && (match before {
            Some(b) => d <= b,
            None => true,
        }),
        None => after is None && before is None,
    }
}

/// A dated item shows when it is the viewer's to see, not hidden as complete, dated if the
/// preset asks for a date, and within the window.
pub open spec fn item_shown_spec(
    item: Item,
    is_team_project: bool,
    user_id: Seq<char>,
    show_complete: bool,
    preset: Seq<char>,
    after: Option<i64>,
    before: Option<i64>,
) -> bool {
    &&& is_included_spec(item.kind, is_team_project, opt_view(item.assigned_to_user_id), user_id)
    &&& (show_complete || !item.complete)
    &&& !(preset == "All with due date"@ && calendar_date_spec(item) is None)
    &&& in_window_spec(calendar_date_spec(item), after, before)
}

/// A virtual occurrence shows unless it was materialized (its item shows instead) or it is
/// not the viewer's to see.
pub open spec fn occurrence_shown_spec(occ: ProjectOccurrence, is_team_project: bool, user_id: Seq<char>) -> bool {
    !occ.materialized() && is_included_spec(occ.item_type, is_team_project, opt_view(occ.assigned_to_user_id), user_id)
}

fn opt_as_str(o: &Option<String>) -> (r: Option<&str>)
    ensures
        crate::web::opt_str(r) == opt_view(*o),
{
    match o {
        Some(s) => Some(s.as_str()),
        None => None,
    }
}

pub fn item_shown(
    item: &Item,
    is_team_project: bool,
    user_id: &str,
    show_complete: bool,
    preset: &str,
    after: Option<i64>,
    before: Option<i64>,
) -> (r: bool)
    ensures
        r == item_shown_spec(*item, is_team_project, user_id@, show_complete, preset@, after, before),
{
    if !is_included(item.kind, is_team_project, opt_as_str(&item.assigned_to_user_id), user_id) {
        return false;
    }
    if !show_complete && item.complete {
        return false;
    }
    let d = calendar_date(item);
    if str_eq(preset, "All with due date") && d.is_none() {
        return false;
    }
    match d {
        Some(d) => (match after {
            Some(a) => d >= a,
            None => true,
        }) && (match before {
            Some(b) => d <= b,
            None => true,
        }),
        None => after.is_none() && before.is_none(),
    }
}

pub fn occurrence_shown(occ: &ProjectOccurrence, is_team_project: bool, user_id: &str) -> (r: bool)
    ensures
        r == occurrence_shown_spec(*occ, is_team_project, user_id@),
{
    !occ.is_materialized() && is_included(occ.item_type, is_team_project, opt_as_str(&occ.assigned_to_user_id), user_id)
}

// ---- the merged list ----------------------------------------------------------------

/// What the dashboard read of one of the user's projects.
pub struct DashboardProject {
    pub project: Project,
    /// (user id, display name) of the team's members; empty on a personal project.
    pub names: Vec<(String, String)>,
    pub due_items: Vec<DueItem>,
    /// The project's virtual occurrences within the window.
    pub occurrences: Vec<ProjectOccurrence>,
}

/// An entry candidate: (is an occurrence, project index, index within that project).
pub type Candidate = (bool, usize, usize);

/// The shown items of project `pi`, in order.
pub open spec fn item_candidates(
    pi: usize,
    project: DashboardProject,
    items: Seq<DueItem>,
    user_id: Seq<char>,
    show_complete: bool,
    preset: Seq<char>,
    after: Option<i64>,
    before: Option<i64>,
) -> Seq<Candidate>
    decreases items.len(),
{
    if items.len() == 0 {
        Seq::empty()
    } else {
        let init = item_candidates(pi, project, items.drop_last(), user_id, show_complete, preset, after, before);
        if item_shown_spec(items.last().item, project.project.team_id is Some, user_id, show_complete, preset, after, before) {
            init.push((false, pi, (items.len() - 1) as usize))
        } else {
            init
        }
    }
}

/// The shown virtual occurrences of project `pi`, in order.
pub open spec fn occurrence_candidates(
    pi: usize,
    project: DashboardProject,
    occs: Seq<ProjectOccurrence>,
    user_id: Seq<char>,
) -> Seq<Candidate>
    decreases occs.len(),
{
    if occs.len() == 0 {
        Seq::empty()
    } else {
        let init = occurrence_candidates(pi, project, occs.drop_last(), user_id);
        if occurrence_shown_spec(occs.last(), project.project.team_id is Some, user_id) {
            init.push((true, pi, (occs.len() - 1) as usize))
        } else {
            init
        }
    }
}

/// Every shown entry: project by project, its items then its occurrences.
pub open spec fn candidates(
    projects: Seq<DashboardProject>,
    user_id: Seq<char>,
    show_complete: bool,
    preset: Seq<char>,
    after: Option<i64>,
    before: Option<i64>,
) -> Seq<Candidate>
    decreases projects.len(),
{
    if projects.len() == 0 {
        Seq::empty()
    } else {
        let pi = (projects.len() - 1) as usize;
        let p = projects.last();
        candidates(projects.drop_last(), user_id, show_complete, preset, after, before)
            + item_candidates(pi, p, p.due_items@, user_id, show_complete, preset, after, before)
            + occurrence_candidates(pi, p, p.occurrences@, user_id)
    }
}

/// The date an entry sorts by: an item's dashboard date (undated last), an occurrence's date.
pub open spec fn candidate_key(projects: Seq<DashboardProject>, c: Candidate) -> i64 {
    let p = projects[c.1 as int];
    if c.0 {
        p.occurrences@[c.2 as int].occurrence_date
    } else {
        match calendar_date_spec(p.due_items@[c.2 as int].item) {
            Some(d) => d,
            None => i64::MAX,
        }
    }
}

pub open spec fn candidate_keys(projects: Seq<DashboardProject>, cands: Seq<Candidate>) -> Seq<i64> {
    cands.map_values(|c: Candidate| candidate_key(projects, c))
}

/// One row of the dashboard list.
#[derive(Debug, Clone)]
pub enum MainDashboardEntry {
    Item(MainDashboardRow),
    Virtual(MainDashboardVirtualRow),
}

pub open spec fn dashboard_entry_ok(
    e: MainDashboardEntry,
    c: Candidate,
    projects: Seq<DashboardProject>,
    tz: int,
    now: i64,
) -> bool {
    let p = projects[c.1 as int];
    if c.0 {
        e matches MainDashboardEntry::Virtual(v) && dashboard_virtual_ok(v, p.occurrences@[c.2 as int], p.project.id@, p.project.name@, tz)
    } else {
        e matches MainDashboardEntry::Item(r) && dashboard_row_ok(r, p.due_items@[c.2 as int], p.project.id@, p.project.name@, p.names@, tz, now)
    }
}

pub open spec fn projects_ok(projects: Seq<DashboardProject>) -> bool {
    forall|i: int|
        0 <= i < projects.len() ==> {
            &&& forall|j: int| 0 <= j < (#[trigger] projects[i]).due_items@.len() ==> (#[trigger] projects[i].due_items@[j]).item.dates_ok()
            &&& forall|j: int| 0 <= j < projects[i].occurrences@.len() ==> ts_ok((#[trigger] projects[i].occurrences@[j]).occurrence_date)
        }
}

proof fn lemma_item_candidates_valid(
    pi: usize,
    project: DashboardProject,
    items: Seq<DueItem>,
    user_id: Seq<char>,
    show_complete: bool,
    preset: Seq<char>,
    after: Option<i64>,
    before: Option<i64>,
)
    requires
        items.len() <= usize::MAX,
    ensures
        forall|k: int|
            0 <= k < item_candidates(pi, project, items, user_id, show_complete, preset, after, before).len() ==> {
                let c = #[trigger] item_candidates(pi, project, items, user_id, show_complete, preset, after, before)[k];
                !c.0 && c.1 == pi && c.2 < items.len()
            },
    decreases items.len(),
{
    if items.len() > 0 {
        lemma_item_candidates_valid(pi, project, items.drop_last(), user_id, show_complete, preset, after, before);
        let init = item_candidates(pi, project, items.drop_last(), user_id, show_complete, preset, after, before);
        let all = item_candidates(pi, project, items, user_id, show_complete, preset, after, before);
        assert forall|k: int| 0 <= k < all.len() implies {
            let c = #[trigger] all[k];
            !c.0 && c.1 == pi && c.2 < items.len()
        } by {
            if k < init.len() {
                assert(all[k] == init[k]);
            }
        }
    }
}

proof fn lemma_occurrence_candidates_valid(pi: usize, project: DashboardProject, occs: Seq<ProjectOccurrence>, user_id: Seq<char>)
    requires
        occs.len() <= usize::MAX,
    ensures
        forall|k: int|
            0 <= k < occurrence_candidates(pi, project, occs, user_id).len() ==> {
                let c = #[trigger] occurrence_candidates(pi, project, occs, user_id)[k];
                c.0 && c.1 == pi && c.2 < occs.len()
            },
    decreases occs.len(),
{
    if occs.len() > 0 {
        lemma_occurrence_candidates_valid(pi, project, occs.drop_last(), user_id);
        let init = occurrence_candidates(pi, project, occs.drop_last(), user_id);
        let all = occurrence_candidates(pi, project, occs, user_id);
        assert forall|k: int| 0 <= k < all.len() implies {
            let c = #[trigger] all[k];
            c.0 && c.1 == pi && c.2 < occs.len()
        } by {
            if k < init.len() {
                assert(all[k] == init[k]);
            }
        }
    }
}

proof fn lemma_candidates_valid(
    projects: Seq<DashboardProject>,
    user_id: Seq<char>,
    show_complete: bool,
    preset: Seq<char>,
    after: Option<i64>,
    before: Option<i64>,
)
    requires
        projects.len() <= usize::MAX,
    ensures
        forall|k: int|
            0 <= k < candidates(projects, user_id, show_complete, preset, after, before).len() ==> {
                let c = #[trigger] candidates(projects, user_id, show_complete, preset, after, before)[k];
                &&& c.1 < projects.len()
                &&& c.0 ==> c.2 < projects[c.1 as int].occurrences@.len()
                &&& !c.0 ==> c.2 < projects[c.1 as int].due_items@.len()
            },
    decreases projects.len(),
{
    if projects.len() > 0 {
        let init = projects.drop_last();
        let pi = (projects.len() - 1) as usize;
        let p = projects.last();
        lemma_candidates_valid(init, user_id, show_complete, preset, after, before);
        assert(p.due_items.len() == p.due_items@.len());
        assert(p.occurrences.len() == p.occurrences@.len());
        lemma_item_candidates_valid(pi, p, p.due_items@, user_id, show_complete, preset, after, before);
        lemma_occurrence_candidates_valid(pi, p, p.occurrences@, user_id);
        let a = candidates(init, user_id, show_complete, preset, after, before);
        let b = item_candidates(pi, p, p.due_items@, user_id, show_complete, preset, after, before);
        let c = occurrence_candidates(pi, p, p.occurrences@, user_id);
        let all = candidates(projects, user_id, show_complete, preset, after, before);
        assert(all == a + b + c);
        assert forall|k: int| 0 <= k < all.len() implies {
            let x = #[trigger] all[k];
            &&& x.1 < projects.len()
            &&& x.0 ==> x.2 < projects[x.1 as int].occurrences@.len()
            &&& !x.0 ==> x.2 < projects[x.1 as int].due_items@.len()
        } by {
            assert(projects[pi as int] == p);
            if k < a.len() {
                assert(all[k] == a[k]);
                let x = a[k];
                assert(x.1 < init.len());
                assert(init[x.1 as int] == projects[x.1 as int]);
            } else if k < a.len() + b.len() {
                assert(all[k] == b[k - a.len()]);
                let x = b[k - a.len()];
                assert(!x.0 && x.1 == pi && x.2 < p.due_items@.len());
            } else {
                assert(all[k] == c[k - a.len() - b.len()]);
                let x = c[k - a.len() - b.len()];
                assert(x.0 && x.1 == pi && x.2 < p.occurrences@.len());
            }
        }
    }
}

/// `r` is the dashboard list: a row for every shown entry, in a stable order by date.
pub open spec fn dashboard_entries_result(
    projects: Seq<DashboardProject>,
    user_id: Seq<char>,
    show_complete: bool,
    preset: Seq<char>,
    after: Option<i64>,
    before: Option<i64>,
    tz: int,
    now: i64,
    r: Seq<MainDashboardEntry>,
) -> bool {
    let cands = candidates(projects, user_id, show_complete, preset, after, before);
    exists|p: Seq<usize>|
        {
            &&& #[trigger] is_stable_order(candidate_keys(projects, cands), p)
            &&& r.len() == p.len()
            &&& forall|k: int| 0 <= k < p.len() ==> dashboard_entry_ok(#[trigger] r[k], cands[p[k] as int], projects, tz, now)
        }
}

proof fn lemma_occurrence_candidate(pi: usize, project: DashboardProject, occs: Seq<ProjectOccurrence>, user_id: Seq<char>, j: int)
    requires
        occs.len() <= usize::MAX,
        0 <= j < occs.len(),
        !occs[j].materialized(),
        is_included_spec(occs[j].item_type, project.project.team_id is Some, opt_view(occs[j].assigned_to_user_id), user_id),
    ensures
        occurrence_candidates(pi, project, occs, user_id).contains((true, pi, j as usize)),
    decreases occs.len(),
{
    let init = occurrence_candidates(pi, project, occs.drop_last(), user_id);
    let all = occurrence_candidates(pi, project, occs, user_id);
    if j == occs.len() - 1 {
        assert(all == init.push((true, pi, j as usize)));
        assert(all[init.len() as int] == (true, pi, j as usize));
    } else {
        assert(occs.drop_last()[j] == occs[j]);
        lemma_occurrence_candidate(pi, project, occs.drop_last(), user_id, j);
        let q = choose|q: int| 0 <= q < init.len() && init[q] == (true, pi, j as usize);
        assert(all[q] == init[q]);
    }
}

proof fn lemma_project_occurrence_candidate(
    projects: Seq<DashboardProject>,
    user_id: Seq<char>,
    show_complete: bool,
    preset: Seq<char>,
    after: Option<i64>,
    before: Option<i64>,
    pi: int,
    j: int,
)
    requires
        projects.len() <= usize::MAX,
        0 <= pi < projects.len(),
        0 <= j < projects[pi].occurrences@.len(),
        !projects[pi].occurrences@[j].materialized(),
        is_included_spec(
            projects[pi].occurrences@[j].item_type,
            projects[pi].project.team_id is Some,
            opt_view(projects[pi].occurrences@[j].assigned_to_user_id),
            user_id,
        ),
    ensures
        candidates(projects, user_id, show_complete, preset, after, before).contains((true, pi as usize, j as usize)),
    decreases projects.len(),
{
    let init = projects.drop_last();
    let last = (projects.len() - 1) as usize;
    let p = projects.last();
    let a = candidates(init, user_id, show_complete, preset, after, before);
    let b = item_candidates(last, p, p.due_items@, user_id, show_complete, preset, after, before);
    let c = occurrence_candidates(last, p, p.occurrences@, user_id);
    let all = candidates(projects, user_id, show_complete, preset, after, before);
    assert(all == a + b + c);
    if pi == last {
        assert(p.occurrences.len() == p.occurrences@.len());
        lemma_occurrence_candidate(last, p, p.occurrences@, user_id, j);
        let q = choose|q: int| 0 <= q < c.len() && c[q] == (true, pi as usize, j as usize);
        assert(all[a.len() + b.len() + q] == c[q]);
    } else {
        assert(init[pi] == projects[pi]);
        lemma_project_occurrence_candidate(init, user_id, show_complete, preset, after, before, pi, j);
        let q = choose|q: int| 0 <= q < a.len() && a[q] == (true, pi as usize, j as usize);
        assert(all[q] == a[q]);
    }
}

spec fn candidate_shown(
    projects: Seq<DashboardProject>,
    user_id: Seq<char>,
    show_complete: bool,
    preset: Seq<char>,
    after: Option<i64>,
    before: Option<i64>,
    c: Candidate,
) -> bool {
    &&& c.1 < projects.len()
    &&& c.0 ==> c.2 < projects[c.1 as int].occurrences@.len() && occurrence_shown_spec(
        projects[c.1 as int].occurrences@[c.2 as int],
        projects[c.1 as int].project.team_id is Some,
        user_id,
    )
    &&& !c.0 ==> c.2 < projects[c.1 as int].due_items@.len() && item_shown_spec(
        projects[c.1 as int].due_items@[c.2 as int].item,
        projects[c.1 as int].project.team_id is Some,
        user_id,
        show_complete,
        preset,
        after,
        before,
    )
}

proof fn lemma_item_candidates_shown(
    pi: usize,
    project: DashboardProject,
    items: Seq<DueItem>,
    user_id: Seq<char>,
    show_complete: bool,
    preset: Seq<char>,
    after: Option<i64>,
    before: Option<i64>,
)
    requires
        items.len() <= usize::MAX,
    ensures
        forall|k: int|
            0 <= k < item_candidates(pi, project, items, user_id, show_complete, preset, after, before).len() ==> {
                let c = #[trigger] item_candidates(pi, project, items, user_id, show_complete, preset, after, before)[k];
                !c.0 && c.1 == pi && c.2 < items.len() && item_shown_spec(
                    items[c.2 as int].item,
                    project.project.team_id is Some,
                    user_id,
                    show_complete,
                    preset,
                    after,
                    before,
                )
            },
    decreases items.len(),
{
    if items.len() > 0 {
        lemma_item_candidates_shown(pi, project, items.drop_last(), user_id, show_complete, preset, after, before);
        let init = item_candidates(pi, project, items.drop_last(), user_id, show_complete, preset, after, before);
        let all = item_candidates(pi, project, items, user_id, show_complete, preset, after, before);
        assert forall|k: int| 0 <= k < all.len() implies {
            let c = #[trigger] all[k];
            !c.0 && c.1 == pi && c.2 < items.len() && item_shown_spec(
                items[c.2 as int].item,
                project.project.team_id is Some,
                user_id,
                show_complete,
                preset,
                after,
                before,
            )
        } by {
            if k < init.len() {
                assert(all[k] == init[k]);
                assert(items.drop_last()[init[k].2 as int] == items[init[k].2 as int]);
            }
        }
    }
}

proof fn lemma_occurrence_candidates_shown(pi: usize, project: DashboardProject, occs: Seq<ProjectOccurrence>, user_id: Seq<char>)
    requires
        occs.len() <= usize::MAX,
    ensures
        forall|k: int|
            0 <= k < occurrence_candidates(pi, project, occs, user_id).len() ==> {
                let c = #[trigger] occurrence_candidates(pi, project, occs, user_id)[k];
                c.0 && c.1 == pi && c.2 < occs.len() && occurrence_shown_spec(
                    occs[c.2 as int],
                    project.project.team_id is Some,
                    user_id,
                )
            },
    decreases occs.len(),
{
    if occs.len() > 0 {
        lemma_occurrence_candidates_shown(pi, project, occs.drop_last(), user_id);
        let init = occurrence_candidates(pi, project, occs.drop_last(), user_id);
        let all = occurrence_candidates(pi, project, occs, user_id);
        assert forall|k: int| 0 <= k < all.len() implies {
            let c = #[trigger] all[k];
            c.0 && c.1 == pi && c.2 < occs.len() && occurrence_shown_spec(
                occs[c.2 as int],
                project.project.team_id is Some,
                user_id,
            )
        } by {
            if k < init.len() {
                assert(all[k] == init[k]);
                assert(occs.drop_last()[init[k].2 as int] == occs[init[k].2 as int]);
            }
        }
    }
}

proof fn lemma_candidates_shown(
    projects: Seq<DashboardProject>,
    user_id: Seq<char>,
    show_complete: bool,
    preset: Seq<char>,
    after: Option<i64>,
    before: Option<i64>,
)
    requires
        projects.len() <= usize::MAX,
    ensures
        forall|k: int|
            0 <= k < candidates(projects, user_id, show_complete, preset, after, before).len() ==> candidate_shown(
                projects,
                user_id,
                show_complete,
                preset,
                after,
                before,
                #[trigger] candidates(projects, user_id, show_complete, preset, after, before)[k],
            ),
    decreases projects.len(),
{
    if projects.len() > 0 {
        let init = projects.drop_last();
        let pi = (projects.len() - 1) as usize;
        let p = projects.last();
        lemma_candidates_shown(init, user_id, show_complete, preset, after, before);
        assert(p.due_items.len() == p.due_items@.len());
        assert(p.occurrences.len() == p.occurrences@.len());
        lemma_item_candidates_shown(pi, p, p.due_items@, user_id, show_complete, preset, after, before);
        lemma_occurrence_candidates_shown(pi, p, p.occurrences@, user_id);
        let a = candidates(init, user_id, show_complete, preset, after, before);
        let b = item_candidates(pi, p, p.due_items@, user_id, show_complete, preset, after, before);
        let c = occurrence_candidates(pi, p, p.occurrences@, user_id);
        let all = candidates(projects, user_id, show_complete, preset, after, before);
        assert(all == a + b + c);
        assert(projects[pi as int] == p);
        assert forall|k: int| 0 <= k < all.len() implies candidate_shown(
            projects,
            user_id,
            show_complete,
            preset,
            after,
            before,
            #[trigger] all[k],
        ) by {
            if k < a.len() {
                assert(all[k] == a[k]);
                let x = a[k];
                assert(candidate_shown(init, user_id, show_complete, preset, after, before, x));
                assert(init[x.1 as int] == projects[x.1 as int]);
            } else if k < a.len() + b.len() {
                assert(all[k] == b[k - a.len()]);
            } else {
                assert(all[k] == c[k - a.len() - b.len()]);
            }
        }
    }
}

proof fn lemma_item_candidate(
    pi: usize,
    project: DashboardProject,
    items: Seq<DueItem>,
    user_id: Seq<char>,
    show_complete: bool,
    preset: Seq<char>,
    after: Option<i64>,
    before: Option<i64>,
    j: int,
)
    requires
        items.len() <= usize::MAX,
        0 <= j < items.len(),
        item_shown_spec(items[j].item, project.project.team_id is Some, user_id, show_complete, preset, after, before),
    ensures
        item_candidates(pi, project, items, user_id, show_complete, preset, after, before).contains((false, pi, j as usize)),
    decreases items.len(),
{
    let init = item_candidates(pi, project, items.drop_last(), user_id, show_complete, preset, after, before);
    let all = item_candidates(pi, project, items, user_id, show_complete, preset, after, before);
    if j == items.len() - 1 {
        assert(all == init.push((false, pi, j as usize)));
        assert(all[init.len() as int] == (false, pi, j as usize));
    } else {
        assert(items.drop_last()[j] == items[j]);
        lemma_item_candidate(pi, project, items.drop_last(), user_id, show_complete, preset, after, before, j);
        let q = choose|q: int| 0 <= q < init.len() && init[q] == (false, pi, j as usize);
        assert(all[q] == init[q]);
    }
}

proof fn lemma_project_item_candidate(
    projects: Seq<DashboardProject>,
    user_id: Seq<char>,
    show_complete: bool,
    preset: Seq<char>,
    after: Option<i64>,
    before: Option<i64>,
    pi: int,
    j: int,
)
    requires
        projects.len() <= usize::MAX,
        0 <= pi < projects.len(),
        0 <= j < projects[pi].due_items@.len(),
        item_shown_spec(
            projects[pi].due_items@[j].item,
            projects[pi].project.team_id is Some,
            user_id,
            show_complete,
            preset,
            after,
            before,
        ),
    ensures
        candidates(projects, user_id, show_complete, preset, after, before).contains((false, pi as usize, j as usize)),
    decreases projects.len(),
{
    let init = projects.drop_last();
    let last = (projects.len() - 1) as usize;
    let p = projects.last();
    let a = candidates(init, user_id, show_complete, preset, after, before);
    let b = item_candidates(last, p, p.due_items@, user_id, show_complete, preset, after, before);
    let c = occurrence_candidates(last, p, p.occurrences@, user_id);
    let all = candidates(projects, user_id, show_complete, preset, after, before);
    assert(all == a + b + c);
    if pi == last {
        assert(p.due_items.len() == p.due_items@.len());
        lemma_item_candidate(last, p, p.due_items@, user_id, show_complete, preset, after, before, j);
        let q = choose|q: int| 0 <= q < b.len() && b[q] == (false, pi as usize, j as usize);
        assert(all[a.len() + q] == b[q]);
    } else {
        assert(init[pi] == projects[pi]);
        lemma_project_item_candidate(init, user_id, show_complete, preset, after, before, pi, j);
        let q = choose|q: int| 0 <= q < a.len() && a[q] == (false, pi as usize, j as usize);
        assert(all[q] == a[q]);
    }
}

/// The dashboard list shows every item it should: an Event, or a Task on a personal
/// project or assigned to the viewer, that is open unless completed items show, has a date
/// (an Event's scheduled date, else its due date) when the preset asks for one, and lies in
/// the window (an undated item only when the window is open on both sides) has its row.
pub proof fn lemma_dashboard_lists_shown_items(
    projects: Seq<DashboardProject>,
    user_id: Seq<char>,
    show_complete: bool,
    preset: Seq<char>,
    after: Option<i64>,
    before: Option<i64>,
    tz: int,
    now: i64,
    r: Seq<MainDashboardEntry>,
    pi: int,
    j: int,
)
    requires
        projects.len() <= usize::MAX,
        dashboard_entries_result(projects, user_id, show_complete, preset, after, before, tz, now, r),
        0 <= pi < projects.len(),
        0 <= j < projects[pi].due_items@.len(),
        projects[pi].due_items@[j].item.kind is Event || (projects[pi].due_items@[j].item.kind is Task && (
        projects[pi].project.team_id is None || opt_view(projects[pi].due_items@[j].item.assigned_to_user_id)
            == Some(user_id))),
        show_complete || !projects[pi].due_items@[j].item.complete,
        match calendar_date_spec(projects[pi].due_items@[j].item) {
            Some(d) => (after matches Some(a) ==> d >= a) && (before matches Some(b) ==> d <= b),
            None => after is None && before is None && preset != "All with due date"@,
        },
    ensures
        exists|k: int|
            0 <= k < r.len() && dashboard_entry_ok(#[trigger] r[k], (false, pi as usize, j as usize), projects, tz, now),
{
    let cands = candidates(projects, user_id, show_complete, preset, after, before);
    lemma_project_item_candidate(projects, user_id, show_complete, preset, after, before, pi, j);
    let q = choose|q: int| 0 <= q < cands.len() && cands[q] == (false, pi as usize, j as usize);
    let p = choose|p: Seq<usize>|
        {
            &&& #[trigger] is_stable_order(candidate_keys(projects, cands), p)
            &&& r.len() == p.len()
            &&& forall|k: int| 0 <= k < p.len() ==> dashboard_entry_ok(#[trigger] r[k], cands[p[k] as int], projects, tz, now)
        };
    assert(candidate_keys(projects, cands).len() == cands.len());
    assert(listed(p, q));
    let a = choose|a: int| 0 <= a < p.len() && p[a] == q;
    assert(dashboard_entry_ok(r[a], cands[p[a] as int], projects, tz, now));
}

/// Candidate `c` is an entry the viewer should see: an occurrence no stored item stands for
/// that the viewer sees (an Event, or a Task on a personal project or assigned to the
/// viewer), or an item the viewer sees that is open unless completed items show, has a date
/// (an Event's scheduled date, else its due date) when the preset asks for one, and lies in
/// the window (an undated item only when the window is open on both sides).
pub open spec fn entry_expected(
    projects: Seq<DashboardProject>,
    user_id: Seq<char>,
    show_complete: bool,
    preset: Seq<char>,
    after: Option<i64>,
    before: Option<i64>,
    c: Candidate,
) -> bool {
    &&& c.1 < projects.len()
    &&& c.0 ==> {
        &&& c.2 < projects[c.1 as int].occurrences@.len()
        &&& !projects[c.1 as int].occurrences@[c.2 as int].materialized()
        &&& projects[c.1 as int].occurrences@[c.2 as int].item_type is Event || (
        projects[c.1 as int].occurrences@[c.2 as int].item_type is Task && (
        projects[c.1 as int].project.team_id is None || opt_view(
            projects[c.1 as int].occurrences@[c.2 as int].assigned_to_user_id,
        ) == Some(user_id)))
    }
    &&& !c.0 ==> {
        &&& c.2 < projects[c.1 as int].due_items@.len()
        &&& projects[c.1 as int].due_items@[c.2 as int].item.kind is Event || (
        projects[c.1 as int].due_items@[c.2 as int].item.kind is Task && (
        projects[c.1 as int].project.team_id is None || opt_view(
            projects[c.1 as int].due_items@[c.2 as int].item.assigned_to_user_id,
        ) == Some(user_id)))
        &&& show_complete || !projects[c.1 as int].due_items@[c.2 as int].item.complete
        &&& match calendar_date_spec(projects[c.1 as int].due_items@[c.2 as int].item) {
            Some(d) => (after matches Some(a) ==> d >= a) && (before matches Some(b) ==> d <= b),
            None => after is None && before is None && preset != "All with due date"@,
        }
    }
}

/// Row `e` is the row of some entry the viewer should see.
pub open spec fn row_expected(
    projects: Seq<DashboardProject>,
    user_id: Seq<char>,
    show_complete: bool,
    preset: Seq<char>,
    after: Option<i64>,
    before: Option<i64>,
    tz: int,
    now: i64,
    e: MainDashboardEntry,
) -> bool {
    exists|c: Candidate|
        #[trigger] entry_expected(projects, user_id, show_complete, preset, after, before, c)
            && dashboard_entry_ok(e, c, projects, tz, now)
}

/// The dashboard list shows nothing it should not: every row is the row of an entry the
/// viewer should see.
pub proof fn lemma_dashboard_holds_only_shown(
    projects: Seq<DashboardProject>,
    user_id: Seq<char>,
    show_complete: bool,
    preset: Seq<char>,
    after: Option<i64>,
    before: Option<i64>,
    tz: int,
    now: i64,
    r: Seq<MainDashboardEntry>,
)
    requires
        projects.len() <= usize::MAX,
        dashboard_entries_result(projects, user_id, show_complete, preset, after, before, tz, now, r),
    ensures
        forall|k: int|
            0 <= k < r.len() ==> row_expected(projects, user_id, show_complete, preset, after, before, tz, now, #[trigger] r[k]),
{
    let cands = candidates(projects, user_id, show_complete, preset, after, before);
    lemma_candidates_shown(projects, user_id, show_complete, preset, after, before);
    let p = choose|p: Seq<usize>|
        {
            &&& #[trigger] is_stable_order(candidate_keys(projects, cands), p)
            &&& r.len() == p.len()
            &&& forall|k: int| 0 <= k < p.len() ==> dashboard_entry_ok(#[trigger] r[k], cands[p[k] as int], projects, tz, now)
        };
    assert forall|k: int| 0 <= k < r.len() implies row_expected(projects, user_id, show_complete, preset, after, before, tz, now, #[trigger] r[k]) by {
        assert(candidate_keys(projects, cands).len() == cands.len());
        let c = cands[p[k] as int];
        assert(candidate_shown(projects, user_id, show_complete, preset, after, before, c));
        assert(dashboard_entry_ok(r[k], c, projects, tz, now));
        assert(entry_expected(projects, user_id, show_complete, preset, after, before, c));
    }
}

/// The dashboard list leaves out no occurrence it should show: every series occurrence that
/// no stored item stands for and that the viewer sees (an Event, or a Task on a personal
/// project or assigned to the viewer) has its virtual row in the list, whether it is still
/// virtual or skipped.
pub proof fn lemma_dashboard_lists_open_occurrences(
    projects: Seq<DashboardProject>,
    user_id: Seq<char>,
    show_complete: bool,
    preset: Seq<char>,
    after: Option<i64>,
    before: Option<i64>,
    tz: int,
    now: i64,
    r: Seq<MainDashboardEntry>,
    pi: int,
    j: int,
)
    requires
        projects.len() <= usize::MAX,
        dashboard_entries_result(projects, user_id, show_complete, preset, after, before, tz, now, r),
        0 <= pi < projects.len(),
        0 <= j < projects[pi].occurrences@.len(),
        !projects[pi].occurrences@[j].materialized(),
        is_included_spec(
            projects[pi].occurrences@[j].item_type,
            projects[pi].project.team_id is Some,
            opt_view(projects[pi].occurrences@[j].assigned_to_user_id),
            user_id,
        ),
    ensures
        exists|k: int|
            0 <= k < r.len() && dashboard_entry_ok(#[trigger] r[k], (true, pi as usize, j as usize), projects, tz, now),
{
    let cands = candidates(projects, user_id, show_complete, preset, after, before);
    lemma_project_occurrence_candidate(projects, user_id, show_complete, preset, after, before, pi, j);
    let q = choose|q: int| 0 <= q < cands.len() && cands[q] == (true, pi as usize, j as usize);
    let p = choose|p: Seq<usize>|
        {
            &&& #[trigger] is_stable_order(candidate_keys(projects, cands), p)
            &&& r.len() == p.len()
            &&& forall|k: int| 0 <= k < p.len() ==> dashboard_entry_ok(#[trigger] r[k], cands[p[k] as int], projects, tz, now)
        };
    assert(candidate_keys(projects, cands).len() == cands.len());
    assert(listed(p, q));
    let a = choose|a: int| 0 <= a < p.len() && p[a] == q;
    assert(dashboard_entry_ok(r[a], cands[p[a] as int], projects, tz, now));
}

/// The dashboard list over all the user's projects: every shown item and virtual occurrence,
/// ordered by date (undated items last); entries with the same date keep the order they
/// were read in (project by project, items before occurrences).
pub fn dashboard_entries(
    projects: &Vec<DashboardProject>,
    user_id: &str,
    show_complete: bool,
    preset: &str,
    after: Option<i64>,
    before: Option<i64>,
    tz: i32,
    now: i64,
) -> (r: Vec<MainDashboardEntry>)
    requires
        projects_ok(projects@),
    ensures
        dashboard_entries_result(projects@, user_id@, show_complete, preset@, after, before, tz as int, now, r@),
{
    let ghost spec_cands = candidates(projects@, user_id@, show_complete, preset@, after, before);
    let mut cands: Vec<Candidate> = Vec::new();
    let mut pi: usize = 0;
    assert(projects@.take(0) =~= Seq::<DashboardProject>::empty());
    while pi < projects.len()
        invariant
            pi <= projects@.len(),
            cands@ == candidates(projects@.take(pi as int), user_id@, show_complete, preset@, after, before),
        decreases projects@.len() - pi,
    {
        let p = &projects[pi];
        let is_team = p.project.team_id.is_some();
        let ghost before_items = cands@;
        let mut j: usize = 0;
        assert(p.due_items@.take(0) =~= Seq::<DueItem>::empty());
        while j < p.due_items.len()
            invariant
                pi < projects@.len(),
                *p == projects@[pi as int],
                is_team == (p.project.team_id is Some),
                j <= p.due_items@.len(),
                cands@ == before_items + item_candidates(pi, *p, p.due_items@.take(j as int), user_id@, show_complete, preset@, after, before),
            decreases p.due_items@.len() - j,
        {
            assert(p.due_items@.take(j + 1).drop_last() =~= p.due_items@.take(j as int));
            if item_shown(&p.due_items[j].item, is_team, user_id, show_complete, preset, after, before) {
                cands.push((false, pi, j));
            }
            j = j + 1;
        }
        assert(p.due_items@.take(p.due_items@.len() as int) =~= p.due_items@);
        let ghost before_occs = cands@;
        let mut k: usize = 0;
        assert(p.occurrences@.take(0) =~= Seq::<ProjectOccurrence>::empty());
        while k < p.occurrences.len()
            invariant
                pi < projects@.len(),
                *p == projects@[pi as int],
                is_team == (p.project.team_id is Some),
                k <= p.occurrences@.len(),
                cands@ == before_occs + occurrence_candidates(pi, *p, p.occurrences@.take(k as int), user_id@),
            decreases p.occurrences@.len() - k,
        {
            assert(p.occurrences@.take(k + 1).drop_last() =~= p.occurrences@.take(k as int));
            if occurrence_shown(&p.occurrences[k], is_team, user_id) {
                cands.push((true, pi, k));
            }
            k = k + 1;
        }
        assert(p.occurrences@.take(p.occurrences@.len() as int) =~= p.occurrences@);
        assert(projects@.take(pi + 1).drop_last() =~= projects@.take(pi as int));
        assert(projects@.take(pi + 1).last() == projects@[pi as int]);
        pi = pi + 1;
    }
    assert(projects@.take(projects@.len() as int) =~= projects@);
    proof {
        lemma_candidates_valid(projects@, user_id@, show_complete, preset@, after, before);
    }
    let mut keys: Vec<i64> = Vec::new();
    let mut i: usize = 0;
    while i < cands.len()
        invariant
            cands@ == spec_cands,
            spec_cands == candidates(projects@, user_id@, show_complete, preset@, after, before),
            forall|m: int|
                0 <= m < spec_cands.len() ==> {
                    let c = #[trigger] spec_cands[m];
                    &&& c.1 < projects@.len()
                    &&& c.0 ==> c.2 < projects@[c.1 as int].occurrences@.len()
                    &&& !c.0 ==> c.2 < projects@[c.1 as int].due_items@.len()
                },
            i <= cands@.len(),
            keys@ == candidate_keys(projects@, spec_cands).take(i as int),
        decreases cands@.len() - i,
    {
        let c = cands[i];
        let key = if c.0 {
            projects[c.1].occurrences[c.2].occurrence_date
        } else {
            match calendar_date(&projects[c.1].due_items[c.2].item) {
                Some(d) => d,
                None => i64::MAX,
            }
        };
        keys.push(key);
        assert(keys@ =~= candidate_keys(projects@, spec_cands).take(i + 1));
        i = i + 1;
    }
    assert(keys@ =~= candidate_keys(projects@, spec_cands));
    let order = stable_order(&keys);
    let mut out: Vec<MainDashboardEntry> = Vec::new();
    let mut m: usize = 0;
    while m < order.len()
        invariant
            projects_ok(projects@),
            cands@ == spec_cands,
            spec_cands == candidates(projects@, user_id@, show_complete, preset@, after, before),
            forall|q: int|
                0 <= q < spec_cands.len() ==> {
                    let c = #[trigger] spec_cands[q];
                    &&& c.1 < projects@.len()
                    &&& c.0 ==> c.2 < projects@[c.1 as int].occurrences@.len()
                    &&& !c.0 ==> c.2 < projects@[c.1 as int].due_items@.len()
                },
            is_stable_order(candidate_keys(projects@, spec_cands), order@),
            m <= order@.len(),
            out@.len() == m,
            forall|q: int|
                0 <= q < m ==> dashboard_entry_ok(#[trigger] out@[q], spec_cands[order@[q] as int], projects@, tz as int, now),
        decreases order@.len() - m,
    {
        let c = cands[order[m]];
        let p = &projects[c.1];
        if c.0 {
            let occ = &p.occurrences[c.2];
            out.push(MainDashboardEntry::Virtual(MainDashboardVirtualRow::from_occurrence(
                occ,
                p.project.id.as_str(),
                p.project.name.as_str(),
                tz,
            )));
        } else {
            out.push(MainDashboardEntry::Item(MainDashboardRow::from_due_item(
                &p.due_items[c.2],
                p.project.id.as_str(),
                p.project.name.as_str(),
                &p.names,
                tz,
                now,
            )));
        }
        m = m + 1;
    }
    out
}

} // verus!
