//! The cross-project Tasks screen: its query (the shared list filters plus a project
//! filter) and the view query its row actions carry back.
use vstd::prelude::*;
use crate::domain::{Item, ItemKind, Project, ProjectOccurrence, opt_view, clone_opt};
use crate::event_list::{is_stable_order, stable_order, lemma_reordered_keeps_every_entry};
use crate::list_filters::{
    FiltersView, ListFilterQuery, ListFilters, QueryView, from_query_spec, matches_occurrence_spec,
    matches_spec, query_string_spec,
};
use crate::text::{trim, trim_spec, str_eq, str_is_empty, join, join_spec, strings_view};

verus! {

/// The screen's query: every list-filter dimension, and `project` (an id, or absent or
/// `"all"` for every project).
#[derive(Debug, Default, Clone)]
pub struct AllProjectsTasksQuery {
    pub show_complete: Option<String>,
    pub assigned_to: Option<String>,
    pub due_date: Option<String>,
    pub schedule: Option<String>,
    pub recurring: Option<String>,
    pub priority: Option<String>,
    pub project: Option<String>,
}

/// The "+ New Task" dialog's query.
#[derive(Debug, Default, Clone)]
pub struct NewAllProjectsTaskQuery {
    pub project: Option<String>,
    pub show_complete: Option<String>,
}

/// A row checkbox's submission on this screen.
#[derive(Debug, Default, Clone)]
pub struct ToggleAllProjectsTaskForm {
    pub complete: Option<String>,
    /// Whether the screen shows completed items.
    pub show_complete: Option<String>,
}

/// The project filter: the trimmed `project`, unless blank or `"all"`.
pub open spec fn project_filter_spec(project: Option<Seq<char>>) -> Option<Seq<char>> {
    match project {
        Some(p) => if trim_spec(p).len() > 0 && trim_spec(p) != "all"@ {
            Some(trim_spec(p))
        } else {
            None
        },
        None => None,
    }
}

impl AllProjectsTasksQuery {
    pub open spec fn filter_query(&self) -> QueryView {
        QueryView {
            show_complete: opt_view(self.show_complete),
            assigned_to: opt_view(self.assigned_to),
            due_date: opt_view(self.due_date),
            schedule: opt_view(self.schedule),
            recurring: opt_view(self.recurring),
            priority: opt_view(self.priority),
        }
    }

    /// The list filters the query selects.
    pub fn filters(&self) -> (r: ListFilters)
        ensures
            r@ == from_query_spec(self.filter_query()),
    {
        ListFilters::from_query(ListFilterQuery {
            show_complete: clone_opt(&self.show_complete),
            assigned_to: clone_opt(&self.assigned_to),
            due_date: clone_opt(&self.due_date),
            schedule: clone_opt(&self.schedule),
            recurring: clone_opt(&self.recurring),
            priority: clone_opt(&self.priority),
        })
    }

    /// The one project the screen is restricted to, if any.
    pub fn project_filter(&self) -> (r: Option<&str>)
        ensures
            crate::web::opt_str(r) == project_filter_spec(opt_view(self.project)),
    {
        match &self.project {
            Some(p) => {
                let t = trim(p.as_str());
                if str_is_empty(t) || str_eq(t, "all") {
                    None
                } else {
                    Some(t)
                }
            },
            None => None,
        }
    }
}

/// `view=all-tasks`, then the filters' query string when not empty, then `project=<id>`
/// when a project filter is in force.
pub open spec fn all_tasks_params(filters_query: Seq<char>, project_filter: Option<Seq<char>>) -> Seq<Seq<char>> {
    let base = if filters_query.len() > 0 {
        seq!["view=all-tasks"@, filters_query]
    } else {
        seq!["view=all-tasks"@]
    };
    match project_filter {
        Some(p) => base.push("project="@ + p),
        None => base,
    }
}

/// The `?…` suffix a row action on this screen carries so its handler can rebuild the list
/// with the same filters.
pub fn all_tasks_list_query(filters: &ListFilters, project_filter: Option<&str>) -> (r: String)
    ensures
        r@ == "?"@ + join_spec(all_tasks_params(query_string_spec(filters@), crate::web::opt_str(project_filter)), "&"@),
{
    let mut parts: Vec<String> = Vec::new();
    parts.push(String::from_str("view=all-tasks"));
    let suffix = filters.query_string();
    let ghost q = suffix@;
    if !str_is_empty(suffix.as_str()) {
        parts.push(suffix);
    }
    assert(strings_view(parts@) =~= all_tasks_params(q, None));
    match project_filter {
        Some(p) => {
            parts.push(String::from_str("project=").concat(p));
        },
        None => {},
    }
    assert(strings_view(parts@) =~= all_tasks_params(q, crate::web::opt_str(project_filter)));
    String::from_str("?").concat(join(&parts, "&").as_str())
}

// ---- the cross-project list ---------------------------------------------------------

/// What the screen read of one of the user's projects: its top-level items, and its
/// series' occurrence states (read only when the filters show recurring items).
pub struct TasksProject {
    pub project: Project,
    pub items: Vec<Item>,
    pub occurrences: Vec<ProjectOccurrence>,
}

/// A list entry: (is a virtual occurrence, project index, index within that project).
pub type TaskEntry = (bool, usize, usize);

/// The project filter lets the project with this id through.
pub open spec fn project_selected(project_filter: Option<Seq<char>>, id: Seq<char>) -> bool {
    match project_filter {
        Some(p) => p == id,
        None => true,
    }
}

/// A Task the filters keep, judged with its own project's team flag.
pub open spec fn task_item_shown(
    f: FiltersView,
    item: Item,
    requester: Seq<char>,
    is_team_project: bool,
    now: i64,
) -> bool {
    item.kind is Task && matches_spec(f, item, requester, is_team_project, now)
}

/// A Task series' current occurrence that nobody has materialized yet and the filters keep;
/// only when the filters show recurring items.
pub open spec fn task_occurrence_shown(
    f: FiltersView,
    occ: ProjectOccurrence,
    requester: Seq<char>,
    is_team_project: bool,
    now: i64,
) -> bool {
    &&& f.recurring
    &&& occ.item_type is Task
    &&& occ.is_current
    &&& !occ.materialized()
    &&& matches_occurrence_spec(f, occ, requester, is_team_project, now)
}

/// The shown items of project `pi`, in order.
pub open spec fn task_item_entries(
    pi: usize,
    is_team_project: bool,
    items: Seq<Item>,
    f: FiltersView,
    requester: Seq<char>,
    now: i64,
) -> Seq<TaskEntry>
    decreases items.len(),
{
    if items.len() == 0 {
        Seq::empty()
    } else {
        let init = task_item_entries(pi, is_team_project, items.drop_last(), f, requester, now);
        if task_item_shown(f, items.last(), requester, is_team_project, now) {
            init.push((false, pi, (items.len() - 1) as usize))
        } else {
            init
        }
    }
}

/// The shown virtual occurrences of project `pi`, in order.
pub open spec fn task_occurrence_entries(
    pi: usize,
    is_team_project: bool,
    occs: Seq<ProjectOccurrence>,
    f: FiltersView,
    requester: Seq<char>,
    now: i64,
) -> Seq<TaskEntry>
    decreases occs.len(),
{
    if occs.len() == 0 {
        Seq::empty()
    } else {
        let init = task_occurrence_entries(pi, is_team_project, occs.drop_last(), f, requester, now);
        if task_occurrence_shown(f, occs.last(), requester, is_team_project, now) {
            init.push((true, pi, (occs.len() - 1) as usize))
        } else {
            init
        }
    }
}

/// Every shown entry in reading order: project by project (only the filtered project, if
/// any), its items then its occurrences.
pub open spec fn task_entries(
    projects: Seq<TasksProject>,
    f: FiltersView,
    project_filter: Option<Seq<char>>,
    requester: Seq<char>,
    now: i64,
) -> Seq<TaskEntry>
    decreases projects.len(),
{
    if projects.len() == 0 {
        Seq::empty()
    } else {
        let pi = (projects.len() - 1) as usize;
        let p = projects.last();
        let init = task_entries(projects.drop_last(), f, project_filter, requester, now);
        if project_selected(project_filter, p.project.id@) {
            let team = p.project.team_id is Some;
            init + task_item_entries(pi, team, p.items@, f, requester, now)
                + task_occurrence_entries(pi, team, p.occurrences@, f, requester, now)
        } else {
            init
        }
    }
}

/// The date an entry sorts by: an item's due date (undated last), an occurrence's date.
pub open spec fn task_entry_key(projects: Seq<TasksProject>, e: TaskEntry) -> i64 {
    let p = projects[e.1 as int];
    if e.0 {
        p.occurrences@[e.2 as int].occurrence_date
    } else {
        match p.items@[e.2 as int].due_date {
            Some(d) => d,
            None => i64::MAX,
        }
    }
}

pub open spec fn task_entry_keys(projects: Seq<TasksProject>, es: Seq<TaskEntry>) -> Seq<i64> {
    es.map_values(|e: TaskEntry| task_entry_key(projects, e))
}

/// An entry names a shown Task or a shown virtual Task occurrence of a selected project.
pub open spec fn task_entry_valid(
    projects: Seq<TasksProject>,
    f: FiltersView,
    project_filter: Option<Seq<char>>,
    requester: Seq<char>,
    now: i64,
    e: TaskEntry,
) -> bool {
    &&& e.1 < projects.len()
    &&& project_selected(project_filter, projects[e.1 as int].project.id@)
    &&& if e.0 {
        &&& e.2 < projects[e.1 as int].occurrences@.len()
        &&& task_occurrence_shown(
            f,
            projects[e.1 as int].occurrences@[e.2 as int],
            requester,
            projects[e.1 as int].project.team_id is Some,
            now,
        )
    } else {
        &&& e.2 < projects[e.1 as int].items@.len()
        &&& task_item_shown(
            f,
            projects[e.1 as int].items@[e.2 as int],
            requester,
            projects[e.1 as int].project.team_id is Some,
            now,
        )
    }
}

proof fn lemma_item_entries_valid(
    pi: usize,
    is_team_project: bool,
    items: Seq<Item>,
    f: FiltersView,
    requester: Seq<char>,
    now: i64,
)
    requires
        items.len() <= usize::MAX,
    ensures
        forall|k: int|
            0 <= k < task_item_entries(pi, is_team_project, items, f, requester, now).len() ==> {
                let e = #[trigger] task_item_entries(pi, is_team_project, items, f, requester, now)[k];
                &&& !e.0 && e.1 == pi && e.2 < items.len()
                &&& task_item_shown(f, items[e.2 as int], requester, is_team_project, now)
            },
    decreases items.len(),
{
    if items.len() > 0 {
        lemma_item_entries_valid(pi, is_team_project, items.drop_last(), f, requester, now);
        let init = task_item_entries(pi, is_team_project, items.drop_last(), f, requester, now);
        let all = task_item_entries(pi, is_team_project, items, f, requester, now);
        assert forall|k: int| 0 <= k < all.len() implies {
            let e = #[trigger] all[k];
            &&& !e.0 && e.1 == pi && e.2 < items.len()
            &&& task_item_shown(f, items[e.2 as int], requester, is_team_project, now)
        } by {
            if k < init.len() {
                assert(all[k] == init[k]);
                assert(items.drop_last()[init[k].2 as int] == items[init[k].2 as int]);
            }
        }
    }
}

proof fn lemma_occurrence_entries_valid(
    pi: usize,
    is_team_project: bool,
    occs: Seq<ProjectOccurrence>,
    f: FiltersView,
    requester: Seq<char>,
    now: i64,
)
    requires
        occs.len() <= usize::MAX,
    ensures
        forall|k: int|
            0 <= k < task_occurrence_entries(pi, is_team_project, occs, f, requester, now).len() ==> {
                let e = #[trigger] task_occurrence_entries(pi, is_team_project, occs, f, requester, now)[k];
                &&& e.0 && e.1 == pi && e.2 < occs.len()
                &&& task_occurrence_shown(f, occs[e.2 as int], requester, is_team_project, now)
            },
    decreases occs.len(),
{
    if occs.len() > 0 {
        lemma_occurrence_entries_valid(pi, is_team_project, occs.drop_last(), f, requester, now);
        let init = task_occurrence_entries(pi, is_team_project, occs.drop_last(), f, requester, now);
        let all = task_occurrence_entries(pi, is_team_project, occs, f, requester, now);
        assert forall|k: int| 0 <= k < all.len() implies {
            let e = #[trigger] all[k];
            &&& e.0 && e.1 == pi && e.2 < occs.len()
            &&& task_occurrence_shown(f, occs[e.2 as int], requester, is_team_project, now)
        } by {
            if k < init.len() {
                assert(all[k] == init[k]);
                assert(occs.drop_last()[init[k].2 as int] == occs[init[k].2 as int]);
            }
        }
    }
}

/// Every entry of the list names a shown Task or virtual Task occurrence of a selected
/// project.
pub proof fn lemma_task_entries_valid(
    projects: Seq<TasksProject>,
    f: FiltersView,
    project_filter: Option<Seq<char>>,
    requester: Seq<char>,
    now: i64,
)
    requires
        projects.len() <= usize::MAX,
    ensures
        forall|k: int|
            0 <= k < task_entries(projects, f, project_filter, requester, now).len()
                ==> task_entry_valid(
                projects,
                f,
                project_filter,
                requester,
                now,
                #[trigger] task_entries(projects, f, project_filter, requester, now)[k],
            ),
    decreases projects.len(),
{
    if projects.len() > 0 {
        let init = projects.drop_last();
        let pi = (projects.len() - 1) as usize;
        let p = projects.last();
        let team = p.project.team_id is Some;
        lemma_task_entries_valid(init, f, project_filter, requester, now);
        assert(p.items.len() == p.items@.len());
        assert(p.occurrences.len() == p.occurrences@.len());
        lemma_item_entries_valid(pi, team, p.items@, f, requester, now);
        lemma_occurrence_entries_valid(pi, team, p.occurrences@, f, requester, now);
        let a = task_entries(init, f, project_filter, requester, now);
        let b = task_item_entries(pi, team, p.items@, f, requester, now);
        let c = task_occurrence_entries(pi, team, p.occurrences@, f, requester, now);
        let all = task_entries(projects, f, project_filter, requester, now);
        assert(projects[pi as int] == p);
        assert forall|k: int| 0 <= k < all.len() implies task_entry_valid(
            projects,
            f,
            project_filter,
            requester,
            now,
            #[trigger] all[k],
        ) by {
            if k < a.len() {
                assert(all[k] == a[k]);
                let x = a[k];
                assert(task_entry_valid(init, f, project_filter, requester, now, x));
                assert(init[x.1 as int] == projects[x.1 as int]);
            } else if k < a.len() + b.len() {
                assert(all[k] == b[k - a.len()]);
            } else {
                assert(all[k] == c[k - a.len() - b.len()]);
            }
        }
    }
}

/// `r` is the cross-project Tasks list: every shown entry, in a stable order by date.
pub open spec fn all_projects_result(
    projects: Seq<TasksProject>,
    f: FiltersView,
    project_filter: Option<Seq<char>>,
    requester: Seq<char>,
    now: i64,
    r: Seq<TaskEntry>,
) -> bool {
    let all = task_entries(projects, f, project_filter, requester, now);
    exists|p: Seq<usize>|
        {
            &&& #[trigger] is_stable_order(task_entry_keys(projects, all), p)
            &&& r.len() == p.len()
            &&& forall|k: int| 0 <= k < p.len() ==> #[trigger] r[k] == all[p[k] as int]
        }
}

/// The cross-project Tasks list holds only entries of the selected project(s) that the
/// list filters keep: Tasks, and of a series only its current occurrence, while no item
/// stands for it and the filters show recurring items. An occurrence that is not current
/// never appears.
pub proof fn lemma_all_projects_lists_current_task_occurrences(
    projects: Seq<TasksProject>,
    f: FiltersView,
    project_filter: Option<Seq<char>>,
    requester: Seq<char>,
    now: i64,
    r: Seq<TaskEntry>,
)
    requires
        projects.len() <= usize::MAX,
        all_projects_result(projects, f, project_filter, requester, now, r),
    ensures
        forall|k: int|
            0 <= k < r.len() ==> {
                let e = #[trigger] r[k];
                &&& e.1 < projects.len()
                &&& project_filter matches Some(id) ==> id == projects[e.1 as int].project.id@
                &&& e.0 ==> {
                    &&& e.2 < projects[e.1 as int].occurrences@.len()
                    &&& projects[e.1 as int].occurrences@[e.2 as int].is_current
                    &&& projects[e.1 as int].occurrences@[e.2 as int].item_type is Task
                    &&& !projects[e.1 as int].occurrences@[e.2 as int].materialized()
                    &&& f.recurring
                    &&& matches_occurrence_spec(
                        f,
                        projects[e.1 as int].occurrences@[e.2 as int],
                        requester,
                        projects[e.1 as int].project.team_id is Some,
                        now,
                    )
                }
                &&& !e.0 ==> {
                    &&& e.2 < projects[e.1 as int].items@.len()
                    &&& projects[e.1 as int].items@[e.2 as int].kind is Task
                    &&& matches_spec(
                        f,
                        projects[e.1 as int].items@[e.2 as int],
                        requester,
                        projects[e.1 as int].project.team_id is Some,
                        now,
                    )
                }
            },
{
    let all = task_entries(projects, f, project_filter, requester, now);
    lemma_task_entries_valid(projects, f, project_filter, requester, now);
    let p = choose|p: Seq<usize>|
        {
            &&& #[trigger] is_stable_order(task_entry_keys(projects, all), p)
            &&& r.len() == p.len()
            &&& forall|k: int| 0 <= k < p.len() ==> #[trigger] r[k] == all[p[k] as int]
        };
    assert forall|k: int| 0 <= k < r.len() implies {
        let e = #[trigger] r[k];
        &&& e.1 < projects.len()
        &&& project_filter matches Some(id) ==> id == projects[e.1 as int].project.id@
        &&& e.0 ==> {
            &&& e.2 < projects[e.1 as int].occurrences@.len()
            &&& projects[e.1 as int].occurrences@[e.2 as int].is_current
            &&& projects[e.1 as int].occurrences@[e.2 as int].item_type is Task
            &&& !projects[e.1 as int].occurrences@[e.2 as int].materialized()
            &&& f.recurring
            &&& matches_occurrence_spec(
                f,
                projects[e.1 as int].occurrences@[e.2 as int],
                requester,
                projects[e.1 as int].project.team_id is Some,
                now,
            )
        }
        &&& !e.0 ==> {
            &&& e.2 < projects[e.1 as int].items@.len()
            &&& projects[e.1 as int].items@[e.2 as int].kind is Task
            &&& matches_spec(
                f,
                projects[e.1 as int].items@[e.2 as int],
                requester,
                projects[e.1 as int].project.team_id is Some,
                now,
            )
        }
    } by {
        assert(task_entry_keys(projects, all).len() == all.len());
        assert(p[k] < all.len());
        assert(r[k] == all[p[k] as int]);
        assert(task_entry_valid(projects, f, project_filter, requester, now, all[p[k] as int]));
    }
}

proof fn lemma_task_item_entry(pi: usize, is_team_project: bool, items: Seq<Item>, f: FiltersView, requester: Seq<char>, now: i64, j: int)
    requires
        items.len() <= usize::MAX,
        0 <= j < items.len(),
        task_item_shown(f, items[j], requester, is_team_project, now),
    ensures
        task_item_entries(pi, is_team_project, items, f, requester, now).contains((false, pi, j as usize)),
    decreases items.len(),
{
    let init = task_item_entries(pi, is_team_project, items.drop_last(), f, requester, now);
    let all = task_item_entries(pi, is_team_project, items, f, requester, now);
    if j == items.len() - 1 {
        assert(all == init.push((false, pi, j as usize)));
        assert(all[init.len() as int] == (false, pi, j as usize));
    } else {
        assert(items.drop_last()[j] == items[j]);
        lemma_task_item_entry(pi, is_team_project, items.drop_last(), f, requester, now, j);
        let q = choose|q: int| 0 <= q < init.len() && init[q] == (false, pi, j as usize);
        assert(all[q] == init[q]);
    }
}

proof fn lemma_task_occurrence_entry(
    pi: usize,
    is_team_project: bool,
    occs: Seq<ProjectOccurrence>,
    f: FiltersView,
    requester: Seq<char>,
    now: i64,
    j: int,
)
    requires
        occs.len() <= usize::MAX,
        0 <= j < occs.len(),
        task_occurrence_shown(f, occs[j], requester, is_team_project, now),
    ensures
        task_occurrence_entries(pi, is_team_project, occs, f, requester, now).contains((true, pi, j as usize)),
    decreases occs.len(),
{
    let init = task_occurrence_entries(pi, is_team_project, occs.drop_last(), f, requester, now);
    let all = task_occurrence_entries(pi, is_team_project, occs, f, requester, now);
    if j == occs.len() - 1 {
        assert(all == init.push((true, pi, j as usize)));
        assert(all[init.len() as int] == (true, pi, j as usize));
    } else {
        assert(occs.drop_last()[j] == occs[j]);
        lemma_task_occurrence_entry(pi, is_team_project, occs.drop_last(), f, requester, now, j);
        let q = choose|q: int| 0 <= q < init.len() && init[q] == (true, pi, j as usize);
        assert(all[q] == init[q]);
    }
}

proof fn lemma_task_entry_member(
    projects: Seq<TasksProject>,
    f: FiltersView,
    project_filter: Option<Seq<char>>,
    requester: Seq<char>,
    now: i64,
    e: TaskEntry,
)
    requires
        projects.len() <= usize::MAX,
        e.1 < projects.len(),
        project_selected(project_filter, projects[e.1 as int].project.id@),
        e.0 ==> e.2 < projects[e.1 as int].occurrences@.len() && task_occurrence_shown(
            f,
            projects[e.1 as int].occurrences@[e.2 as int],
            requester,
            projects[e.1 as int].project.team_id is Some,
            now,
        ),
        !e.0 ==> e.2 < projects[e.1 as int].items@.len() && task_item_shown(
            f,
            projects[e.1 as int].items@[e.2 as int],
            requester,
            projects[e.1 as int].project.team_id is Some,
            now,
        ),
    ensures
        task_entries(projects, f, project_filter, requester, now).contains(e),
    decreases projects.len(),
{
    let init = projects.drop_last();
    let last = (projects.len() - 1) as usize;
    let p = projects.last();
    let team = p.project.team_id is Some;
    let a = task_entries(init, f, project_filter, requester, now);
    let all = task_entries(projects, f, project_filter, requester, now);
    if e.1 == last {
        let b = task_item_entries(last, team, p.items@, f, requester, now);
        let c = task_occurrence_entries(last, team, p.occurrences@, f, requester, now);
        assert(all == a + b + c);
        assert(p.items.len() == p.items@.len());
        assert(p.occurrences.len() == p.occurrences@.len());
        if e.0 {
            lemma_task_occurrence_entry(last, team, p.occurrences@, f, requester, now, e.2 as int);
            let q = choose|q: int| 0 <= q < c.len() && c[q] == (true, last, e.2);
            assert(all[a.len() + b.len() + q] == c[q]);
        } else {
            lemma_task_item_entry(last, team, p.items@, f, requester, now, e.2 as int);
            let q = choose|q: int| 0 <= q < b.len() && b[q] == (false, last, e.2);
            assert(all[a.len() + q] == b[q]);
        }
    } else {
        assert(init[e.1 as int] == projects[e.1 as int]);
        lemma_task_entry_member(init, f, project_filter, requester, now, e);
        let q = choose|q: int| 0 <= q < a.len() && a[q] == e;
        if project_selected(project_filter, p.project.id@) {
            let b = task_item_entries(last, team, p.items@, f, requester, now);
            let c = task_occurrence_entries(last, team, p.occurrences@, f, requester, now);
            assert(all == a + b + c);
            assert(all[q] == a[q]);
        } else {
            assert(all == a);
        }
    }
}

/// The cross-project Tasks list leaves out nothing it should show: of each selected
/// project (every project, or only the one the project filter names), every Task the list
/// filters keep, and — when the filters show recurring items — every series' current Task
/// occurrence that no item stands for yet and that the filters keep, has its entry.
pub proof fn lemma_all_projects_lists_every_kept_task(
    projects: Seq<TasksProject>,
    f: FiltersView,
    project_filter: Option<Seq<char>>,
    requester: Seq<char>,
    now: i64,
    r: Seq<TaskEntry>,
    e: TaskEntry,
)
    requires
        projects.len() <= usize::MAX,
        all_projects_result(projects, f, project_filter, requester, now, r),
        e.1 < projects.len(),
        project_filter matches Some(id) ==> id == projects[e.1 as int].project.id@,
        e.0 ==> {
            &&& e.2 < projects[e.1 as int].occurrences@.len()
            &&& f.recurring
            &&& projects[e.1 as int].occurrences@[e.2 as int].item_type is Task
            &&& projects[e.1 as int].occurrences@[e.2 as int].is_current
            &&& !projects[e.1 as int].occurrences@[e.2 as int].materialized()
            &&& matches_occurrence_spec(
                f,
                projects[e.1 as int].occurrences@[e.2 as int],
                requester,
                projects[e.1 as int].project.team_id is Some,
                now,
            )
        },
        !e.0 ==> {
            &&& e.2 < projects[e.1 as int].items@.len()
            &&& projects[e.1 as int].items@[e.2 as int].kind is Task
            &&& matches_spec(
                f,
                projects[e.1 as int].items@[e.2 as int],
                requester,
                projects[e.1 as int].project.team_id is Some,
                now,
            )
        },
    ensures
        exists|k: int| 0 <= k < r.len() && r[k] == e,
{
    let all = task_entries(projects, f, project_filter, requester, now);
    lemma_task_entry_member(projects, f, project_filter, requester, now, e);
    let q = choose|q: int| 0 <= q < all.len() && all[q] == e;
    let keys = task_entry_keys(projects, all);
    let p = choose|p: Seq<usize>|
        {
            &&& #[trigger] is_stable_order(keys, p)
            &&& r.len() == p.len()
            &&& forall|k: int| 0 <= k < p.len() ==> #[trigger] r[k] == all[p[k] as int]
        };
    lemma_reordered_keeps_every_entry(all, keys, p, r, q);
}

/// The date an entry of the Tasks list is ordered by, read from the inputs: a Task's due
/// date (an undated Task after every date), an occurrence's date.
pub open spec fn listed_date(projects: Seq<TasksProject>, e: TaskEntry) -> i64 {
    if e.0 {
        projects[e.1 as int].occurrences@[e.2 as int].occurrence_date
    } else {
        match projects[e.1 as int].items@[e.2 as int].due_date {
            Some(d) => d,
            None => i64::MAX,
        }
    }
}

/// The cross-project Tasks list runs by date: no entry comes before one with an earlier
/// date.
pub proof fn lemma_all_projects_list_in_date_order(
    projects: Seq<TasksProject>,
    f: FiltersView,
    project_filter: Option<Seq<char>>,
    requester: Seq<char>,
    now: i64,
    r: Seq<TaskEntry>,
)
    requires
        all_projects_result(projects, f, project_filter, requester, now, r),
    ensures
        forall|a: int, b: int|
            0 <= a < b < r.len() ==> listed_date(projects, #[trigger] r[a]) <= listed_date(projects, #[trigger] r[b]),
{
    let all = task_entries(projects, f, project_filter, requester, now);
    let keys = task_entry_keys(projects, all);
    let p = choose|p: Seq<usize>|
        {
            &&& #[trigger] is_stable_order(keys, p)
            &&& r.len() == p.len()
            &&& forall|k: int| 0 <= k < p.len() ==> #[trigger] r[k] == all[p[k] as int]
        };
    assert forall|a: int, b: int| 0 <= a < b < r.len() implies listed_date(projects, #[trigger] r[a]) <= listed_date(
        projects,
        #[trigger] r[b],
    ) by {
        assert(crate::event_list::precedes(keys, p[a] as int, p[b] as int));
        assert(keys[p[a] as int] == task_entry_key(projects, all[p[a] as int]));
        assert(keys[p[b] as int] == task_entry_key(projects, all[p[b] as int]));
        assert(r[a] == all[p[a] as int] && r[b] == all[p[b] as int]);
    }
}

/// The cross-project Tasks list: every shown Task and (when the filters show recurring
/// items) every shown virtual Task occurrence of the selected projects, ordered by date
/// (undated tasks last); entries with the same date keep their reading order (project by
/// project, items before occurrences).
pub fn all_projects_task_entries(
    projects: &Vec<TasksProject>,
    filters: &ListFilters,
    project_filter: Option<&str>,
    requester: &str,
    now: i64,
) -> (r: Vec<TaskEntry>)
    ensures
        all_projects_result(projects@, filters@, crate::web::opt_str(project_filter), requester@, now, r@),
        forall|k: int|
            0 <= k < r@.len() ==> task_entry_valid(
                projects@,
                filters@,
                crate::web::opt_str(project_filter),
                requester@,
                now,
                #[trigger] r@[k],
            ),
{
    let ghost pf = crate::web::opt_str(project_filter);
    let ghost spec_es = task_entries(projects@, filters@, pf, requester@, now);
    let mut es: Vec<TaskEntry> = Vec::new();
    let mut pi: usize = 0;
    assert(projects@.take(0) =~= Seq::<TasksProject>::empty());
    while pi < projects.len()
        invariant
            pf == crate::web::opt_str(project_filter),
            pi <= projects@.len(),
            es@ == task_entries(projects@.take(pi as int), filters@, pf, requester@, now),
        decreases projects@.len() - pi,
    {
        let p = &projects[pi];
        let selected = match project_filter {
            Some(id) => str_eq(id, p.project.id.as_str()),
            None => true,
        };
        if selected {
            let is_team = p.project.team_id.is_some();
            let ghost before_items = es@;
            let mut j: usize = 0;
            assert(p.items@.take(0) =~= Seq::<Item>::empty());
            while j < p.items.len()
                invariant
                    pi < projects@.len(),
                    *p == projects@[pi as int],
                    is_team == (p.project.team_id is Some),
                    j <= p.items@.len(),
                    es@ == before_items + task_item_entries(pi, is_team, p.items@.take(j as int), filters@, requester@, now),
                decreases p.items@.len() - j,
            {
                assert(p.items@.take(j + 1).drop_last() =~= p.items@.take(j as int));
                let item = &p.items[j];
                let is_task = match item.kind {
                    ItemKind::Task => true,
                    _ => false,
                };
                if is_task && filters.matches(item, requester, is_team, now) {
                    es.push((false, pi, j));
                }
                j = j + 1;
            }
            assert(p.items@.take(p.items@.len() as int) =~= p.items@);
            let ghost before_occs = es@;
            let mut k: usize = 0;
            assert(p.occurrences@.take(0) =~= Seq::<ProjectOccurrence>::empty());
            while k < p.occurrences.len()
                invariant
                    pi < projects@.len(),
                    *p == projects@[pi as int],
                    is_team == (p.project.team_id is Some),
                    k <= p.occurrences@.len(),
                    es@ == before_occs + task_occurrence_entries(pi, is_team, p.occurrences@.take(k as int), filters@, requester@, now),
                decreases p.occurrences@.len() - k,
            {
                assert(p.occurrences@.take(k + 1).drop_last() =~= p.occurrences@.take(k as int));
                let occ = &p.occurrences[k];
                let is_task = match occ.item_type {
                    ItemKind::Task => true,
                    _ => false,
                };
                if filters.recurring && is_task && occ.is_current && !occ.is_materialized()
                    && filters.matches_occurrence(occ, requester, is_team, now) {
                    es.push((true, pi, k));
                }
                k = k + 1;
            }
            assert(p.occurrences@.take(p.occurrences@.len() as int) =~= p.occurrences@);
        }
        assert(projects@.take(pi + 1).drop_last() =~= projects@.take(pi as int));
        assert(projects@.take(pi + 1).last() == projects@[pi as int]);
        pi = pi + 1;
    }
    assert(projects@.take(projects@.len() as int) =~= projects@);
    proof {
        lemma_task_entries_valid(projects@, filters@, pf, requester@, now);
    }
    let mut keys: Vec<i64> = Vec::new();
    let mut i: usize = 0;
    while i < es.len()
        invariant
            es@ == spec_es,
            spec_es == task_entries(projects@, filters@, pf, requester@, now),
            forall|m: int| 0 <= m < spec_es.len() ==> task_entry_valid(projects@, filters@, pf, requester@, now, #[trigger] spec_es[m]),
            i <= es@.len(),
            keys@ == task_entry_keys(projects@, spec_es).take(i as int),
        decreases es@.len() - i,
    {
        let e = es[i];
        assert(task_entry_valid(projects@, filters@, pf, requester@, now, spec_es[i as int]));
        let key = if e.0 {
            projects[e.1].occurrences[e.2].occurrence_date
        } else {
            match projects[e.1].items[e.2].due_date {
                Some(d) => d,
                None => i64::MAX,
            }
        };
        keys.push(key);
        assert(keys@ =~= task_entry_keys(projects@, spec_es).take(i + 1));
        i = i + 1;
    }
    assert(keys@ =~= task_entry_keys(projects@, spec_es));
    let order = stable_order(&keys);
    let mut out: Vec<TaskEntry> = Vec::new();
    let mut m: usize = 0;
    while m < order.len()
        invariant
            es@ == spec_es,
            spec_es == task_entries(projects@, filters@, pf, requester@, now),
            forall|q: int| 0 <= q < spec_es.len() ==> task_entry_valid(projects@, filters@, pf, requester@, now, #[trigger] spec_es[q]),
            is_stable_order(task_entry_keys(projects@, spec_es), order@),
            m <= order@.len(),
            out@.len() == m,
            forall|q: int| 0 <= q < m ==> #[trigger] out@[q] == spec_es[order@[q] as int],
        decreases order@.len() - m,
    {
        out.push(es[order[m]]);
        m = m + 1;
    }
    assert forall|q: int| 0 <= q < out@.len() implies task_entry_valid(
        projects@,
        filters@,
        pf,
        requester@,
        now,
        #[trigger] out@[q],
    ) by {
        assert(out@[q] == spec_es[order@[q] as int]);
    }
    out
}

// ---- sub-items nobody has materialized yet ------------------------------------------

/// A sub-item occurrence of a series cycle: its series, the instant of the cycle's own
/// occurrence, the item standing for it once materialized, and its place among its siblings.
pub struct ChildOccurrence {
    pub series_id: String,
    pub parent_occurrence_date: i64,
    pub item_id: Option<String>,
    pub sort_order: i64,
}

/// A sub-item nested under the cycle (`series_id`, `occurrence_ts`) as a virtual row: one
/// of that cycle that has no item yet.
pub open spec fn child_shown(c: ChildOccurrence, series_id: Seq<char>, occurrence_ts: i64) -> bool {
    c.item_id is None && c.series_id@ == series_id && c.parent_occurrence_date == occurrence_ts
}

/// The positions of the shown sub-items, in order.
pub open spec fn child_entries(cs: Seq<ChildOccurrence>, series_id: Seq<char>, occurrence_ts: i64) -> Seq<usize>
    decreases cs.len(),
{
    if cs.len() == 0 {
        Seq::empty()
    } else {
        let init = child_entries(cs.drop_last(), series_id, occurrence_ts);
        if child_shown(cs.last(), series_id, occurrence_ts) {
            init.push((cs.len() - 1) as usize)
        } else {
            init
        }
    }
}

pub open spec fn child_keys(cs: Seq<ChildOccurrence>, es: Seq<usize>) -> Seq<i64> {
    es.map_values(|i: usize| cs[i as int].sort_order)
}

proof fn lemma_child_entries_in_range(cs: Seq<ChildOccurrence>, series_id: Seq<char>, occurrence_ts: i64)
    requires
        cs.len() <= usize::MAX,
    ensures
        forall|k: int|
            0 <= k < child_entries(cs, series_id, occurrence_ts).len() ==> #[trigger] child_entries(
                cs,
                series_id,
                occurrence_ts,
            )[k] < cs.len(),
    decreases cs.len(),
{
    if cs.len() > 0 {
        lemma_child_entries_in_range(cs.drop_last(), series_id, occurrence_ts);
        let init = child_entries(cs.drop_last(), series_id, occurrence_ts);
        let all = child_entries(cs, series_id, occurrence_ts);
        assert forall|k: int| 0 <= k < all.len() implies #[trigger] all[k] < cs.len() by {
            if k < init.len() {
                assert(all[k] == init[k]);
            }
        }
    }
}

/// The virtual sub-item rows nested under the cycle (`series_id`, `occurrence_ts`): none
/// when no sub-item of it lacks an item; otherwise those sub-items in sibling order, ties
/// in the order given.
pub fn virtual_child_entries(children: &Vec<ChildOccurrence>, series_id: &str, occurrence_ts: i64) -> (r: Option<
    Vec<usize>,
>)
    ensures
        r is None <==> child_entries(children@, series_id@, occurrence_ts).len() == 0,
        r matches Some(v) ==> exists|p: Seq<usize>|
            {
                &&& #[trigger] is_stable_order(
                    child_keys(children@, child_entries(children@, series_id@, occurrence_ts)),
                    p,
                )
                &&& v@.len() == p.len()
                &&& forall|k: int|
                    0 <= k < p.len() ==> #[trigger] v@[k] == child_entries(
                        children@,
                        series_id@,
                        occurrence_ts,
                    )[p[k] as int]
            },
{
    let ghost spec_es = child_entries(children@, series_id@, occurrence_ts);
    let mut es: Vec<usize> = Vec::new();
    let mut i: usize = 0;
    assert(children@.take(0) =~= Seq::<ChildOccurrence>::empty());
    while i < children.len()
        invariant
            i <= children@.len(),
            es@ == child_entries(children@.take(i as int), series_id@, occurrence_ts),
        decreases children@.len() - i,
    {
        assert(children@.take(i + 1).drop_last() =~= children@.take(i as int));
        assert(children@.take(i + 1).last() == children@[i as int]);
        let c = &children[i];
        if c.item_id.is_none() && str_eq(c.series_id.as_str(), series_id) && c.parent_occurrence_date
            == occurrence_ts {
            es.push(i);
        }
        i = i + 1;
    }
    assert(children@.take(children@.len() as int) =~= children@);
    if es.len() == 0 {
        return None;
    }
    proof {
        lemma_child_entries_in_range(children@, series_id@, occurrence_ts);
    }
    let mut keys: Vec<i64> = Vec::new();
    let mut m: usize = 0;
    while m < es.len()
        invariant
            es@ == spec_es,
            forall|q: int| 0 <= q < spec_es.len() ==> #[trigger] spec_es[q] < children@.len(),
            m <= es@.len(),
            keys@ == child_keys(children@, spec_es).take(m as int),
        decreases es@.len() - m,
    {
        assert(spec_es[m as int] < children@.len());
        keys.push(children[es[m]].sort_order);
        assert(keys@ =~= child_keys(children@, spec_es).take(m + 1));
        m = m + 1;
    }
    assert(keys@ =~= child_keys(children@, spec_es));
    let order = stable_order(&keys);
    let mut out: Vec<usize> = Vec::new();
    let mut n: usize = 0;
    while n < order.len()
        invariant
            es@ == spec_es,
            is_stable_order(child_keys(children@, spec_es), order@),
            n <= order@.len(),
            out@.len() == n,
            forall|q: int| 0 <= q < n ==> #[trigger] out@[q] == spec_es[order@[q] as int],
        decreases order@.len() - n,
    {
        out.push(es[order[n]]);
        n = n + 1;
    }
    Some(out)
}

} // verus!
