//! The per-project dashboard: its query, which entries its list and its calendar show, the
//! view query its row actions carry back, and the list's swap body.
use vstd::prelude::*;
use crate::calendar::{CalendarDay, calendar_date, calendar_date_spec, cell_ok, grid_start_spec};
use crate::dashboard_rows::in_window_spec;
use crate::dates::valid_month;
use crate::domain::{Item, ItemKind, ProjectOccurrence, opt_view, ts_ok};
use crate::event_list::listed;
use crate::event_list::{is_stable_order, stable_order, lemma_reordered_keeps_every_entry};
use crate::project_calendar::{
    DayEntry, build_project_calendar_days, counted_item_days, counted_occurrence_days,
    day_entry_keys, day_item_entries, day_occurrence_entries, project_calendar_day_entries,
};
use crate::storage::DueItem;
use crate::text::{join, join_spec, str_eq, strings_view};

verus! {

/// The project dashboard's query: preset, whether completed items show, and whether
/// everyone's items show rather than only the viewer's.
#[derive(Debug, Default, Clone)]
pub struct DashboardQuery {
    pub preset: Option<String>,
    pub show_complete: Option<String>,
    pub assigned_to_any: Option<String>,
}

/// The month (and selected day) the project dashboard's calendar shows.
#[derive(Debug, Default, Clone)]
pub struct CalendarQuery {
    pub year: Option<i32>,
    pub month: Option<u32>,
    pub date: Option<String>,
}

/// A dashboard checkbox's submission.
#[derive(Debug, Default, Clone)]
pub struct ToggleForm {
    pub complete: Option<String>,
}

/// `s` with every space written `%20` (enough for the fixed preset names).
pub open spec fn spaces_escaped(s: Seq<char>) -> Seq<char>
    decreases s.len(),
{
    if s.len() == 0 {
        Seq::empty()
    } else {
        spaces_escaped(s.drop_last()) + (if s.last() == ' ' {
            "%20"@
        } else {
            seq![s.last()]
        })
    }
}

fn escape_spaces(s: &str) -> (r: String)
    ensures
        r@ == spaces_escaped(s@),
{
    let n = s.unicode_len();
    let mut out = String::new();
    let mut i: usize = 0;
    while i < n
        invariant
            n == s@.len(),
            i <= n,
            out@ == spaces_escaped(s@.take(i as int)),
        decreases n - i,
    {
        let c = s.get_char(i);
        assert(s@.take(i + 1).drop_last() =~= s@.take(i as int));
        if c == ' ' {
            out.append("%20");
        } else {
            let one = s.substring_char(i, i + 1);
            assert(one@ =~= seq![c]);
            out.append(one);
        }
        i = i + 1;
    }
    assert(s@.take(n as int) =~= s@);
    out
}

/// The parameters naming this view: the view itself, the preset, and the two toggles when on.
pub open spec fn dashboard_params(preset: Seq<char>, show_complete: bool, assigned_to_any: bool) -> Seq<Seq<char>> {
    let base = seq!["view=project-dashboard"@, "preset="@ + spaces_escaped(preset)];
    let with_complete = if show_complete {
        base.push("showComplete=1"@)
    } else {
        base
    };
    if assigned_to_any {
        with_complete.push("assignedToAny=1"@)
    } else {
        with_complete
    }
}

/// The `?…` query a row action carries so its handler can re-render this same view.
pub fn dashboard_list_query(preset: &str, show_complete: bool, assigned_to_any: bool) -> (r: String)
    ensures
        r@ == "?"@ + join_spec(dashboard_params(preset@, show_complete, assigned_to_any), "&"@),
{
    let mut params: Vec<String> = Vec::new();
    params.push(String::from_str("view=project-dashboard"));
    params.push(String::from_str("preset=").concat(escape_spaces(preset).as_str()));
    let ghost base = dashboard_params(preset@, false, false);
    assert(strings_view(params@) =~= base);
    if show_complete {
        params.push(String::from_str("showComplete=1"));
    }
    let ghost mid = strings_view(params@);
    assert(mid =~= dashboard_params(preset@, show_complete, false));
    if assigned_to_any {
        params.push(String::from_str("assignedToAny=1"));
    }
    assert(strings_view(params@) =~= dashboard_params(preset@, show_complete, assigned_to_any));
    String::from_str("?").concat(join(&params, "&").as_str())
}

/// The list's swap body: the rows, or the "No items." placeholder when there are none.
pub open spec fn items_inner_html_spec(rows: Seq<Seq<char>>) -> Seq<char> {
    if rows.len() == 0 {
        "<li class=\"py-3 text-sm text-gray-500 dark:text-gray-400\">No items.</li>"@
    } else {
        join_spec(rows, ""@)
    }
}

pub fn dashboard_items_inner_html(rows: &Vec<String>) -> (r: String)
    ensures
        r@ == items_inner_html_spec(strings_view(rows@)),
{
    if rows.len() == 0 {
        let r = String::from_str("<li class=\"py-3 text-sm text-gray-500 dark:text-gray-400\">No items.</li>");
        assert(strings_view(rows@).len() == 0);
        r
    } else {
        let r = join(rows, "");
        assert(strings_view(rows@).len() > 0);
        r
    }
}

// ---- the calendar ----------------------------------------------------------------

/// The dashboard calendar's Sunday-first grid: every non-Simple item (completed ones too)
/// and every occurrence no stored item stands for, on its local day; nobody's entries are
/// left out.
pub fn build_dashboard_calendar_days(
    year: i32,
    month: u32,
    due_items: &Vec<DueItem>,
    virtual_occurrences: &Vec<ProjectOccurrence>,
    tz: i32,
    today: i32,
    selected_date: Option<i32>,
) -> (r: Vec<CalendarDay>)
    requires
        valid_month(month),
        -262143 <= year <= 262142,
        forall|i: int| 0 <= i < due_items@.len() ==> (#[trigger] due_items@[i]).item.dates_ok(),
        forall|i: int| 0 <= i < virtual_occurrences@.len() ==> ts_ok((#[trigger] virtual_occurrences@[i]).occurrence_date),
    ensures
        r@.len() == 42,
        forall|i: int|
            0 <= i < 42 ==> cell_ok(
                #[trigger] r@[i],
                grid_start_spec(year as int, month as int, true) + i,
                year as int,
                month as int,
                counted_item_days(due_items@, tz as int, ""@, true, false)
                    + counted_occurrence_days(virtual_occurrences@, tz as int, ""@, true, false),
                today as int,
                selected_date,
            ),
{
    build_project_calendar_days(year, month, due_items, virtual_occurrences, tz, today, selected_date, "", true, false)
}

/// The selected day's list: every non-Simple item and every occurrence no stored item
/// stands for on that local day, ordered by instant, ties in reading order.
pub fn dashboard_day_entries(
    due_items: &Vec<DueItem>,
    occurrences: &Vec<ProjectOccurrence>,
    day: i32,
    tz: i32,
) -> (r: Vec<DayEntry>)
    requires
        forall|i: int| 0 <= i < due_items@.len() ==> (#[trigger] due_items@[i]).item.dates_ok(),
        forall|i: int| 0 <= i < occurrences@.len() ==> ts_ok((#[trigger] occurrences@[i]).occurrence_date),
    ensures
        exists|p: Seq<usize>|
            {
                &&& #[trigger] is_stable_order(
                    day_entry_keys(
                        due_items@,
                        occurrences@,
                        day_item_entries(due_items@, day as int, tz as int, ""@, true, false, None)
                            + day_occurrence_entries(occurrences@, day as int, tz as int, ""@, true, false, None),
                    ),
                    p,
                )
                &&& r@.len() == p.len()
                &&& forall|k: int|
                    0 <= k < p.len() ==> #[trigger] r@[k] == (day_item_entries(due_items@, day as int, tz as int, ""@, true, false, None)
                        + day_occurrence_entries(occurrences@, day as int, tz as int, ""@, true, false, None))[p[k] as int]
            },
{
    project_calendar_day_entries(due_items, occurrences, day, tz, "", true, false, None)
}

// ---- the list --------------------------------------------------------------------

/// A stored item the dashboard list shows: not a Simple item; the viewer's unless everyone's
/// items show; open, or completed when completed items show or it is the one just
/// completed; dated when the preset asks for a date; and within the preset's window.
pub open spec fn list_item_shown(
    item: Item,
    user_id: Seq<char>,
    show_complete: bool,
    assigned_to_any: bool,
    preset: Seq<char>,
    after: Option<i64>,
    before: Option<i64>,
    just_completed: Option<Seq<char>>,
) -> bool {
    &&& !(item.kind is Simple)
    &&& assigned_to_any || opt_view(item.assigned_to_user_id) == Some(user_id)
    &&& show_complete || !item.complete || just_completed == Some(item.id@)
    &&& !(preset == "All with due date"@ && calendar_date_spec(item) is None)
    &&& in_window_spec(calendar_date_spec(item), after, before)
}

/// An occurrence the dashboard list shows: one no stored item stands for, the viewer's
/// unless everyone's items show.
pub open spec fn list_occurrence_shown(occ: ProjectOccurrence, user_id: Seq<char>, assigned_to_any: bool) -> bool {
    !occ.materialized() && (assigned_to_any || opt_view(occ.assigned_to_user_id) == Some(user_id))
}

pub open spec fn list_item_entries(
    items: Seq<DueItem>,
    user_id: Seq<char>,
    show_complete: bool,
    assigned_to_any: bool,
    preset: Seq<char>,
    after: Option<i64>,
    before: Option<i64>,
    just_completed: Option<Seq<char>>,
) -> Seq<DayEntry>
    decreases items.len(),
{
    if items.len() == 0 {
        Seq::empty()
    } else {
        let init = list_item_entries(items.drop_last(), user_id, show_complete, assigned_to_any, preset, after, before, just_completed);
        if list_item_shown(items.last().item, user_id, show_complete, assigned_to_any, preset, after, before, just_completed) {
            init.push((false, (items.len() - 1) as usize))
        } else {
            init
        }
    }
}

pub open spec fn list_occurrence_entries(
    occs: Seq<ProjectOccurrence>,
    user_id: Seq<char>,
    assigned_to_any: bool,
) -> Seq<DayEntry>
    decreases occs.len(),
{
    if occs.len() == 0 {
        Seq::empty()
    } else {
        let init = list_occurrence_entries(occs.drop_last(), user_id, assigned_to_any);
        if list_occurrence_shown(occs.last(), user_id, assigned_to_any) {
            init.push((true, (occs.len() - 1) as usize))
        } else {
            init
        }
    }
}

proof fn lemma_list_entries_in_range(
    items: Seq<DueItem>,
    occs: Seq<ProjectOccurrence>,
    user_id: Seq<char>,
    show_complete: bool,
    assigned_to_any: bool,
    preset: Seq<char>,
    after: Option<i64>,
    before: Option<i64>,
    just_completed: Option<Seq<char>>,
)
    requires
        items.len() <= usize::MAX,
        occs.len() <= usize::MAX,
    ensures
        forall|k: int|
            0 <= k < list_item_entries(items, user_id, show_complete, assigned_to_any, preset, after, before, just_completed).len() ==> {
                let e = #[trigger] list_item_entries(items, user_id, show_complete, assigned_to_any, preset, after, before, just_completed)[k];
                !e.0 && e.1 < items.len()
            },
        forall|k: int|
            0 <= k < list_occurrence_entries(occs, user_id, assigned_to_any).len() ==> {
                let e = #[trigger] list_occurrence_entries(occs, user_id, assigned_to_any)[k];
                e.0 && e.1 < occs.len()
            },
    decreases items.len() + occs.len(),
{
    if items.len() > 0 {
        lemma_list_entries_in_range(items.drop_last(), occs, user_id, show_complete, assigned_to_any, preset, after, before, just_completed);
        let init = list_item_entries(items.drop_last(), user_id, show_complete, assigned_to_any, preset, after, before, just_completed);
        let all = list_item_entries(items, user_id, show_complete, assigned_to_any, preset, after, before, just_completed);
        assert forall|k: int| 0 <= k < all.len() implies {
            let e = #[trigger] all[k];
            !e.0 && e.1 < items.len()
        } by {
            if k < init.len() {
                assert(all[k] == init[k]);
            }
        }
    }
    if occs.len() > 0 {
        lemma_list_entries_in_range(Seq::empty(), occs.drop_last(), user_id, show_complete, assigned_to_any, preset, after, before, just_completed);
        let init = list_occurrence_entries(occs.drop_last(), user_id, assigned_to_any);
        let all = list_occurrence_entries(occs, user_id, assigned_to_any);
        assert forall|k: int| 0 <= k < all.len() implies {
            let e = #[trigger] all[k];
            e.0 && e.1 < occs.len()
        } by {
            if k < init.len() {
                assert(all[k] == init[k]);
            }
        }
    }
}

/// `r` is the dashboard list: the shown items, then the shown occurrences, in a stable
/// order by date.
pub open spec fn dashboard_list_result(
    due_items: Seq<DueItem>,
    occurrences: Seq<ProjectOccurrence>,
    user_id: Seq<char>,
    show_complete: bool,
    assigned_to_any: bool,
    preset: Seq<char>,
    after: Option<i64>,
    before: Option<i64>,
    just_completed: Option<Seq<char>>,
    r: Seq<DayEntry>,
) -> bool {
    let all = list_item_entries(due_items, user_id, show_complete, assigned_to_any, preset, after, before, just_completed)
        + list_occurrence_entries(occurrences, user_id, assigned_to_any);
    exists|p: Seq<usize>|
        {
            &&& #[trigger] is_stable_order(day_entry_keys(due_items, occurrences, all), p)
            &&& r.len() == p.len()
            &&& forall|k: int| 0 <= k < p.len() ==> #[trigger] r[k] == all[p[k] as int]
        }
}

proof fn lemma_open_occurrence_entry(occs: Seq<ProjectOccurrence>, user_id: Seq<char>, assigned_to_any: bool, j: int)
    requires
        occs.len() <= usize::MAX,
        0 <= j < occs.len(),
        !occs[j].materialized(),
        assigned_to_any || opt_view(occs[j].assigned_to_user_id) == Some(user_id),
    ensures
        list_occurrence_entries(occs, user_id, assigned_to_any).contains((true, j as usize)),
    decreases occs.len(),
{
    let init = list_occurrence_entries(occs.drop_last(), user_id, assigned_to_any);
    let all = list_occurrence_entries(occs, user_id, assigned_to_any);
    if j == occs.len() - 1 {
        assert(all == init.push((true, j as usize)));
        assert(all[init.len() as int] == (true, j as usize));
    } else {
        assert(occs.drop_last()[j] == occs[j]);
        lemma_open_occurrence_entry(occs.drop_last(), user_id, assigned_to_any, j);
        let q = choose|q: int| 0 <= q < init.len() && init[q] == (true, j as usize);
        assert(all[q] == init[q]);
    }
}

/// The project dashboard list leaves out no occurrence it should show: every occurrence
/// that no stored item stands for and that is the viewer's (or any, when everyone's items
/// show) has its entry in the list, whether it is still virtual or skipped.
pub proof fn lemma_dashboard_list_shows_open_occurrences(
    due_items: Seq<DueItem>,
    occurrences: Seq<ProjectOccurrence>,
    user_id: Seq<char>,
    show_complete: bool,
    assigned_to_any: bool,
    preset: Seq<char>,
    after: Option<i64>,
    before: Option<i64>,
    just_completed: Option<Seq<char>>,
    r: Seq<DayEntry>,
    j: int,
)
    requires
        occurrences.len() <= usize::MAX,
        dashboard_list_result(due_items, occurrences, user_id, show_complete, assigned_to_any, preset, after, before, just_completed, r),
        0 <= j < occurrences.len(),
        !occurrences[j].materialized(),
        assigned_to_any || opt_view(occurrences[j].assigned_to_user_id) == Some(user_id),
    ensures
        exists|k: int| 0 <= k < r.len() && r[k] == (true, j as usize),
{
    let a = list_item_entries(due_items, user_id, show_complete, assigned_to_any, preset, after, before, just_completed);
    let b = list_occurrence_entries(occurrences, user_id, assigned_to_any);
    let all = a + b;
    lemma_open_occurrence_entry(occurrences, user_id, assigned_to_any, j);
    let q = choose|q: int| 0 <= q < b.len() && b[q] == (true, j as usize);
    assert(all[a.len() + q] == (true, j as usize));
    let keys = day_entry_keys(due_items, occurrences, all);
    let p = choose|p: Seq<usize>|
        {
            &&& #[trigger] is_stable_order(keys, p)
            &&& r.len() == p.len()
            &&& forall|k: int| 0 <= k < p.len() ==> #[trigger] r[k] == all[p[k] as int]
        };
    lemma_reordered_keeps_every_entry(all, keys, p, r, a.len() + q);
}

proof fn lemma_shown_item_entry(
    items: Seq<DueItem>,
    user_id: Seq<char>,
    show_complete: bool,
    assigned_to_any: bool,
    preset: Seq<char>,
    after: Option<i64>,
    before: Option<i64>,
    just_completed: Option<Seq<char>>,
    j: int,
)
    requires
        items.len() <= usize::MAX,
        0 <= j < items.len(),
        list_item_shown(items[j].item, user_id, show_complete, assigned_to_any, preset, after, before, just_completed),
    ensures
        list_item_entries(items, user_id, show_complete, assigned_to_any, preset, after, before, just_completed).contains(
            (false, j as usize),
        ),
    decreases items.len(),
{
    let init = list_item_entries(items.drop_last(), user_id, show_complete, assigned_to_any, preset, after, before, just_completed);
    let all = list_item_entries(items, user_id, show_complete, assigned_to_any, preset, after, before, just_completed);
    if j == items.len() - 1 {
        assert(all == init.push((false, j as usize)));
        assert(all[init.len() as int] == (false, j as usize));
    } else {
        assert(items.drop_last()[j] == items[j]);
        lemma_shown_item_entry(items.drop_last(), user_id, show_complete, assigned_to_any, preset, after, before, just_completed, j);
        let q = choose|q: int| 0 <= q < init.len() && init[q] == (false, j as usize);
        assert(all[q] == init[q]);
    }
}

proof fn lemma_list_entries_shown(
    items: Seq<DueItem>,
    occs: Seq<ProjectOccurrence>,
    user_id: Seq<char>,
    show_complete: bool,
    assigned_to_any: bool,
    preset: Seq<char>,
    after: Option<i64>,
    before: Option<i64>,
    just_completed: Option<Seq<char>>,
)
    requires
        items.len() <= usize::MAX,
        occs.len() <= usize::MAX,
    ensures
        forall|k: int|
            0 <= k < list_item_entries(items, user_id, show_complete, assigned_to_any, preset, after, before, just_completed).len() ==> {
                let e = #[trigger] list_item_entries(items, user_id, show_complete, assigned_to_any, preset, after, before, just_completed)[k];
                !e.0 && e.1 < items.len() && list_item_shown(items[e.1 as int].item, user_id, show_complete, assigned_to_any, preset, after, before, just_completed)
            },
        forall|k: int|
            0 <= k < list_occurrence_entries(occs, user_id, assigned_to_any).len() ==> {
                let e = #[trigger] list_occurrence_entries(occs, user_id, assigned_to_any)[k];
                e.0 && e.1 < occs.len() && list_occurrence_shown(occs[e.1 as int], user_id, assigned_to_any)
            },
    decreases items.len() + occs.len(),
{
    if items.len() > 0 {
        lemma_list_entries_shown(items.drop_last(), occs, user_id, show_complete, assigned_to_any, preset, after, before, just_completed);
        let init = list_item_entries(items.drop_last(), user_id, show_complete, assigned_to_any, preset, after, before, just_completed);
        let all = list_item_entries(items, user_id, show_complete, assigned_to_any, preset, after, before, just_completed);
        assert forall|k: int| 0 <= k < all.len() implies {
            let e = #[trigger] all[k];
            !e.0 && e.1 < items.len() && list_item_shown(items[e.1 as int].item, user_id, show_complete, assigned_to_any, preset, after, before, just_completed)
        } by {
            if k < init.len() {
                assert(all[k] == init[k]);
                assert(items.drop_last()[init[k].1 as int] == items[init[k].1 as int]);
            }
        }
    }
    if occs.len() > 0 {
        lemma_list_entries_shown(Seq::empty(), occs.drop_last(), user_id, show_complete, assigned_to_any, preset, after, before, just_completed);
        let init = list_occurrence_entries(occs.drop_last(), user_id, assigned_to_any);
        let all = list_occurrence_entries(occs, user_id, assigned_to_any);
        assert forall|k: int| 0 <= k < all.len() implies {
            let e = #[trigger] all[k];
            e.0 && e.1 < occs.len() && list_occurrence_shown(occs[e.1 as int], user_id, assigned_to_any)
        } by {
            if k < init.len() {
                assert(all[k] == init[k]);
                assert(occs.drop_last()[init[k].1 as int] == occs[init[k].1 as int]);
            }
        }
    }
}

/// The project dashboard list shows every item it should: a stored item that is not a
/// Simple item, is the viewer's (or any, when everyone's items show), is open or completed
/// with completed items shown or is the one just completed, has a date when the preset asks
/// for one, and whose date (an Event's scheduled date, else its due date) lies within the
/// window — an undated one only when the window is open on both sides — has its entry.
pub proof fn lemma_dashboard_list_shows_items(
    due_items: Seq<DueItem>,
    occurrences: Seq<ProjectOccurrence>,
    user_id: Seq<char>,
    show_complete: bool,
    assigned_to_any: bool,
    preset: Seq<char>,
    after: Option<i64>,
    before: Option<i64>,
    just_completed: Option<Seq<char>>,
    r: Seq<DayEntry>,
    j: int,
)
    requires
        due_items.len() <= usize::MAX,
        dashboard_list_result(due_items, occurrences, user_id, show_complete, assigned_to_any, preset, after, before, just_completed, r),
        0 <= j < due_items.len(),
        !(due_items[j].item.kind is Simple),
        assigned_to_any || opt_view(due_items[j].item.assigned_to_user_id) == Some(user_id),
        show_complete || !due_items[j].item.complete || just_completed == Some(due_items[j].item.id@),
        match calendar_date_spec(due_items[j].item) {
            Some(d) => (after matches Some(a) ==> d >= a) && (before matches Some(b) ==> d <= b),
            None => after is None && before is None && preset != "All with due date"@,
        },
    ensures
        exists|k: int| 0 <= k < r.len() && r[k] == (false, j as usize),
{
    let a = list_item_entries(due_items, user_id, show_complete, assigned_to_any, preset, after, before, just_completed);
    let b = list_occurrence_entries(occurrences, user_id, assigned_to_any);
    let all = a + b;
    lemma_shown_item_entry(due_items, user_id, show_complete, assigned_to_any, preset, after, before, just_completed, j);
    let q = choose|q: int| 0 <= q < a.len() && a[q] == (false, j as usize);
    assert(all[q] == (false, j as usize));
    let keys = day_entry_keys(due_items, occurrences, all);
    let p = choose|p: Seq<usize>|
        {
            &&& #[trigger] is_stable_order(keys, p)
            &&& r.len() == p.len()
            &&& forall|k: int| 0 <= k < p.len() ==> #[trigger] r[k] == all[p[k] as int]
        };
    lemma_reordered_keeps_every_entry(all, keys, p, r, q);
}

/// The project dashboard list shows nothing it should not: an occurrence entry is of an
/// occurrence no stored item stands for that is the viewer's (or any, when everyone's
/// items show); an item entry is of an item that is not Simple, is the viewer's (or any),
/// is open unless completed items show or it was just completed, has a date when the preset
/// asks for one, and lies within the window.
pub proof fn lemma_dashboard_list_holds_only_shown(
    due_items: Seq<DueItem>,
    occurrences: Seq<ProjectOccurrence>,
    user_id: Seq<char>,
    show_complete: bool,
    assigned_to_any: bool,
    preset: Seq<char>,
    after: Option<i64>,
    before: Option<i64>,
    just_completed: Option<Seq<char>>,
    r: Seq<DayEntry>,
)
    requires
        due_items.len() <= usize::MAX,
        occurrences.len() <= usize::MAX,
        dashboard_list_result(due_items, occurrences, user_id, show_complete, assigned_to_any, preset, after, before, just_completed, r),
    ensures
        forall|k: int|
            0 <= k < r.len() ==> {
                let e = #[trigger] r[k];
                &&& e.0 ==> {
                    &&& e.1 < occurrences.len()
                    &&& !occurrences[e.1 as int].materialized()
                    &&& assigned_to_any || opt_view(occurrences[e.1 as int].assigned_to_user_id) == Some(user_id)
                }
                &&& !e.0 ==> {
                    &&& e.1 < due_items.len()
                    &&& !(due_items[e.1 as int].item.kind is Simple)
                    &&& assigned_to_any || opt_view(due_items[e.1 as int].item.assigned_to_user_id) == Some(user_id)
                    &&& show_complete || !due_items[e.1 as int].item.complete || just_completed == Some(due_items[e.1 as int].item.id@)
                    &&& match calendar_date_spec(due_items[e.1 as int].item) {
                        Some(d) => (after matches Some(a) ==> d >= a) && (before matches Some(b) ==> d <= b),
                        None => after is None && before is None && preset != "All with due date"@,
                    }
                }
            },
{
    let a = list_item_entries(due_items, user_id, show_complete, assigned_to_any, preset, after, before, just_completed);
    let b = list_occurrence_entries(occurrences, user_id, assigned_to_any);
    let all = a + b;
    lemma_list_entries_shown(due_items, occurrences, user_id, show_complete, assigned_to_any, preset, after, before, just_completed);
    let keys = day_entry_keys(due_items, occurrences, all);
    let p = choose|p: Seq<usize>|
        {
            &&& #[trigger] is_stable_order(keys, p)
            &&& r.len() == p.len()
            &&& forall|k: int| 0 <= k < p.len() ==> #[trigger] r[k] == all[p[k] as int]
        };
    assert forall|k: int| 0 <= k < r.len() implies {
        let e = #[trigger] r[k];
        &&& e.0 ==> {
            &&& e.1 < occurrences.len()
            &&& !occurrences[e.1 as int].materialized()
            &&& assigned_to_any || opt_view(occurrences[e.1 as int].assigned_to_user_id) == Some(user_id)
        }
        &&& !e.0 ==> {
            &&& e.1 < due_items.len()
            &&& !(due_items[e.1 as int].item.kind is Simple)
            &&& assigned_to_any || opt_view(due_items[e.1 as int].item.assigned_to_user_id) == Some(user_id)
            &&& show_complete || !due_items[e.1 as int].item.complete || just_completed == Some(due_items[e.1 as int].item.id@)
            &&& match calendar_date_spec(due_items[e.1 as int].item) {
                Some(d) => (after matches Some(a) ==> d >= a) && (before matches Some(b) ==> d <= b),
                None => after is None && before is None && preset != "All with due date"@,
            }
        }
    } by {
        assert(keys.len() == all.len());
        let q = p[k] as int;
        assert(r[k] == all[q]);
        if q < a.len() {
            assert(all[q] == a[q]);
        } else {
            assert(all[q] == b[q - a.len()]);
        }
    }
}

/// The date a project dashboard entry is ordered by, read from the inputs: an item's date
/// (an Event's scheduled date, else its due date; an undated item after every date), an
/// occurrence's date.
pub open spec fn entry_date(due_items: Seq<DueItem>, occurrences: Seq<ProjectOccurrence>, e: DayEntry) -> i64 {
    if e.0 {
        occurrences[e.1 as int].occurrence_date
    } else {
        let item = due_items[e.1 as int].item;
        match (if item.kind is Event && item.scheduled_date is Some { item.scheduled_date } else { item.due_date }) {
            Some(d) => d,
            None => i64::MAX,
        }
    }
}

/// The project dashboard list runs by date: no entry comes before one with an earlier date.
pub proof fn lemma_dashboard_list_in_date_order(
    due_items: Seq<DueItem>,
    occurrences: Seq<ProjectOccurrence>,
    user_id: Seq<char>,
    show_complete: bool,
    assigned_to_any: bool,
    preset: Seq<char>,
    after: Option<i64>,
    before: Option<i64>,
    just_completed: Option<Seq<char>>,
    r: Seq<DayEntry>,
)
    requires
        dashboard_list_result(due_items, occurrences, user_id, show_complete, assigned_to_any, preset, after, before, just_completed, r),
    ensures
        forall|a: int, b: int|
            0 <= a < b < r.len() ==> entry_date(due_items, occurrences, #[trigger] r[a]) <= entry_date(
                due_items,
                occurrences,
                #[trigger] r[b],
            ),
{
    let all = list_item_entries(due_items, user_id, show_complete, assigned_to_any, preset, after, before, just_completed)
        + list_occurrence_entries(occurrences, user_id, assigned_to_any);
    let keys = day_entry_keys(due_items, occurrences, all);
    let p = choose|p: Seq<usize>|
        {
            &&& #[trigger] is_stable_order(keys, p)
            &&& r.len() == p.len()
            &&& forall|k: int| 0 <= k < p.len() ==> #[trigger] r[k] == all[p[k] as int]
        };
    assert forall|a: int, b: int| 0 <= a < b < r.len() implies entry_date(due_items, occurrences, #[trigger] r[a])
        <= entry_date(due_items, occurrences, #[trigger] r[b]) by {
        assert(crate::event_list::precedes(keys, p[a] as int, p[b] as int));
        let x = all[p[a] as int];
        let y = all[p[b] as int];
        assert(keys[p[a] as int] == crate::project_calendar::day_entry_key(due_items, occurrences, x));
        assert(keys[p[b] as int] == crate::project_calendar::day_entry_key(due_items, occurrences, y));
        assert(r[a] == x && r[b] == y);
        if !x.0 {
            let item = due_items[x.1 as int].item;
            assert(calendar_date_spec(item) == (if item.kind is Event && item.scheduled_date is Some { item.scheduled_date } else { item.due_date }));
        }
        if !y.0 {
            let item = due_items[y.1 as int].item;
            assert(calendar_date_spec(item) == (if item.kind is Event && item.scheduled_date is Some { item.scheduled_date } else { item.due_date }));
        }
    }
}

/// The dashboard list: the shown items, then the shown occurrences, ordered by date (an
/// undated item last), entries with the same date in that reading order.
pub fn dashboard_list_entries(
    due_items: &Vec<DueItem>,
    occurrences: &Vec<ProjectOccurrence>,
    user_id: &str,
    show_complete: bool,
    assigned_to_any: bool,
    preset: &str,
    after: Option<i64>,
    before: Option<i64>,
    just_completed: Option<&str>,
) -> (r: Vec<DayEntry>)
    ensures
        dashboard_list_result(
            due_items@,
            occurrences@,
            user_id@,
            show_complete,
            assigned_to_any,
            preset@,
            after,
            before,
            crate::web::opt_str(just_completed),
            r@,
        ),
{
    let ghost jc = crate::web::opt_str(just_completed);
    let ghost a = list_item_entries(due_items@, user_id@, show_complete, assigned_to_any, preset@, after, before, jc);
    let ghost b = list_occurrence_entries(occurrences@, user_id@, assigned_to_any);
    let dated_only = str_eq(preset, "All with due date");
    let mut es: Vec<DayEntry> = Vec::new();
    let mut i: usize = 0;
    assert(due_items@.take(0) =~= Seq::<DueItem>::empty());
    while i < due_items.len()
        invariant
            i <= due_items@.len(),
            jc == crate::web::opt_str(just_completed),
            dated_only == (preset@ == "All with due date"@),
            es@ == list_item_entries(due_items@.take(i as int), user_id@, show_complete, assigned_to_any, preset@, after, before, jc),
        decreases due_items@.len() - i,
    {
        assert(due_items@.take(i + 1).drop_last() =~= due_items@.take(i as int));
        assert(due_items@.take(i + 1).last() == due_items@[i as int]);
        let item = &due_items[i].item;
        let not_simple = match item.kind {
            ItemKind::Simple => false,
            _ => true,
        };
        let mine = assigned_to_any || match &item.assigned_to_user_id {
            Some(a) => str_eq(a.as_str(), user_id),
            None => false,
        };
        let is_just = match just_completed {
            Some(id) => str_eq(id, item.id.as_str()),
            None => false,
        };
        let open_ok = show_complete || !item.complete || is_just;
        let d = calendar_date(item);
        let in_window = match d {
            Some(d) => (match after {
                Some(a) => d >= a,
                None => true,
            }) && (match before {
                Some(b) => d <= b,
                None => true,
            }),
            None => after.is_none() && before.is_none(),
        };
        if not_simple && mine && open_ok && !(dated_only && d.is_none()) && in_window {
            es.push((false, i));
        }
        i = i + 1;
    }
    assert(due_items@.take(due_items@.len() as int) =~= due_items@);
    let ghost head = es@;
    let mut j: usize = 0;
    assert(occurrences@.take(0) =~= Seq::<ProjectOccurrence>::empty());
    while j < occurrences.len()
        invariant
            j <= occurrences@.len(),
            es@ == head + list_occurrence_entries(occurrences@.take(j as int), user_id@, assigned_to_any),
        decreases occurrences@.len() - j,
    {
        assert(occurrences@.take(j + 1).drop_last() =~= occurrences@.take(j as int));
        assert(occurrences@.take(j + 1).last() == occurrences@[j as int]);
        let o = &occurrences[j];
        let mine = assigned_to_any || match &o.assigned_to_user_id {
            Some(a) => str_eq(a.as_str(), user_id),
            None => false,
        };
        if !o.is_materialized() && mine {
            es.push((true, j));
        }
        j = j + 1;
    }
    assert(occurrences@.take(occurrences@.len() as int) =~= occurrences@);
    let ghost all = a + b;
    assert(es@ == all);
    proof {
        lemma_list_entries_in_range(due_items@, occurrences@, user_id@, show_complete, assigned_to_any, preset@, after, before, jc);
    }
    let mut keys: Vec<i64> = Vec::new();
    let mut m: usize = 0;
    while m < es.len()
        invariant
            es@ == all,
            all == a + b,
            forall|q: int| 0 <= q < a.len() ==> { let e = #[trigger] a[q]; !e.0 && e.1 < due_items@.len() },
            forall|q: int| 0 <= q < b.len() ==> { let e = #[trigger] b[q]; e.0 && e.1 < occurrences@.len() },
            m <= es@.len(),
            keys@ == day_entry_keys(due_items@, occurrences@, all).take(m as int),
        decreases es@.len() - m,
    {
        let e = es[m];
        proof {
            if (m as int) < a.len() {
                assert(all[m as int] == a[m as int]);
            } else {
                assert(all[m as int] == b[m - a.len()]);
            }
        }
        let key = if e.0 {
            occurrences[e.1].occurrence_date
        } else {
            match calendar_date(&due_items[e.1].item) {
                Some(t) => t,
                None => i64::MAX,
            }
        };
        keys.push(key);
        assert(keys@ =~= day_entry_keys(due_items@, occurrences@, all).take(m + 1));
        m = m + 1;
    }
    assert(keys@ =~= day_entry_keys(due_items@, occurrences@, all));
    let order = stable_order(&keys);
    let mut out: Vec<DayEntry> = Vec::new();
    let mut n: usize = 0;
    while n < order.len()
        invariant
            es@ == all,
            is_stable_order(day_entry_keys(due_items@, occurrences@, all), order@),
            n <= order@.len(),
            out@.len() == n,
            forall|q: int| 0 <= q < n ==> #[trigger] out@[q] == all[order@[q] as int],
        decreases order@.len() - n,
    {
        out.push(es[order[n]]);
        n = n + 1;
    }
    out
}

/// How long a just-completed row lingers before it fades, in milliseconds.
pub const DISMISS_AFTER_MS: u32 = 1800;

/// The badge of a list row: the item just completed shows "Completed", and fades out after
/// a moment when the list hides completed items.
pub fn completion_badge(item_id: &str, just_completed: Option<&str>, show_complete: bool) -> (r: (Option<String>, Option<u32>))
    ensures
        (crate::web::opt_str(just_completed) == Some(item_id@)) ==> (r.0 matches Some(c) && c@ == "Completed"@),
        (crate::web::opt_str(just_completed) != Some(item_id@)) ==> r.0 is None,
        r.1 == (if crate::web::opt_str(just_completed) == Some(item_id@) && !show_complete {
            Some(DISMISS_AFTER_MS)
        } else {
            None
        }),
{
    let just = match just_completed {
        Some(id) => str_eq(id, item_id),
        None => false,
    };
    let confirmation = if just {
        Some(String::from_str("Completed"))
    } else {
        None
    };
    let dismiss = if just && !show_complete {
        Some(DISMISS_AFTER_MS)
    } else {
        None
    };
    (confirmation, dismiss)
}

} // verus!
