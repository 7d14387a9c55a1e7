//! The per-project calendar's query and checkbox form, and the calendar subscriptions
//! (imported iCal feeds) list.
use vstd::prelude::*;
use crate::calendar::{
    CalendarDay, calendar_date, calendar_date_spec, cell_ok, count_day, grid_cells, grid_start_for, grid_start_spec,
    lemma_count_day_push, lemma_local_day_fits,
};
use crate::dates::{label_spec, local_label, local_day, local_day_spec, valid_month};
use crate::domain::{Item, ItemKind, ProjectOccurrence, opt_ts_ok, opt_view, clone_opt, copy_str, ts_ok};
use crate::event_list::{is_stable_order, stable_order};
use crate::storage::DueItem;
use crate::text::str_eq;

verus! {

/// The month shown, the selected day, the drawer's All/Tasks/Events tab (`"all"`, `"task"`
/// or `"event"`) and whether everyone's items show rather than only the viewer's.
#[derive(Debug, Default, Clone)]
pub struct ProjectCalendarQuery {
    pub year: Option<i32>,
    pub month: Option<u32>,
    pub date: Option<String>,
    pub item_type: Option<String>,
    pub assigned_to_any: Option<String>,
}

/// A calendar row checkbox's submission.
#[derive(Debug, Default, Clone)]
pub struct ProjectCalendarToggleForm {
    pub complete: Option<String>,
}

/// The add-subscription form.
#[derive(Debug, Default, Clone)]
pub struct CreateCalendarSubscriptionForm {
    pub ical_url: String,
}

/// An imported iCal feed of a project.
#[derive(Debug, Clone)]
pub struct CalendarSubscription {
    pub id: String,
    pub project_id: String,
    pub ical_url: String,
    pub last_synced_at: Option<i64>,
    pub last_sync_error: Option<String>,
}

/// How many characters of a feed URL are shown.
pub const MASK_KEEP: usize = 40;

/// The URL when it has at most 40 characters, else its first 40 and an ellipsis: enough to
/// recognize the feed without the whole secret address on screen.
pub open spec fn mask_url_spec(url: Seq<char>) -> Seq<char> {
    if url.len() <= MASK_KEEP {
        url
    } else {
        url.take(MASK_KEEP as int) + "…"@
    }
}

pub fn mask_url(url: &str) -> (r: String)
    ensures
        r@ == mask_url_spec(url@),
{
    let n = url.unicode_len();
    if n <= MASK_KEEP {
        String::from_str(url)
    } else {
        let head = url.substring_char(0, MASK_KEEP);
        assert(head@ =~= url@.take(MASK_KEEP as int));
        String::from_str(head).concat("…")
    }
}

/// One subscription in the list.
#[derive(Debug, Clone)]
pub struct CalendarSubscriptionRow {
    pub id: String,
    pub project_id: String,
    pub masked_url: String,
    pub last_synced_label: String,
    pub last_sync_error: Option<String>,
    pub is_admin: bool,
}

/// `Synced <local %Y-%m-%d %H:%M>`, or `Not synced yet`.
pub open spec fn synced_label_spec(last: Option<i64>, tz: int) -> Seq<char> {
    match last {
        Some(t) => "Synced "@ + label_spec(t as int, tz, true),
        None => "Not synced yet"@,
    }
}

impl CalendarSubscriptionRow {
    pub fn from_subscription(sub: &CalendarSubscription, is_admin: bool, tz: i32) -> (r: Self)
        requires
            opt_ts_ok(sub.last_synced_at),
        ensures
            r.id@ == sub.id@,
            r.project_id@ == sub.project_id@,
            r.masked_url@ == mask_url_spec(sub.ical_url@),
            r.last_synced_label@ == synced_label_spec(sub.last_synced_at, tz as int),
            opt_view(r.last_sync_error) == opt_view(sub.last_sync_error),
            r.is_admin == is_admin,
    {
        let last_synced_label = match sub.last_synced_at {
            Some(t) => String::from_str("Synced ").concat(local_label(t, tz, true).as_str()),
            None => String::from_str("Not synced yet"),
        };
        Self {
            id: copy_str(&sub.id),
            project_id: copy_str(&sub.project_id),
            masked_url: mask_url(sub.ical_url.as_str()),
            last_synced_label,
            last_sync_error: clone_opt(&sub.last_sync_error),
            is_admin,
        }
    }
}

// ---- the month grid and the day list ------------------------------------------------

/// Whether an entry of this kind and assignee is the viewer's to see: Events always; any
/// other kind on a personal project, when everyone's items are shown, or when it is
/// assigned to the viewer.
pub open spec fn mine_spec(
    kind: ItemKind,
    assigned: Option<Seq<char>>,
    user_id: Seq<char>,
    assigned_to_any: bool,
    is_team_project: bool,
) -> bool {
    kind is Event || !is_team_project || assigned_to_any || assigned == Some(user_id)
}

fn is_mine(
    kind: ItemKind,
    assigned: &Option<String>,
    user_id: &str,
    assigned_to_any: bool,
    is_team_project: bool,
) -> (r: bool)
    ensures
        r == mine_spec(kind, opt_view(*assigned), user_id@, assigned_to_any, is_team_project),
{
    let is_event = match kind {
        ItemKind::Event => true,
        _ => false,
    };
    is_event || !is_team_project || assigned_to_any || match assigned {
        Some(a) => str_eq(a.as_str(), user_id),
        None => false,
    }
}

/// A stored item the grid counts: any but a Simple item, when it is the viewer's to see.
pub open spec fn item_counted(
    item: Item,
    user_id: Seq<char>,
    assigned_to_any: bool,
    is_team_project: bool,
) -> bool {
    !(item.kind is Simple) && mine_spec(
        item.kind,
        opt_view(item.assigned_to_user_id),
        user_id,
        assigned_to_any,
        is_team_project,
    )
}

/// The local days of the counted, dated items (by `calendar_date`), in order.
pub open spec fn counted_item_days(
    items: Seq<DueItem>,
    tz: int,
    user_id: Seq<char>,
    assigned_to_any: bool,
    is_team_project: bool,
) -> Seq<i32>
    decreases items.len(),
{
    if items.len() == 0 {
        Seq::<i32>::empty()
    } else {
        let init = counted_item_days(items.drop_last(), tz, user_id, assigned_to_any, is_team_project);
        let item = items.last().item;
        if item_counted(item, user_id, assigned_to_any, is_team_project) {
            match calendar_date_spec(item) {
                Some(t) => init.push(local_day_spec(t as int, tz) as i32),
                None => init,
            }
        } else {
            init
        }
    }
}

/// The local days of the counted occurrences (those the viewer sees), in order.
pub open spec fn counted_occurrence_days(
    occs: Seq<ProjectOccurrence>,
    tz: int,
    user_id: Seq<char>,
    assigned_to_any: bool,
    is_team_project: bool,
) -> Seq<i32>
    decreases occs.len(),
{
    if occs.len() == 0 {
        Seq::<i32>::empty()
    } else {
        let init = counted_occurrence_days(occs.drop_last(), tz, user_id, assigned_to_any, is_team_project);
        let o = occs.last();
        if mine_spec(o.item_type, opt_view(o.assigned_to_user_id), user_id, assigned_to_any, is_team_project) {
            init.push(local_day_spec(o.occurrence_date as int, tz) as i32)
        } else {
            init
        }
    }
}

/// `r` is the project calendar's grid: 42 cells from the Sunday on or before the first of
/// the month, each tallying the counted entries of its day.
pub open spec fn project_calendar_result(
    year: int,
    month: int,
    due_items: Seq<DueItem>,
    occurrences: Seq<ProjectOccurrence>,
    tz: int,
    today: int,
    selected_date: Option<i32>,
    user_id: Seq<char>,
    assigned_to_any: bool,
    is_team_project: bool,
    r: Seq<CalendarDay>,
) -> bool {
    &&& r.len() == 42
    &&& forall|i: int|
        0 <= i < 42 ==> cell_ok(
            #[trigger] r[i],
            grid_start_spec(year, month, true) + i,
            year,
            month,
            counted_item_days(due_items, tz, user_id, assigned_to_any, is_team_project)
                + counted_occurrence_days(occurrences, tz, user_id, assigned_to_any, is_team_project),
            today,
            selected_date,
        )
}

/// Two item lists alike but for which items are complete.
pub open spec fn alike_but_completion(a: Seq<DueItem>, b: Seq<DueItem>) -> bool {
    &&& a.len() == b.len()
    &&& forall|i: int| 0 <= i < a.len() ==> (#[trigger] b[i]).item == (Item { complete: b[i].item.complete, ..a[i].item })
}

proof fn lemma_counted_days_ignore_completion(
    a: Seq<DueItem>,
    b: Seq<DueItem>,
    tz: int,
    user_id: Seq<char>,
    assigned_to_any: bool,
    is_team_project: bool,
)
    requires
        alike_but_completion(a, b),
    ensures
        counted_item_days(a, tz, user_id, assigned_to_any, is_team_project) == counted_item_days(
            b,
            tz,
            user_id,
            assigned_to_any,
            is_team_project,
        ),
    decreases a.len(),
{
    if a.len() > 0 {
        assert(alike_but_completion(a.drop_last(), b.drop_last())) by {
            assert forall|i: int| 0 <= i < a.drop_last().len() implies (#[trigger] b.drop_last()[i]).item == (Item {
                complete: b.drop_last()[i].item.complete,
                ..a.drop_last()[i].item
            }) by {
                assert(b.drop_last()[i] == b[i] && a.drop_last()[i] == a[i]);
            }
        }
        lemma_counted_days_ignore_completion(a.drop_last(), b.drop_last(), tz, user_id, assigned_to_any, is_team_project);
        assert(b.last().item == (Item { complete: b.last().item.complete, ..a.last().item }));
    }
}

/// The project calendar counts completed items like open ones: grids built from two item
/// lists that differ only in which items are complete hold the same count in every cell.
pub proof fn lemma_calendar_counts_ignore_completion(
    year: int,
    month: int,
    items: Seq<DueItem>,
    items2: Seq<DueItem>,
    occurrences: Seq<ProjectOccurrence>,
    tz: int,
    today: int,
    selected_date: Option<i32>,
    user_id: Seq<char>,
    assigned_to_any: bool,
    is_team_project: bool,
    r: Seq<CalendarDay>,
    r2: Seq<CalendarDay>,
)
    requires
        alike_but_completion(items, items2),
        project_calendar_result(year, month, items, occurrences, tz, today, selected_date, user_id, assigned_to_any, is_team_project, r),
        project_calendar_result(year, month, items2, occurrences, tz, today, selected_date, user_id, assigned_to_any, is_team_project, r2),
    ensures
        forall|i: int| 0 <= i < 42 ==> (#[trigger] r[i]).event_count == r2[i].event_count,
{
    lemma_counted_days_ignore_completion(items, items2, tz, user_id, assigned_to_any, is_team_project);
    assert forall|i: int| 0 <= i < 42 implies (#[trigger] r[i]).event_count == r2[i].event_count by {
        assert(cell_ok(r[i], grid_start_spec(year, month, true) + i, year, month,
            counted_item_days(items, tz, user_id, assigned_to_any, is_team_project)
                + counted_occurrence_days(occurrences, tz, user_id, assigned_to_any, is_team_project),
            today, selected_date));
        assert(cell_ok(r2[i], grid_start_spec(year, month, true) + i, year, month,
            counted_item_days(items2, tz, user_id, assigned_to_any, is_team_project)
                + counted_occurrence_days(occurrences, tz, user_id, assigned_to_any, is_team_project),
            today, selected_date));
    }
}

/// A project calendar grid over no items and no occurrences counts nothing in any cell.
pub proof fn lemma_project_calendar_empty(
    year: int,
    month: int,
    tz: int,
    today: int,
    selected_date: Option<i32>,
    user_id: Seq<char>,
    assigned_to_any: bool,
    is_team_project: bool,
    r: Seq<CalendarDay>,
)
    requires
        project_calendar_result(year, month, Seq::empty(), Seq::empty(), tz, today, selected_date, user_id, assigned_to_any, is_team_project, r),
    ensures
        forall|i: int| 0 <= i < 42 ==> (#[trigger] r[i]).event_count == 0,
{
    let days = counted_item_days(Seq::<DueItem>::empty(), tz, user_id, assigned_to_any, is_team_project)
        + counted_occurrence_days(Seq::<ProjectOccurrence>::empty(), tz, user_id, assigned_to_any, is_team_project);
    assert(days =~= Seq::<i32>::empty());
    assert forall|i: int| 0 <= i < 42 implies (#[trigger] r[i]).event_count == 0 by {
        assert(cell_ok(r[i], grid_start_spec(year, month, true) + i, year, month, days, today, selected_date));
    }
}

/// On a project calendar a stored item counts on the local day of its calendar date (an
/// Event's scheduled date, else its due date; any other item's due date), completed or
/// not, unless it is a Simple item or, on a team project showing only the viewer's entries,
/// a non-Event item not assigned to the viewer: adding one raises exactly that day's cell.
pub proof fn lemma_project_calendar_counts_item(
    year: int,
    month: int,
    items: Seq<DueItem>,
    x: DueItem,
    occurrences: Seq<ProjectOccurrence>,
    tz: int,
    today: int,
    selected_date: Option<i32>,
    user_id: Seq<char>,
    assigned_to_any: bool,
    is_team_project: bool,
    r: Seq<CalendarDay>,
    r2: Seq<CalendarDay>,
)
    requires
        x.item.dates_ok(),
        i32::MIN <= tz <= i32::MAX,
        project_calendar_result(year, month, items, occurrences, tz, today, selected_date, user_id, assigned_to_any, is_team_project, r),
        project_calendar_result(year, month, items.push(x), occurrences, tz, today, selected_date, user_id, assigned_to_any, is_team_project, r2),
    ensures
        forall|i: int|
            0 <= i < 42 ==> (#[trigger] r2[i]).event_count == r[i].event_count + if !(x.item.kind is Simple) && (
            x.item.kind is Event || !is_team_project || assigned_to_any || opt_view(x.item.assigned_to_user_id)
                == Some(user_id)) {
                match (if x.item.kind is Event && x.item.scheduled_date is Some {
                    x.item.scheduled_date
                } else {
                    x.item.due_date
                }) {
                    Some(t) => if local_day_spec(t as int, tz) == grid_start_spec(year, month, true) + i {
                        1int
                    } else {
                        0int
                    },
                    None => 0int,
                }
            } else {
                0int
            },
{
    let a = counted_item_days(items, tz, user_id, assigned_to_any, is_team_project);
    let a2 = counted_item_days(items.push(x), tz, user_id, assigned_to_any, is_team_project);
    let b = counted_occurrence_days(occurrences, tz, user_id, assigned_to_any, is_team_project);
    assert(items.push(x).drop_last() =~= items);
    assert(items.push(x).last() == x);
    let counted = !(x.item.kind is Simple) && (x.item.kind is Event || !is_team_project || assigned_to_any
        || opt_view(x.item.assigned_to_user_id) == Some(user_id));
    let when = if x.item.kind is Event && x.item.scheduled_date is Some {
        x.item.scheduled_date
    } else {
        x.item.due_date
    };
    assert(calendar_date_spec(x.item) == when);
    if counted {
        match when {
            Some(t) => {
                lemma_local_day_fits(t, tz);
                assert(a2 == a.push(local_day_spec(t as int, tz) as i32));
            },
            None => {
                assert(a2 == a);
            },
        }
    } else {
        assert(a2 == a);
    }
    assert forall|i: int| 0 <= i < 42 implies (#[trigger] r2[i]).event_count == r[i].event_count + if counted {
        match when {
            Some(t) => if local_day_spec(t as int, tz) == grid_start_spec(year, month, true) + i {
                1int
            } else {
                0int
            },
            None => 0int,
        }
    } else {
        0int
    } by {
        let d = grid_start_spec(year, month, true) + i;
        assert(cell_ok(r[i], d, year, month, a + b, today, selected_date));
        assert(cell_ok(r2[i], d, year, month, a2 + b, today, selected_date));
        if counted {
            match when {
                Some(t) => {
                    lemma_count_day_push(a, b, local_day_spec(t as int, tz) as i32, d);
                },
                None => {},
            }
        }
    }
}

/// On a project calendar an occurrence counts on its local day unless, on a team project
/// showing only the viewer's entries, it is not an Event and not assigned to the viewer:
/// adding one raises exactly that day's cell.
pub proof fn lemma_project_calendar_counts_occurrence(
    year: int,
    month: int,
    items: Seq<DueItem>,
    occurrences: Seq<ProjectOccurrence>,
    o: ProjectOccurrence,
    tz: int,
    today: int,
    selected_date: Option<i32>,
    user_id: Seq<char>,
    assigned_to_any: bool,
    is_team_project: bool,
    r: Seq<CalendarDay>,
    r2: Seq<CalendarDay>,
)
    requires
        ts_ok(o.occurrence_date),
        i32::MIN <= tz <= i32::MAX,
        project_calendar_result(year, month, items, occurrences, tz, today, selected_date, user_id, assigned_to_any, is_team_project, r),
        project_calendar_result(year, month, items, occurrences.push(o), tz, today, selected_date, user_id, assigned_to_any, is_team_project, r2),
    ensures
        forall|i: int|
            0 <= i < 42 ==> (#[trigger] r2[i]).event_count == r[i].event_count + if (o.item_type is Event
                || !is_team_project || assigned_to_any || opt_view(o.assigned_to_user_id) == Some(user_id))
                && local_day_spec(o.occurrence_date as int, tz) == grid_start_spec(year, month, true) + i {
                1int
            } else {
                0int
            },
{
    let a = counted_item_days(items, tz, user_id, assigned_to_any, is_team_project);
    let b = counted_occurrence_days(occurrences, tz, user_id, assigned_to_any, is_team_project);
    let b2 = counted_occurrence_days(occurrences.push(o), tz, user_id, assigned_to_any, is_team_project);
    assert(occurrences.push(o).drop_last() =~= occurrences);
    assert(occurrences.push(o).last() == o);
    lemma_local_day_fits(o.occurrence_date, tz);
    let v = local_day_spec(o.occurrence_date as int, tz) as i32;
    let seen = o.item_type is Event || !is_team_project || assigned_to_any || opt_view(o.assigned_to_user_id) == Some(user_id);
    if seen {
        assert(b2 == b.push(v));
    } else {
        assert(b2 == b);
    }
    assert forall|i: int| 0 <= i < 42 implies (#[trigger] r2[i]).event_count == r[i].event_count + if seen
        && local_day_spec(o.occurrence_date as int, tz) == grid_start_spec(year, month, true) + i {
        1int
    } else {
        0int
    } by {
        let d = grid_start_spec(year, month, true) + i;
        assert(cell_ok(r[i], d, year, month, a + b, today, selected_date));
        assert(cell_ok(r2[i], d, year, month, a + b2, today, selected_date));
        if seen {
            lemma_count_day_push(a, b, v, d);
        }
    }
}

/// The project calendar's Sunday-first grid for `year`/`month`: each cell tallies the
/// counted items (completed ones too) and the counted occurrences on its local day.
/// `virtual_occurrences` are the ones no stored item stands for.
pub fn build_project_calendar_days(
    year: i32,
    month: u32,
    due_items: &Vec<DueItem>,
    virtual_occurrences: &Vec<ProjectOccurrence>,
    tz: i32,
    today: i32,
    selected_date: Option<i32>,
    user_id: &str,
    assigned_to_any: bool,
    is_team_project: bool,
) -> (r: Vec<CalendarDay>)
    requires
        valid_month(month),
        -262143 <= year <= 262142,
        forall|i: int| 0 <= i < due_items@.len() ==> (#[trigger] due_items@[i]).item.dates_ok(),
        forall|i: int| 0 <= i < virtual_occurrences@.len() ==> ts_ok((#[trigger] virtual_occurrences@[i]).occurrence_date),
    ensures
        project_calendar_result(
            year as int,
            month as int,
            due_items@,
            virtual_occurrences@,
            tz as int,
            today as int,
            selected_date,
            user_id@,
            assigned_to_any,
            is_team_project,
            r@,
        ),
{
    let start = grid_start_for(year, month, true);
    let mut days: Vec<i32> = Vec::new();
    let mut i: usize = 0;
    assert(due_items@.take(0) =~= Seq::<DueItem>::empty());
    while i < due_items.len()
        invariant
            i <= due_items@.len(),
            forall|k: int| 0 <= k < due_items@.len() ==> (#[trigger] due_items@[k]).item.dates_ok(),
            days@ == counted_item_days(due_items@.take(i as int), tz as int, user_id@, assigned_to_any, is_team_project),
        decreases due_items@.len() - i,
    {
        assert(due_items@.take(i + 1).drop_last() =~= due_items@.take(i as int));
        assert(due_items@.take(i + 1).last() == due_items@[i as int]);
        let item = &due_items[i].item;
        assert(due_items@[i as int].item.dates_ok());
        let not_simple = match item.kind {
            ItemKind::Simple => false,
            _ => true,
        };
        if not_simple && is_mine(item.kind, &item.assigned_to_user_id, user_id, assigned_to_any, is_team_project) {
            match calendar_date(item) {
                Some(t) => {
                    days.push(local_day(t, tz));
                },
                None => {},
            }
        }
        i = i + 1;
    }
    assert(due_items@.take(due_items@.len() as int) =~= due_items@);
    let ghost head = days@;
    let mut j: usize = 0;
    assert(virtual_occurrences@.take(0) =~= Seq::<ProjectOccurrence>::empty());
    while j < virtual_occurrences.len()
        invariant
            j <= virtual_occurrences@.len(),
            forall|k: int| 0 <= k < virtual_occurrences@.len() ==> ts_ok((#[trigger] virtual_occurrences@[k]).occurrence_date),
            days@ == head + counted_occurrence_days(virtual_occurrences@.take(j as int), tz as int, user_id@, assigned_to_any, is_team_project),
        decreases virtual_occurrences@.len() - j,
    {
        assert(virtual_occurrences@.take(j + 1).drop_last() =~= virtual_occurrences@.take(j as int));
        assert(virtual_occurrences@.take(j + 1).last() == virtual_occurrences@[j as int]);
        let o = &virtual_occurrences[j];
        assert(ts_ok(virtual_occurrences@[j as int].occurrence_date));
        if is_mine(o.item_type, &o.assigned_to_user_id, user_id, assigned_to_any, is_team_project) {
            days.push(local_day(o.occurrence_date, tz));
        }
        j = j + 1;
    }
    assert(virtual_occurrences@.take(virtual_occurrences@.len() as int) =~= virtual_occurrences@);
    grid_cells(start, year, month, &days, today, selected_date)
}

/// The drawer's type tab lets this kind through.
pub open spec fn type_allowed(type_filter: Option<ItemKind>, kind: ItemKind) -> bool {
    match type_filter {
        Some(k) => k == kind,
        None => true,
    }
}

/// A stored item the selected day's list shows.
pub open spec fn day_item_shown(
    item: Item,
    day: int,
    tz: int,
    user_id: Seq<char>,
    assigned_to_any: bool,
    is_team_project: bool,
    type_filter: Option<ItemKind>,
) -> bool {
    &&& item_counted(item, user_id, assigned_to_any, is_team_project)
    &&& type_allowed(type_filter, item.kind)
    &&& match calendar_date_spec(item) {
        Some(t) => local_day_spec(t as int, tz) == day,
        None => false,
    }
}

/// An occurrence the selected day's list shows: one no stored item stands for.
pub open spec fn day_occurrence_shown(
    occ: ProjectOccurrence,
    day: int,
    tz: int,
    user_id: Seq<char>,
    assigned_to_any: bool,
    is_team_project: bool,
    type_filter: Option<ItemKind>,
) -> bool {
    &&& !occ.materialized()
    &&& type_allowed(type_filter, occ.item_type)
    &&& mine_spec(occ.item_type, opt_view(occ.assigned_to_user_id), user_id, assigned_to_any, is_team_project)
    &&& local_day_spec(occ.occurrence_date as int, tz) == day
}

/// A day-list entry: (is an occurrence, index into the items or the occurrences).
pub type DayEntry = (bool, usize);

/// The shown items of the day, in order.
pub open spec fn day_item_entries(
    items: Seq<DueItem>,
    day: int,
    tz: int,
    user_id: Seq<char>,
    assigned_to_any: bool,
    is_team_project: bool,
    type_filter: Option<ItemKind>,
) -> Seq<DayEntry>
    decreases items.len(),
{
    if items.len() == 0 {
        Seq::empty()
    } else {
        let init = day_item_entries(items.drop_last(), day, tz, user_id, assigned_to_any, is_team_project, type_filter);
        if day_item_shown(items.last().item, day, tz, user_id, assigned_to_any, is_team_project, type_filter) {
            init.push((false, (items.len() - 1) as usize))
        } else {
            init
        }
    }
}

/// The shown occurrences of the day, in order.
pub open spec fn day_occurrence_entries(
    occs: Seq<ProjectOccurrence>,
    day: int,
    tz: int,
    user_id: Seq<char>,
    assigned_to_any: bool,
    is_team_project: bool,
    type_filter: Option<ItemKind>,
) -> Seq<DayEntry>
    decreases occs.len(),
{
    if occs.len() == 0 {
        Seq::empty()
    } else {
        let init = day_occurrence_entries(occs.drop_last(), day, tz, user_id, assigned_to_any, is_team_project, type_filter);
        if day_occurrence_shown(occs.last(), day, tz, user_id, assigned_to_any, is_team_project, type_filter) {
            init.push((true, (occs.len() - 1) as usize))
        } else {
            init
        }
    }
}

/// The instant an entry sorts by: an item's calendar date, an occurrence's date.
pub open spec fn day_entry_key(items: Seq<DueItem>, occs: Seq<ProjectOccurrence>, e: DayEntry) -> i64 {
    if e.0 {
        occs[e.1 as int].occurrence_date
    } else {
        match calendar_date_spec(items[e.1 as int].item) {
            Some(t) => t,
            None => i64::MAX,
        }
    }
}

pub open spec fn day_entry_keys(items: Seq<DueItem>, occs: Seq<ProjectOccurrence>, es: Seq<DayEntry>) -> Seq<i64> {
    es.map_values(|e: DayEntry| day_entry_key(items, occs, e))
}

proof fn lemma_day_item_entries_valid(
    items: Seq<DueItem>,
    day: int,
    tz: int,
    user_id: Seq<char>,
    assigned_to_any: bool,
    is_team_project: bool,
    type_filter: Option<ItemKind>,
)
    requires
        items.len() <= usize::MAX,
    ensures
        forall|k: int|
            0 <= k < day_item_entries(items, day, tz, user_id, assigned_to_any, is_team_project, type_filter).len() ==> {
                let e = #[trigger] day_item_entries(items, day, tz, user_id, assigned_to_any, is_team_project, type_filter)[k];
                !e.0 && e.1 < items.len() && day_item_shown(items[e.1 as int].item, day, tz, user_id, assigned_to_any, is_team_project, type_filter)
            },
    decreases items.len(),
{
    if items.len() > 0 {
        lemma_day_item_entries_valid(items.drop_last(), day, tz, user_id, assigned_to_any, is_team_project, type_filter);
        let init = day_item_entries(items.drop_last(), day, tz, user_id, assigned_to_any, is_team_project, type_filter);
        let all = day_item_entries(items, day, tz, user_id, assigned_to_any, is_team_project, type_filter);
        assert forall|k: int| 0 <= k < all.len() implies {
            let e = #[trigger] all[k];
            !e.0 && e.1 < items.len() && day_item_shown(items[e.1 as int].item, day, tz, user_id, assigned_to_any, is_team_project, type_filter)
        } by {
            if k < init.len() {
                assert(all[k] == init[k]);
                assert(items.drop_last()[init[k].1 as int] == items[init[k].1 as int]);
            }
        }
    }
}

proof fn lemma_day_occurrence_entries_valid(
    occs: Seq<ProjectOccurrence>,
    day: int,
    tz: int,
    user_id: Seq<char>,
    assigned_to_any: bool,
    is_team_project: bool,
    type_filter: Option<ItemKind>,
)
    requires
        occs.len() <= usize::MAX,
    ensures
        forall|k: int|
            0 <= k < day_occurrence_entries(occs, day, tz, user_id, assigned_to_any, is_team_project, type_filter).len() ==> {
                let e = #[trigger] day_occurrence_entries(occs, day, tz, user_id, assigned_to_any, is_team_project, type_filter)[k];
                e.0 && e.1 < occs.len() && day_occurrence_shown(occs[e.1 as int], day, tz, user_id, assigned_to_any, is_team_project, type_filter)
            },
    decreases occs.len(),
{
    if occs.len() > 0 {
        lemma_day_occurrence_entries_valid(occs.drop_last(), day, tz, user_id, assigned_to_any, is_team_project, type_filter);
        let init = day_occurrence_entries(occs.drop_last(), day, tz, user_id, assigned_to_any, is_team_project, type_filter);
        let all = day_occurrence_entries(occs, day, tz, user_id, assigned_to_any, is_team_project, type_filter);
        assert forall|k: int| 0 <= k < all.len() implies {
            let e = #[trigger] all[k];
            e.0 && e.1 < occs.len() && day_occurrence_shown(occs[e.1 as int], day, tz, user_id, assigned_to_any, is_team_project, type_filter)
        } by {
            if k < init.len() {
                assert(all[k] == init[k]);
                assert(occs.drop_last()[init[k].1 as int] == occs[init[k].1 as int]);
            }
        }
    }
}

/// The selected day's list: the shown items, then the shown occurrences, ordered by instant
/// (an entry without one last), entries at the same instant in that reading order.
pub fn project_calendar_day_entries(
    due_items: &Vec<DueItem>,
    occurrences: &Vec<ProjectOccurrence>,
    day: i32,
    tz: i32,
    user_id: &str,
    assigned_to_any: bool,
    is_team_project: bool,
    type_filter: Option<ItemKind>,
) -> (r: Vec<DayEntry>)
    requires
        forall|i: int| 0 <= i < due_items@.len() ==> (#[trigger] due_items@[i]).item.dates_ok(),
        forall|i: int| 0 <= i < occurrences@.len() ==> ts_ok((#[trigger] occurrences@[i]).occurrence_date),
    ensures
        exists|p: Seq<usize>|
            {
                &&& #[trigger] is_stable_order(
                    day_entry_keys(
                        due_items@,
                        occurrences@,
                        day_item_entries(due_items@, day as int, tz as int, user_id@, assigned_to_any, is_team_project, type_filter)
                            + day_occurrence_entries(occurrences@, day as int, tz as int, user_id@, assigned_to_any, is_team_project, type_filter),
                    ),
                    p,
                )
                &&& r@.len() == p.len()
                &&& forall|k: int|
                    0 <= k < p.len() ==> #[trigger] r@[k] == (day_item_entries(due_items@, day as int, tz as int, user_id@, assigned_to_any, is_team_project, type_filter)
                        + day_occurrence_entries(occurrences@, day as int, tz as int, user_id@, assigned_to_any, is_team_project, type_filter))[p[k] as int]
            },
{
    let ghost a = day_item_entries(due_items@, day as int, tz as int, user_id@, assigned_to_any, is_team_project, type_filter);
    let ghost b = day_occurrence_entries(occurrences@, day as int, tz as int, user_id@, assigned_to_any, is_team_project, type_filter);
    let mut es: Vec<DayEntry> = Vec::new();
    let mut i: usize = 0;
    assert(due_items@.take(0) =~= Seq::<DueItem>::empty());
    while i < due_items.len()
        invariant
            i <= due_items@.len(),
            forall|k: int| 0 <= k < due_items@.len() ==> (#[trigger] due_items@[k]).item.dates_ok(),
            es@ == day_item_entries(due_items@.take(i as int), day as int, tz as int, user_id@, assigned_to_any, is_team_project, type_filter),
        decreases due_items@.len() - i,
    {
        assert(due_items@.take(i + 1).drop_last() =~= due_items@.take(i as int));
        assert(due_items@.take(i + 1).last() == due_items@[i as int]);
        let item = &due_items[i].item;
        assert(due_items@[i as int].item.dates_ok());
        let not_simple = match item.kind {
            ItemKind::Simple => false,
            _ => true,
        };
        let type_ok = match type_filter {
            Some(k) => k == item.kind,
            None => true,
        };
        let on_day = match calendar_date(item) {
            Some(t) => local_day(t, tz) == day,
            None => false,
        };
        if not_simple && type_ok && on_day && is_mine(item.kind, &item.assigned_to_user_id, user_id, assigned_to_any, is_team_project) {
            es.push((false, i));
        }
        i = i + 1;
    }
    assert(due_items@.take(due_items@.len() as int) =~= due_items@);
    let ghost head = es@;
    let mut j: usize = 0;
    assert(occurrences@.take(0) =~= Seq::<ProjectOccurrence>::empty());
    while j < occurrences.len()
        invariant
            j <= occurrences@.len(),
            forall|k: int| 0 <= k < occurrences@.len() ==> ts_ok((#[trigger] occurrences@[k]).occurrence_date),
            es@ == head + day_occurrence_entries(occurrences@.take(j as int), day as int, tz as int, user_id@, assigned_to_any, is_team_project, type_filter),
        decreases occurrences@.len() - j,
    {
        assert(occurrences@.take(j + 1).drop_last() =~= occurrences@.take(j as int));
        assert(occurrences@.take(j + 1).last() == occurrences@[j as int]);
        let o = &occurrences[j];
        assert(ts_ok(occurrences@[j as int].occurrence_date));
        let type_ok = match type_filter {
            Some(k) => k == o.item_type,
            None => true,
        };
        if !o.is_materialized() && type_ok && local_day(o.occurrence_date, tz) == day
            && is_mine(o.item_type, &o.assigned_to_user_id, user_id, assigned_to_any, is_team_project) {
            es.push((true, j));
        }
        j = j + 1;
    }
    assert(occurrences@.take(occurrences@.len() as int) =~= occurrences@);
    let ghost all = a + b;
    assert(es@ == all);
    proof {
        lemma_day_item_entries_valid(due_items@, day as int, tz as int, user_id@, assigned_to_any, is_team_project, type_filter);
        lemma_day_occurrence_entries_valid(occurrences@, day as int, tz as int, user_id@, assigned_to_any, is_team_project, type_filter);
    }
    let mut keys: Vec<i64> = Vec::new();
    let mut m: usize = 0;
    while m < es.len()
        invariant
            es@ == all,
            all == a + b,
            forall|q: int| 0 <= q < a.len() ==> { let e = #[trigger] a[q]; !e.0 && e.1 < due_items@.len() },
            forall|q: int| 0 <= q < b.len() ==> { let e = #[trigger] b[q]; e.0 && e.1 < occurrences@.len() },
            m <= es@.len(),
            keys@ == day_entry_keys(due_items@, occurrences@, all).take(m as int),
        decreases es@.len() - m,
    {
        let e = es[m];
        proof {
            if (m as int) < a.len() {
                assert(all[m as int] == a[m as int]);
            } else {
                assert(all[m as int] == b[m - a.len()]);
            }
        }
        let key = if e.0 {
            occurrences[e.1].occurrence_date
        } else {
            match calendar_date(&due_items[e.1].item) {
                Some(t) => t,
                None => i64::MAX,
            }
        };
        keys.push(key);
        assert(keys@ =~= day_entry_keys(due_items@, occurrences@, all).take(m + 1));
        m = m + 1;
    }
    assert(keys@ =~= day_entry_keys(due_items@, occurrences@, all));
    let order = stable_order(&keys);
    let mut out: Vec<DayEntry> = Vec::new();
    let mut n: usize = 0;
    while n < order.len()
        invariant
            es@ == all,
            is_stable_order(day_entry_keys(due_items@, occurrences@, all), order@),
            n <= order@.len(),
            out@.len() == n,
            forall|q: int| 0 <= q < n ==> #[trigger] out@[q] == all[order@[q] as int],
        decreases order@.len() - n,
    {
        out.push(es[order[n]]);
        n = n + 1;
    }
    out
}

} // verus!
