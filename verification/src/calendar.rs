//! Calendar-screen decisions shared by the per-project and cross-project screens: which
//! date an item is shown under, type badges and drawer tabs, who sees which item, item
//! URLs, and the six-week month grid with its per-day counts.
use vstd::prelude::*;
use vstd::string::*;
use crate::domain::{Item, ItemKind, ProjectOccurrence, ts_ok};
use crate::dates::{
    MIN_DAY, MAX_DAY, local_day_spec, local_day, civil_from_days, days_from_civil,
    weekday_from_monday, iso_day_text, date_parts, days_from_ymd, weekday_index, iso_day,
    valid_month, prev_month, next_month, prev_month_spec, next_month_spec, UNIX_EPOCH_DAY,
    SECS_PER_DAY, display_day_spec, format_display_naive_date, format_month_year, month_year_text,
};
use crate::event_forms::{parsed_ymd, parse_ymd};
use crate::storage::DueItem;
use crate::text::{str_eq, nat_digits, u64_to_string, zero_pad};

verus! {

/// The date a calendar or dashboard shows an item under: an Event's scheduled date
/// (falling back to its due date); any other item's due date.
pub open spec fn calendar_date_spec(item: Item) -> Option<i64> {
    match item.kind {
        ItemKind::Event => match item.scheduled_date {
            Some(d) => Some(d),
            None => item.due_date,
        },
        _ => item.due_date,
    }
}

pub fn calendar_date(item: &Item) -> (r: Option<i64>)
    ensures
        r == calendar_date_spec(*item),
{
    match item.kind {
        ItemKind::Event => match item.scheduled_date {
            Some(d) => Some(d),
            None => item.due_date,
        },
        _ => item.due_date,
    }
}

/// The date the Events screens show an item under: its scheduled date, else its due date.
pub open spec fn event_date_spec(item: Item) -> Option<i64> {
    match item.scheduled_date {
        Some(d) => Some(d),
        None => item.due_date,
    }
}

pub fn event_date(item: &Item) -> (r: Option<i64>)
    ensures
        r == event_date_spec(*item),
{
    match item.scheduled_date {
        Some(d) => Some(d),
        None => item.due_date,
    }
}

/// Whether the date a dashboard shows for the item carries a time of day.
pub open spec fn dashboard_has_time_spec(item: Item) -> bool {
    match item.kind {
        ItemKind::Event => if item.scheduled_date is Some {
            item.has_scheduled_time
        } else {
            item.has_due_time
        },
        _ => item.has_due_time,
    }
}

pub fn dashboard_has_time(item: &Item) -> (r: bool)
    ensures
        r == dashboard_has_time_spec(*item),
{
    match item.kind {
        ItemKind::Event => if item.scheduled_date.is_some() {
            item.has_scheduled_time
        } else {
            item.has_due_time
        },
        _ => item.has_due_time,
    }
}

pub open spec fn type_symbol_spec(kind: ItemKind) -> Seq<char> {
    match kind {
        ItemKind::Task => "T"@,
        ItemKind::Event => "E"@,
        ItemKind::Simple => "S"@,
        ItemKind::Template => "Tmpl"@,
    }
}

/// The short kind badge shown before an item's name on mixed-kind screens.
pub fn type_symbol(kind: ItemKind) -> (r: &'static str)
    ensures
        r@ == type_symbol_spec(kind),
{
    match kind {
        ItemKind::Task => "T",
        ItemKind::Event => "E",
        ItemKind::Simple => "S",
        ItemKind::Template => "Tmpl",
    }
}

pub open spec fn parse_type_filter_spec(raw: Option<Seq<char>>) -> Option<ItemKind> {
    match raw {
        Some(s) => if s == "task"@ {
            Some(ItemKind::Task)
        } else if s == "event"@ {
            Some(ItemKind::Event)
        } else {
            None
        },
        None => None,
    }
}

/// The All/Tasks/Events drawer tab: `"task"` or `"event"`; anything else means no filter.
pub fn parse_type_filter(raw: Option<&str>) -> (r: Option<ItemKind>)
    ensures
        r == parse_type_filter_spec(
            match raw {
                Some(s) => Some(s@),
                None => None,
            },
        ),
{
    match raw {
        Some(s) => if str_eq(s, "task") {
            Some(ItemKind::Task)
        } else if str_eq(s, "event") {
            Some(ItemKind::Event)
        } else {
            None
        },
        None => None,
    }
}

pub open spec fn active_type_label_spec(t: Option<ItemKind>) -> Seq<char> {
    match t {
        Some(ItemKind::Task) => "task"@,
        Some(ItemKind::Event) => "event"@,
        _ => "all"@,
    }
}

/// The canonical name of the drawer tab in force.
pub fn active_type_label(type_filter: Option<ItemKind>) -> (r: &'static str)
    ensures
        r@ == active_type_label_spec(type_filter),
{
    match type_filter {
        Some(ItemKind::Task) => "task",
        Some(ItemKind::Event) => "event",
        _ => "all",
    }
}

/// The tab's label parses back to the tab, for every tab a request can select.
pub proof fn lemma_type_label_round_trip(t: Option<ItemKind>)
    requires
        t == Some(ItemKind::Task) || t == Some(ItemKind::Event) || t is None,
    ensures
        parse_type_filter_spec(Some(active_type_label_spec(t))) == t,
{
    reveal_strlit("task");
    reveal_strlit("event");
    reveal_strlit("all");
    assert("task"@.len() == 4 && "event"@.len() == 5 && "all"@.len() == 3);
}

/// Who sees an item on a cross-project screen: Events always; a Task on a personal project,
/// or on a team project when it is assigned to the viewer; never Simple or Template items.
pub open spec fn is_included_spec(
    kind: ItemKind,
    is_team_project: bool,
    assigned_to: Option<Seq<char>>,
    user_id: Seq<char>,
) -> bool {
    match kind {
        ItemKind::Event => true,
        ItemKind::Task => !is_team_project || assigned_to == Some(user_id),
        _ => false,
    }
}

pub fn is_included(
    kind: ItemKind,
    is_team_project: bool,
    assigned_to: Option<&str>,
    user_id: &str,
) -> (r: bool)
    ensures
        r == is_included_spec(
            kind,
            is_team_project,
            match assigned_to {
                Some(s) => Some(s@),
                None => None,
            },
            user_id@,
        ),
{
    match kind {
        ItemKind::Event => true,
        ItemKind::Task => !is_team_project || match assigned_to {
            Some(a) => str_eq(a, user_id),
            None => false,
        },
        _ => false,
    }
}

/// The calendar's variant: `assigned_to_any` lifts the team-project assignment restriction.
pub fn is_included_any(
    kind: ItemKind,
    is_team_project: bool,
    assigned_to: Option<&str>,
    user_id: &str,
    assigned_to_any: bool,
) -> (r: bool)
    ensures
        r == (is_included_spec(
            kind,
            is_team_project,
            match assigned_to {
                Some(s) => Some(s@),
                None => None,
            },
            user_id@,
        ) || (assigned_to_any && kind == ItemKind::Task)),
{
    match kind {
        ItemKind::Event => true,
        ItemKind::Task => !is_team_project || assigned_to_any || match assigned_to {
            Some(a) => str_eq(a, user_id),
            None => false,
        },
        _ => false,
    }
}

pub open spec fn kind_path(kind: ItemKind) -> Seq<char> {
    match kind {
        ItemKind::Task => "tasks"@,
        ItemKind::Event => "events"@,
        ItemKind::Simple => "simple-lists"@,
        ItemKind::Template => "templates"@,
    }
}

/// `/web/projects/{project_id}/{kind path}/{item id}`.
pub open spec fn detail_url_spec(item: Item, project_id: Seq<char>) -> Seq<char> {
    "/web/projects/"@ + project_id + "/"@ + kind_path(item.kind) + "/"@ + item.id@
}

fn kind_path_str(kind: ItemKind) -> (r: &'static str)
    ensures
        r@ == kind_path(kind),
{
    match kind {
        ItemKind::Task => "tasks",
        ItemKind::Event => "events",
        ItemKind::Simple => "simple-lists",
        ItemKind::Template => "templates",
    }
}

/// The item's permanent detail page.
pub fn detail_url(item: &Item, project_id: &str) -> (r: String)
    ensures
        r@ == detail_url_spec(*item, project_id@),
{
    let s = String::from_str("/web/projects/").concat(project_id).concat("/").concat(
        kind_path_str(item.kind),
    ).concat("/").concat(item.id.as_str());
    s
}

// ---- the month grid -----------------------------------------------------------

/// The first cell of the six-week grid for `year`/`month`: the Monday (or, with
/// `sunday_first`, the Sunday) on or before the first of the month.
pub open spec fn grid_start_spec(year: int, month: int, sunday_first: bool) -> int {
    let first = days_from_civil(year, month, 1).unwrap() as int;
    let w = weekday_from_monday(first).unwrap() as int;
    let lead = if sunday_first {
        (w + 1) % 7
    } else {
        w
    };
    first - lead
}

pub fn grid_start_for(year: i32, month: u32, sunday_first: bool) -> (r: i32)
    requires
        valid_month(month),
        -262143 <= year <= 262142,
    ensures
        r == grid_start_spec(year as int, month as int, sunday_first),
        MIN_DAY - 6 <= r <= MAX_DAY,
{
    let first = days_from_ymd(year, month, 1).unwrap();
    let w = weekday_index(first).unwrap();
    let lead: u32 = if sunday_first {
        (w + 1) % 7
    } else {
        w
    };
    first - lead as i32
}

/// One cell of the month grid. `event_count` tallies the entries falling on that day.
pub struct CalendarDay {
    pub date: String,
    pub day_number: u32,
    pub is_current_month: bool,
    pub is_today: bool,
    pub is_selected: bool,
    pub event_count: usize,
}

/// How many of `days` equal `d`.
pub open spec fn count_day(days: Seq<i32>, d: int) -> nat
    decreases days.len(),
{
    if days.len() == 0 {
        0
    } else {
        count_day(days.drop_last(), d) + if days.last() == d {
            1nat
        } else {
            0nat
        }
    }
}

/// What the cell for day `d` of a grid of `year`/`month` shows.
pub open spec fn cell_ok(
    c: CalendarDay,
    d: int,
    year: int,
    month: int,
    days: Seq<i32>,
    today: int,
    selected: Option<i32>,
) -> bool {
    &&& c.date@ == match iso_day_text(d) {
        Some(t) => t,
        None => Seq::<char>::empty(),
    }
    &&& c.day_number == match civil_from_days(d) {
        Some((_, _, day)) => day,
        None => 0u32,
    }
    &&& c.is_current_month == match civil_from_days(d) {
        Some((y, m, _)) => y == year && m == month,
        None => false,
    }
    &&& c.is_today == (d == today)
    &&& c.is_selected == (selected == Some(d as i32))
    &&& c.event_count == count_day(days, d)
}

fn count_in(days: &Vec<i32>, d: i32) -> (r: usize)
    ensures
        r == count_day(days@, d as int),
{
    let mut i: usize = 0;
    let mut c: usize = 0;
    assert(days@.take(0) =~= Seq::<i32>::empty());
    while i < days.len()
        invariant
            i <= days@.len(),
            c == count_day(days@.take(i as int), d as int),
            c <= i,
        decreases days@.len() - i,
    {
        assert(days@.take(i + 1).drop_last() =~= days@.take(i as int));
        assert(days@.take(i + 1).last() == days@[i as int]);
        if days[i] == d {
            c = c + 1;
        }
        i = i + 1;
    }
    assert(days@.take(days@.len() as int) =~= days@);
    c
}

/// The 42 cells from `start`, each describing its day and tallying `days`.
pub fn grid_cells(
    start: i32,
    year: i32,
    month: u32,
    days: &Vec<i32>,
    today: i32,
    selected: Option<i32>,
) -> (r: Vec<CalendarDay>)
    requires
        MIN_DAY - 6 <= start <= MAX_DAY,
    ensures
        r@.len() == 42,
        forall|i: int|
            0 <= i < 42 ==> cell_ok(
                #[trigger] r@[i],
                start + i,
                year as int,
                month as int,
                days@,
                today as int,
                selected,
            ),
{
    let mut cells: Vec<CalendarDay> = Vec::new();
    let mut i: i32 = 0;
    while i < 42
        invariant
            0 <= i <= 42,
            MIN_DAY - 6 <= start <= MAX_DAY,
            cells@.len() == i,
            forall|k: int|
                0 <= k < i ==> cell_ok(
                    #[trigger] cells@[k],
                    start + k,
                    year as int,
                    month as int,
                    days@,
                    today as int,
                    selected,
                ),
        decreases 42 - i,
    {
        let d: i32 = start + i;
        let date = match iso_day(d) {
            Some(t) => t,
            None => String::new(),
        };
        let (day_number, is_current_month) = match date_parts(d) {
            Some((y, m, dn)) => (dn, y == year && m == month),
            None => (0u32, false),
        };
        let is_selected = match selected {
            Some(s) => s == d,
            None => false,
        };
        let cell = CalendarDay {
            date,
            day_number,
            is_current_month,
            is_today: d == today,
            is_selected,
            event_count: count_in(days, d),
        };
        cells.push(cell);
        i = i + 1;
    }
    cells
}

/// The local days of the dated items, in order (undated items contribute nothing).
pub open spec fn item_days(items: Seq<Item>, tz: int) -> Seq<i32>
    decreases items.len(),
{
    if items.len() == 0 {
        Seq::<i32>::empty()
    } else {
        let init = item_days(items.drop_last(), tz);
        match event_date_spec(items.last()) {
            Some(t) => init.push(local_day_spec(t as int, tz) as i32),
            None => init,
        }
    }
}

/// The local days of the occurrences, in order.
pub open spec fn occurrence_days(occs: Seq<ProjectOccurrence>, tz: int) -> Seq<i32> {
    occs.map_values(|o: ProjectOccurrence| local_day_spec(o.occurrence_date as int, tz) as i32)
}

pub open spec fn all_dates_ok(items: Seq<Item>) -> bool {
    forall|i: int| 0 <= i < items.len() ==> (#[trigger] items[i]).dates_ok()
}

pub open spec fn occurrence_dates_ok(occs: Seq<ProjectOccurrence>) -> bool {
    forall|i: int| 0 <= i < occs.len() ==> ts_ok((#[trigger] occs[i]).occurrence_date)
}

/// Builds the 42-cell, Monday-first grid for `year`/`month` of an Events screen, counting
/// the items (by scheduled date, else due date) and the still-virtual occurrences on each
/// local day. `today`/`selected_date` are day numbers.
pub fn build_calendar_days(
    year: i32,
    month: u32,
    items: &Vec<Item>,
    virtual_occurrences: &Vec<ProjectOccurrence>,
    tz: i32,
    today: i32,
    selected_date: Option<i32>,
) -> (r: Vec<CalendarDay>)
    requires
        valid_month(month),
        -262143 <= year <= 262142,
        all_dates_ok(items@),
        occurrence_dates_ok(virtual_occurrences@),
    ensures
        r@.len() == 42,
        forall|i: int|
            0 <= i < 42 ==> cell_ok(
                #[trigger] r@[i],
                grid_start_spec(year as int, month as int, false) + i,
                year as int,
                month as int,
                item_days(items@, tz as int) + occurrence_days(virtual_occurrences@, tz as int),
                today as int,
                selected_date,
            ),
{
    let start = grid_start_for(year, month, false);
    let mut days: Vec<i32> = Vec::new();
    let mut i: usize = 0;
    assert(items@.take(0) =~= Seq::<Item>::empty());
    while i < items.len()
        invariant
            i <= items@.len(),
            all_dates_ok(items@),
            days@ == item_days(items@.take(i as int), tz as int),
        decreases items@.len() - i,
    {
        assert(items@.take(i + 1).drop_last() =~= items@.take(i as int));
        assert(items@.take(i + 1).last() == items@[i as int]);
        let item = &items[i];
        assert(item.dates_ok());
        match event_date(item) {
            Some(t) => {
                days.push(local_day(t, tz));
            },
            None => {},
        }
        i = i + 1;
    }
    assert(items@.take(items@.len() as int) =~= items@);
    let ghost head = days@;
    let mut j: usize = 0;
    while j < virtual_occurrences.len()
        invariant
            j <= virtual_occurrences@.len(),
            occurrence_dates_ok(virtual_occurrences@),
            days@ == head + occurrence_days(virtual_occurrences@.take(j as int), tz as int),
        decreases virtual_occurrences@.len() - j,
    {
        let o = &virtual_occurrences[j];
        assert(ts_ok(virtual_occurrences@[j as int].occurrence_date));
        days.push(local_day(o.occurrence_date, tz));
        assert(occurrence_days(virtual_occurrences@.take(j + 1), tz as int) =~= occurrence_days(
            virtual_occurrences@.take(j as int),
            tz as int,
        ).push(local_day_spec(o.occurrence_date as int, tz as int) as i32));
        j = j + 1;
    }
    assert(virtual_occurrences@.take(virtual_occurrences@.len() as int)
        =~= virtual_occurrences@);
    grid_cells(start, year, month, &days, today, selected_date)
}

/// The local days of the dated due items (by `calendar_date`), in order.
pub open spec fn due_item_days(items: Seq<(DueItem, String, String)>, tz: int) -> Seq<i32>
    decreases items.len(),
{
    if items.len() == 0 {
        Seq::<i32>::empty()
    } else {
        let init = due_item_days(items.drop_last(), tz);
        match calendar_date_spec(items.last().0.item) {
            Some(t) => init.push(local_day_spec(t as int, tz) as i32),
            None => init,
        }
    }
}

pub open spec fn tagged_occurrence_days(occs: Seq<(ProjectOccurrence, String, String)>, tz: int) -> Seq<i32> {
    occs.map_values(|o: (ProjectOccurrence, String, String)| local_day_spec(o.0.occurrence_date as int, tz) as i32)
}

/// `r` is the Home calendar's grid: 42 cells from the Sunday on or before the first of the
/// month, each tallying the items and occurrences of its day.
pub open spec fn main_calendar_result(
    year: int,
    month: int,
    due_items: Seq<(DueItem, String, String)>,
    occurrences: Seq<(ProjectOccurrence, String, String)>,
    tz: int,
    today: int,
    selected_date: Option<i32>,
    r: Seq<CalendarDay>,
) -> bool {
    &&& r.len() == 42
    &&& forall|i: int|
        0 <= i < 42 ==> cell_ok(
            #[trigger] r[i],
            grid_start_spec(year, month, true) + i,
            year,
            month,
            due_item_days(due_items, tz) + tagged_occurrence_days(occurrences, tz),
            today,
            selected_date,
        )
}

/// The local day of an instant the calendar holds, under any minute offset, is an `i32`.
pub proof fn lemma_local_day_fits(t: i64, tz: int)
    requires
        ts_ok(t),
        i32::MIN <= tz <= i32::MAX,
    ensures
        i32::MIN <= local_day_spec(t as int, tz) <= i32::MAX,
{
    let l = crate::dates::to_local_spec(t as int, tz);
    assert(-8_100_000_000_000 <= l <= 8_100_000_000_000);
    assert(-100_000_000 <= l / 86400 <= 100_000_000);
}

/// On the Home calendar a Task (any item but an Event) counts on the local day of its due
/// date, whatever its scheduled date, and nowhere without a due date: adding one such item
/// to the list raises exactly that day's cell by one and leaves every other cell as it was.
pub proof fn lemma_main_calendar_counts_by_due_date(
    year: int,
    month: int,
    items: Seq<(DueItem, String, String)>,
    x: (DueItem, String, String),
    occurrences: Seq<(ProjectOccurrence, String, String)>,
    tz: int,
    today: int,
    selected_date: Option<i32>,
    r: Seq<CalendarDay>,
    r2: Seq<CalendarDay>,
)
    requires
        !(x.0.item.kind is Event),
        x.0.item.dates_ok(),
        i32::MIN <= tz <= i32::MAX,
        main_calendar_result(year, month, items, occurrences, tz, today, selected_date, r),
        main_calendar_result(year, month, items.push(x), occurrences, tz, today, selected_date, r2),
    ensures
        forall|i: int|
            0 <= i < 42 ==> (#[trigger] r2[i]).event_count == r[i].event_count + match x.0.item.due_date {
                Some(t) => if local_day_spec(t as int, tz) == grid_start_spec(year, month, true) + i {
                    1int
                } else {
                    0int
                },
                None => 0int,
            },
{
    let a = due_item_days(items, tz);
    let a2 = due_item_days(items.push(x), tz);
    let b = tagged_occurrence_days(occurrences, tz);
    assert(items.push(x).drop_last() =~= items);
    assert(items.push(x).last() == x);
    match x.0.item.due_date {
        Some(t) => {
            lemma_local_day_fits(t, tz);
            assert(a2 == a.push(local_day_spec(t as int, tz) as i32));
        },
        None => {
            assert(a2 == a);
        },
    }
    assert forall|i: int| 0 <= i < 42 implies (#[trigger] r2[i]).event_count == r[i].event_count + match x.0.item.due_date {
        Some(t) => if local_day_spec(t as int, tz) == grid_start_spec(year, month, true) + i {
            1int
        } else {
            0int
        },
        None => 0int,
    } by {
        let d = grid_start_spec(year, month, true) + i;
        assert(cell_ok(r[i], d, year, month, a + b, today, selected_date));
        assert(cell_ok(r2[i], d, year, month, a2 + b, today, selected_date));
        lemma_count_day_splits(a, b, d);
        lemma_count_day_splits(a2, b, d);
        match x.0.item.due_date {
            Some(t) => {
                assert(a.push(local_day_spec(t as int, tz) as i32).drop_last() =~= a);
            },
            None => {},
        }
    }
}

/// A Home calendar grid over no items and no occurrences counts nothing in any cell.
pub proof fn lemma_main_calendar_empty(
    year: int,
    month: int,
    tz: int,
    today: int,
    selected_date: Option<i32>,
    r: Seq<CalendarDay>,
)
    requires
        main_calendar_result(year, month, Seq::empty(), Seq::empty(), tz, today, selected_date, r),
    ensures
        forall|i: int| 0 <= i < 42 ==> (#[trigger] r[i]).event_count == 0,
{
    let days = due_item_days(Seq::<(DueItem, String, String)>::empty(), tz) + tagged_occurrence_days(
        Seq::<(ProjectOccurrence, String, String)>::empty(),
        tz,
    );
    assert(days =~= Seq::<i32>::empty());
    assert forall|i: int| 0 <= i < 42 implies (#[trigger] r[i]).event_count == 0 by {
        assert(cell_ok(r[i], grid_start_spec(year, month, true) + i, year, month, days, today, selected_date));
    }
}

/// On the Home calendar an Event counts on the local day of its scheduled date, or of its
/// due date when it has no scheduled date, and nowhere without either: adding one raises
/// exactly that day's cell by one.
pub proof fn lemma_main_calendar_counts_events_by_schedule(
    year: int,
    month: int,
    items: Seq<(DueItem, String, String)>,
    x: (DueItem, String, String),
    occurrences: Seq<(ProjectOccurrence, String, String)>,
    tz: int,
    today: int,
    selected_date: Option<i32>,
    r: Seq<CalendarDay>,
    r2: Seq<CalendarDay>,
)
    requires
        x.0.item.kind is Event,
        x.0.item.dates_ok(),
        i32::MIN <= tz <= i32::MAX,
        main_calendar_result(year, month, items, occurrences, tz, today, selected_date, r),
        main_calendar_result(year, month, items.push(x), occurrences, tz, today, selected_date, r2),
    ensures
        forall|i: int|
            0 <= i < 42 ==> (#[trigger] r2[i]).event_count == r[i].event_count + match (
                if x.0.item.scheduled_date is Some { x.0.item.scheduled_date } else { x.0.item.due_date }
            ) {
                Some(t) => if local_day_spec(t as int, tz) == grid_start_spec(year, month, true) + i {
                    1int
                } else {
                    0int
                },
                None => 0int,
            },
{
    let a = due_item_days(items, tz);
    let a2 = due_item_days(items.push(x), tz);
    let b = tagged_occurrence_days(occurrences, tz);
    assert(items.push(x).drop_last() =~= items);
    assert(items.push(x).last() == x);
    let when = if x.0.item.scheduled_date is Some { x.0.item.scheduled_date } else { x.0.item.due_date };
    assert(calendar_date_spec(x.0.item) == when);
    match when {
        Some(t) => {
            lemma_local_day_fits(t, tz);
            assert(a2 == a.push(local_day_spec(t as int, tz) as i32));
        },
        None => {
            assert(a2 == a);
        },
    }
    assert forall|i: int| 0 <= i < 42 implies (#[trigger] r2[i]).event_count == r[i].event_count + match when {
        Some(t) => if local_day_spec(t as int, tz) == grid_start_spec(year, month, true) + i {
            1int
        } else {
            0int
        },
        None => 0int,
    } by {
        let d = grid_start_spec(year, month, true) + i;
        assert(cell_ok(r[i], d, year, month, a + b, today, selected_date));
        assert(cell_ok(r2[i], d, year, month, a2 + b, today, selected_date));
        match when {
            Some(t) => {
                lemma_count_day_push(a, b, local_day_spec(t as int, tz) as i32, d);
            },
            None => {},
        }
    }
}

/// On the Home calendar every occurrence given counts on its local day: adding one raises
/// exactly that day's cell by one.
pub proof fn lemma_main_calendar_counts_occurrences(
    year: int,
    month: int,
    items: Seq<(DueItem, String, String)>,
    occurrences: Seq<(ProjectOccurrence, String, String)>,
    o: (ProjectOccurrence, String, String),
    tz: int,
    today: int,
    selected_date: Option<i32>,
    r: Seq<CalendarDay>,
    r2: Seq<CalendarDay>,
)
    requires
        ts_ok(o.0.occurrence_date),
        i32::MIN <= tz <= i32::MAX,
        main_calendar_result(year, month, items, occurrences, tz, today, selected_date, r),
        main_calendar_result(year, month, items, occurrences.push(o), tz, today, selected_date, r2),
    ensures
        forall|i: int|
            0 <= i < 42 ==> (#[trigger] r2[i]).event_count == r[i].event_count + if local_day_spec(
                o.0.occurrence_date as int,
                tz,
            ) == grid_start_spec(year, month, true) + i {
                1int
            } else {
                0int
            },
{
    let a = due_item_days(items, tz);
    let b = tagged_occurrence_days(occurrences, tz);
    let b2 = tagged_occurrence_days(occurrences.push(o), tz);
    lemma_local_day_fits(o.0.occurrence_date, tz);
    let v = local_day_spec(o.0.occurrence_date as int, tz) as i32;
    assert(b2 =~= b.push(v));
    assert forall|i: int| 0 <= i < 42 implies (#[trigger] r2[i]).event_count == r[i].event_count + if local_day_spec(
        o.0.occurrence_date as int,
        tz,
    ) == grid_start_spec(year, month, true) + i {
        1int
    } else {
        0int
    } by {
        let d = grid_start_spec(year, month, true) + i;
        assert(cell_ok(r[i], d, year, month, a + b, today, selected_date));
        assert(cell_ok(r2[i], d, year, month, a + b2, today, selected_date));
        lemma_count_day_push(a, b, v, d);
    }
}

/// The cross-project calendar's Sunday-first grid: due items (each tagged with its project
/// id and name) counted by `calendar_date`, plus the tagged virtual occurrences.
pub fn build_main_calendar_days(
    year: i32,
    month: u32,
    due_items: &Vec<(DueItem, String, String)>,
    virtual_occurrences: &Vec<(ProjectOccurrence, String, String)>,
    tz: i32,
    today: i32,
    selected_date: Option<i32>,
) -> (r: Vec<CalendarDay>)
    requires
        valid_month(month),
        -262143 <= year <= 262142,
        forall|i: int| 0 <= i < due_items@.len() ==> (#[trigger] due_items@[i]).0.item.dates_ok(),
        forall|i: int|
            0 <= i < virtual_occurrences@.len() ==> ts_ok(
                (#[trigger] virtual_occurrences@[i]).0.occurrence_date,
            ),
    ensures
        main_calendar_result(
            year as int,
            month as int,
            due_items@,
            virtual_occurrences@,
            tz as int,
            today as int,
            selected_date,
            r@,
        ),
{
    let start = grid_start_for(year, month, true);
    let mut days: Vec<i32> = Vec::new();
    let mut i: usize = 0;
    assert(due_items@.take(0) =~= Seq::<(DueItem, String, String)>::empty());
    while i < due_items.len()
        invariant
            i <= due_items@.len(),
            forall|k: int| 0 <= k < due_items@.len() ==> (#[trigger] due_items@[k]).0.item.dates_ok(),
            days@ == due_item_days(due_items@.take(i as int), tz as int),
        decreases due_items@.len() - i,
    {
        assert(due_items@.take(i + 1).drop_last() =~= due_items@.take(i as int));
        assert(due_items@.take(i + 1).last() == due_items@[i as int]);
        let item = &due_items[i].0.item;
        assert(due_items@[i as int].0.item.dates_ok());
        match calendar_date(item) {
            Some(t) => {
                days.push(local_day(t, tz));
            },
            None => {},
        }
        i = i + 1;
    }
    assert(due_items@.take(due_items@.len() as int) =~= due_items@);
    let ghost head = days@;
    let mut j: usize = 0;
    while j < virtual_occurrences.len()
        invariant
            j <= virtual_occurrences@.len(),
            forall|k: int|
                0 <= k < virtual_occurrences@.len() ==> ts_ok(
                    (#[trigger] virtual_occurrences@[k]).0.occurrence_date,
                ),
            days@ == head + tagged_occurrence_days(virtual_occurrences@.take(j as int), tz as int),
        decreases virtual_occurrences@.len() - j,
    {
        let o = &virtual_occurrences[j].0;
        assert(ts_ok(virtual_occurrences@[j as int].0.occurrence_date));
        days.push(local_day(o.occurrence_date, tz));
        assert(tagged_occurrence_days(virtual_occurrences@.take(j + 1), tz as int)
            =~= tagged_occurrence_days(virtual_occurrences@.take(j as int), tz as int).push(
            local_day_spec(o.occurrence_date as int, tz as int) as i32,
        ));
        j = j + 1;
    }
    assert(virtual_occurrences@.take(virtual_occurrences@.len() as int)
        =~= virtual_occurrences@);
    grid_cells(start, year, month, &days, today, selected_date)
}

/// Every day's count in a grid adds up: the cells of a grid never count an entry twice,
/// and an entry on a day inside the grid is counted in exactly that day's cell.
pub proof fn lemma_count_day_splits(a: Seq<i32>, b: Seq<i32>, d: int)
    ensures
        count_day(a + b, d) == count_day(a, d) + count_day(b, d),
    decreases b.len(),
{
    if b.len() == 0 {
        assert(a + b =~= a);
    } else {
        assert((a + b).drop_last() =~= a + b.drop_last());
        lemma_count_day_splits(a, b.drop_last(), d);
    }
}

/// One more day in either part of a tally raises the count of that day by one and no
/// other.
pub proof fn lemma_count_day_push(a: Seq<i32>, b: Seq<i32>, v: i32, d: int)
    ensures
        count_day(a.push(v) + b, d) == count_day(a + b, d) + if v == d { 1int } else { 0int },
        count_day(a + b.push(v), d) == count_day(a + b, d) + if v == d { 1int } else { 0int },
{
    lemma_count_day_splits(a.push(v), b, d);
    lemma_count_day_splits(a, b, d);
    lemma_count_day_splits(a, b.push(v), d);
    assert(a.push(v).drop_last() =~= a);
    assert(b.push(v).drop_last() =~= b);
}

// ---- the month a calendar page shows ------------------------------------------

// ---- the month heading --------------------------------------------------------

/// An integer written as Rust's `{:0w$}` writes it: zero-padded to `width` characters, a
/// minus sign counting toward the width.
pub open spec fn padded_int(n: int, width: nat) -> Seq<char> {
    if n < 0 {
        seq!['-'] + zero_pad(nat_digits((-n) as nat), (width - 1) as nat)
    } else {
        zero_pad(nat_digits(n as nat), width)
    }
}

/// `YYYY-MM` of a month, as the month picker takes it.
pub open spec fn month_iso_spec(year: int, month: int) -> Seq<char> {
    padded_int(year, 4) + seq!['-'] + zero_pad(nat_digits(month as nat), 2)
}

fn pad_zeros(s: String, width: usize) -> (r: String)
    ensures
        r@ == zero_pad(s@, width as nat),
{
    let n = s.unicode_len();
    if n >= width {
        return s;
    }
    let mut out = String::new();
    let mut i: usize = n;
    while i < width
        invariant
            n == s@.len(),
            n <= i <= width,
            out@ =~= Seq::new((i - n) as nat, |k: int| '0'),
        decreases width - i,
    {
        let ghost before = out@;
        out = out.concat("0");
        proof {
            reveal_strlit("0");
        }
        assert("0"@ =~= seq!['0']);
        assert(out@ =~= before + seq!['0']);
        i = i + 1;
    }
    out.concat(s.as_str())
}

/// The month heading of a calendar page: `%B %Y` (e.g. `November 2023`) as chrono writes
/// the month's first day, and `YYYY-MM`.
pub fn month_heading(year: i32, month: u32) -> (r: (String, String))
    requires
        valid_month(month),
        -262143 <= year <= 262142,
    ensures
        days_from_civil(year as int, month as int, 1) matches Some(d) && month_year_text(d as int) == Some(r.0@),
        r.1@ == month_iso_spec(year as int, month as int),
{
    let first = days_from_ymd(year, month, 1).unwrap();
    let label = format_month_year(first).unwrap();
    let year_text = if year < 0 {
        let digits = u64_to_string((0 - year) as u64);
        String::from_str("-").concat(pad_zeros(digits, 3).as_str())
    } else {
        pad_zeros(u64_to_string(year as u64), 4)
    };
    let month_text = pad_zeros(u64_to_string(month as u64), 2);
    proof {
        reveal_strlit("-");
    }
    let iso = year_text.concat("-").concat(month_text.as_str());
    assert(iso@ =~= month_iso_spec(year as int, month as int));
    (label, iso)
}

/// The month a calendar page shows, the day selected in it, and the UTC window its grid
/// covers (from the first cell's local midnight to the last cell's 23:59:59).
#[derive(Debug, Clone)]
pub struct MonthView {
    pub year: i32,
    pub month: u32,
    pub selected_date: Option<i32>,
    pub range_start: i64,
    pub range_end: i64,
    pub prev_year: i32,
    pub prev_month: u32,
    pub next_year: i32,
    pub next_month: u32,
}

/// The requested year, else today's.
pub open spec fn view_year(year: Option<i32>, today: int) -> int {
    match year {
        Some(y) => y as int,
        None => civil_from_days(today).unwrap().0 as int,
    }
}

/// The requested month when it is 1-12, else today's.
pub open spec fn view_month(month: Option<u32>, today: int) -> int {
    match month {
        Some(m) => if 1 <= m <= 12 {
            m as int
        } else {
            civil_from_days(today).unwrap().1 as int
        },
        None => civil_from_days(today).unwrap().1 as int,
    }
}

/// The UTC instant of `secs` into local day `day`.
pub open spec fn local_day_to_utc(day: int, secs: int, tz: int) -> int {
    (day - UNIX_EPOCH_DAY) * SECS_PER_DAY + secs + tz * 60
}

/// Resolves a calendar page's query against the local `today` (a day number): the month
/// shown, the selected `%Y-%m-%d` day, the grid's UTC window and the neighbouring months.
pub fn month_view(
    year: Option<i32>,
    month: Option<u32>,
    date: Option<&str>,
    today: i32,
    tz: i32,
    sunday_first: bool,
) -> (r: MonthView)
    requires
        MIN_DAY <= today <= MAX_DAY,
        year matches Some(y) ==> -262143 <= y <= 262142,
    ensures
        r.year == view_year(year, today as int),
        r.month == view_month(month, today as int),
        r.selected_date == (match date {
            Some(d) => parsed_ymd(d@),
            None => None,
        }),
        r.range_start == local_day_to_utc(grid_start_spec(r.year as int, r.month as int, sunday_first), 0, tz as int),
        r.range_end == local_day_to_utc(grid_start_spec(r.year as int, r.month as int, sunday_first) + 41, 86_399, tz as int),
        (r.prev_year as int, r.prev_month as int) == prev_month_spec(r.year as int, r.month as int),
        (r.next_year as int, r.next_month as int) == next_month_spec(r.year as int, r.month as int),
{
    let (ty, tm, _td) = date_parts(today).unwrap();
    let y = match year {
        Some(y) => y,
        None => ty,
    };
    let m = match month {
        Some(m) => if 1 <= m && m <= 12 {
            m
        } else {
            tm
        },
        None => tm,
    };
    let selected_date = match date {
        Some(d) => parse_ymd(d),
        None => None,
    };
    let start = grid_start_for(y, m, sunday_first) as i64;
    let tz_secs = (tz as i64) * 60;
    let range_start = (start - UNIX_EPOCH_DAY) * SECS_PER_DAY + tz_secs;
    let range_end = (start + 41 - UNIX_EPOCH_DAY) * SECS_PER_DAY + 86_399 + tz_secs;
    let (prev_year, prev_month) = prev_month(y, m);
    let (next_year, next_month) = next_month(y, m);
    MonthView { year: y, month: m, selected_date, range_start, range_end, prev_year, prev_month, next_year, next_month }
}

// ---- the day drawer ----------------------------------------------------------------

/// The day drawer's header: the selected day, its neighbours (for the arrows) and the tab
/// and assignment toggle in force.
#[derive(Debug, Clone)]
pub struct DayDrawerData {
    pub date_iso: String,
    pub date_year: i32,
    pub date_month: u32,
    pub selected_date_label: String,
    pub prev_date: String,
    pub prev_year: i32,
    pub prev_month: u32,
    pub next_date: String,
    pub next_year: i32,
    pub next_month: u32,
    pub active_type: &'static str,
    pub assigned_to_any: bool,
}

pub open spec fn drawer_ok(
    r: DayDrawerData,
    day: int,
    type_filter: Option<ItemKind>,
    assigned_to_any: bool,
    this_year: int,
) -> bool {
    &&& r.date_iso@ == iso_day_text(day).unwrap()
    &&& r.date_year == civil_from_days(day).unwrap().0
    &&& r.date_month == civil_from_days(day).unwrap().1
    &&& r.selected_date_label@ == display_day_spec(day, this_year)
    &&& r.prev_date@ == iso_day_text(day - 1).unwrap()
    &&& r.prev_year == civil_from_days(day - 1).unwrap().0
    &&& r.prev_month == civil_from_days(day - 1).unwrap().1
    &&& r.next_date@ == iso_day_text(day + 1).unwrap()
    &&& r.next_year == civil_from_days(day + 1).unwrap().0
    &&& r.next_month == civil_from_days(day + 1).unwrap().1
    &&& r.active_type@ == active_type_label_spec(type_filter)
    &&& r.assigned_to_any == assigned_to_any
}

impl DayDrawerData {
    /// The drawer of `day`, its label judged against `this_year`.
    pub fn for_day_in(day: i32, type_filter: Option<ItemKind>, assigned_to_any: bool, this_year: i32) -> (r: Self)
        requires
            MIN_DAY < day < MAX_DAY,
        ensures
            drawer_ok(r, day as int, type_filter, assigned_to_any, this_year as int),
    {
        let (y, m, _d) = date_parts(day).unwrap();
        let (py, pm, _pd) = date_parts(day - 1).unwrap();
        let (ny, nm, _nd) = date_parts(day + 1).unwrap();
        DayDrawerData {
            date_iso: iso_day(day).unwrap(),
            date_year: y,
            date_month: m,
            selected_date_label: format_display_naive_date(day, this_year),
            prev_date: iso_day(day - 1).unwrap(),
            prev_year: py,
            prev_month: pm,
            next_date: iso_day(day + 1).unwrap(),
            next_year: ny,
            next_month: nm,
            active_type: active_type_label(type_filter),
            assigned_to_any,
        }
    }
}

/// The drawer of the selected day, if a day is selected; its label is judged against
/// `this_year` (the current year).
pub fn day_drawer(date: Option<i32>, type_filter: Option<ItemKind>, assigned_to_any: bool, this_year: i32) -> (r: Option<DayDrawerData>)
    requires
        date matches Some(d) ==> MIN_DAY < d < MAX_DAY,
    ensures
        match date {
            Some(d) => r matches Some(dr) && drawer_ok(dr, d as int, type_filter, assigned_to_any, this_year as int),
            None => r is None,
        },
{
    match date {
        Some(d) => Some(DayDrawerData::for_day_in(d, type_filter, assigned_to_any, this_year)),
        None => None,
    }
}

} // verus!
