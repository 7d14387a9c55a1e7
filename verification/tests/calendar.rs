use todo_web::storage::{item_from_row, ItemRow};
use todo_web::dates::{format_display_date, format_display_naive_date};
use todo_web::calendar::{day_drawer, DayDrawerData};
use chrono::{Datelike, NaiveDate};
use todo_web::calendar::{
    active_type_label, build_calendar_days, build_main_calendar_days, calendar_date,
    dashboard_has_time, detail_url, event_date, grid_start_for, is_included, is_included_any,
    parse_type_filter, type_symbol,
};
use todo_web::dates::{
    date_input, day_of, local_day, local_label, next_month, opt_label, prev_month, time_input,
    to_local,
};
use todo_web::domain::{Item, ItemKind, OccurrenceState, ProjectOccurrence};
use todo_web::storage::{not_found, plan_auto_reminder_sync, AutoReminderRow, DueItem, RepoError, ReminderSyncStep};
use todo_web::text::{i64_to_string, join, parse_i32, split_char, strip_prefix, trim, u64_to_string};

// 2023-11-14 22:13:20 UTC.
const TS: i64 = 1_700_000_000;

fn item(id: &str, kind: ItemKind) -> Item {
    Item {
        id: id.to_string(),
        name: id.to_string(),
        description: None,
        kind,
        complete: false,
        due_date: None,
        scheduled_date: None,
        scheduled_end_date: None,
        has_due_time: false,
        has_scheduled_time: false,
        has_end_time: false,
        assigned_to_user_id: None,
        priority: None,
        series_id: None,
        parent_item_id: None,
        has_children: false,
        event_type: None,
        google_event_id: None,
        due_offset_days: None,
        source_event_id: None,
        points: None,
    }
}

fn day(y: i32, m: u32, d: u32) -> i32 {
    NaiveDate::from_ymd_opt(y, m, d).unwrap().num_days_from_ce()
}

#[test]
fn labels_and_inputs_format_local_time() {
    assert_eq!(local_label(TS, 0, true), "2023-11-14 22:13");
    assert_eq!(local_label(TS, 0, false), "2023-11-14");
    assert_eq!(local_label(TS, -120, true), "2023-11-15 00:13");
    assert_eq!(opt_label(None, 0, true), None);
    assert_eq!(date_input(Some(TS), 60), "2023-11-14");
    assert_eq!(time_input(Some(TS), 60, true), "21:13");
    assert_eq!(time_input(Some(TS), 60, false), "");
    assert_eq!(date_input(None, 0), "");
}

#[test]
fn local_time_subtracts_the_offset() {
    assert_eq!(to_local(TS, 60), TS - 3600);
    assert_eq!(day_of(TS), day(2023, 11, 14));
    assert_eq!(day_of(-1), day(1969, 12, 31));
    // 23:13 local east of UTC is still the 14th; two hours further east it is the 15th.
    assert_eq!(local_day(TS, -60), day(2023, 11, 14));
    assert_eq!(local_day(TS, -120), day(2023, 11, 15));
}

#[test]
fn months_step_across_year_ends() {
    assert_eq!(prev_month(2024, 1), (2023, 12));
    assert_eq!(prev_month(2024, 5), (2024, 4));
    assert_eq!(next_month(2023, 12), (2024, 1));
    assert_eq!(next_month(2023, 3), (2023, 4));
    assert_eq!(prev_month(next_month(2023, 12).0, next_month(2023, 12).1), (2023, 12));
}

#[test]
fn item_dates_and_badges() {
    let mut ev = item("e1", ItemKind::Event);
    ev.due_date = Some(10);
    assert_eq!(calendar_date(&ev), Some(10));
    ev.scheduled_date = Some(20);
    assert_eq!(calendar_date(&ev), Some(20));
    assert_eq!(event_date(&ev), Some(20));
    let mut task = item("t1", ItemKind::Task);
    task.scheduled_date = Some(20);
    assert_eq!(calendar_date(&task), None);
    assert_eq!(event_date(&task), Some(20));
    task.has_due_time = true;
    assert!(dashboard_has_time(&task));
    assert_eq!(type_symbol(ItemKind::Task), "T");
    assert_eq!(type_symbol(ItemKind::Event), "E");
    assert_eq!(parse_type_filter(Some("task")), Some(ItemKind::Task));
    assert_eq!(parse_type_filter(Some("event")), Some(ItemKind::Event));
    assert_eq!(parse_type_filter(Some("all")), None);
    assert_eq!(parse_type_filter(None), None);
    assert_eq!(active_type_label(Some(ItemKind::Task)), "task");
    assert_eq!(active_type_label(None), "all");
    assert_eq!(parse_type_filter(Some(active_type_label(Some(ItemKind::Event)))), Some(ItemKind::Event));
    assert_eq!(detail_url(&ev, "p1"), "/web/projects/p1/events/e1");
    assert_eq!(detail_url(&item("s1", ItemKind::Simple), "p1"), "/web/projects/p1/simple-lists/s1");
}

#[test]
fn inclusion_on_cross_project_screens() {
    assert!(is_included(ItemKind::Event, true, None, "u1"));
    assert!(is_included(ItemKind::Task, false, None, "u1"));
    assert!(!is_included(ItemKind::Task, true, Some("u2"), "u1"));
    assert!(is_included(ItemKind::Task, true, Some("u1"), "u1"));
    assert!(!is_included(ItemKind::Simple, false, None, "u1"));
    assert!(is_included_any(ItemKind::Task, true, Some("u2"), "u1", true));
    assert!(!is_included_any(ItemKind::Template, false, None, "u1", true));
}

#[test]
fn month_grid_counts_items_and_occurrences_per_local_day() {
    // November 2023 starts on a Wednesday: the Monday-first grid opens on 30 October.
    assert_eq!(grid_start_for(2023, 11, false), day(2023, 10, 30));
    // The Sunday-first grid opens on 29 October.
    assert_eq!(grid_start_for(2023, 11, true), day(2023, 10, 29));

    let mut ev = item("e1", ItemKind::Event);
    ev.scheduled_date = Some(TS);
    let mut undated = item("e2", ItemKind::Event);
    undated.name = "no date".to_string();
    let occ = ProjectOccurrence {
        series_id: "s1".to_string(),
        series_name: "Series".to_string(),
        item_type: ItemKind::Event,
        event_type: None,
        occurrence_date: TS + 3600,
        is_current: false,
        assigned_to_user_id: None,
        assigned_to_user_name: None,
        state: OccurrenceState::Virtual,
        is_due_date_basis: false,
        priority: None,
    };
    let today = day(2023, 11, 14);
    let days = build_calendar_days(2023, 11, &vec![ev, undated], &vec![occ], 0, today, Some(day(2023, 11, 1)));
    assert_eq!(days.len(), 42);
    assert_eq!(days[0].date, "2023-10-30");
    assert!(!days[0].is_current_month);
    assert_eq!(days[2].date, "2023-11-01");
    assert_eq!(days[2].day_number, 1);
    assert!(days[2].is_current_month && days[2].is_selected);
    assert_eq!(days[15].date, "2023-11-14");
    assert!(days[15].is_today);
    assert_eq!(days[15].event_count, 2);
    let total: usize = days.iter().map(|d| d.event_count).sum();
    assert_eq!(total, 2);
    // Shifted two hours east, both land on the 15th.
    let mut ev = item("e1", ItemKind::Event);
    ev.scheduled_date = Some(TS);
    let days = build_calendar_days(2023, 11, &vec![ev], &Vec::new(), -120, today, None);
    assert_eq!(days[16].event_count, 1);
    assert_eq!(days[15].event_count, 0);
}

#[test]
fn main_calendar_grid_is_sunday_first() {
    let mut task = item("t1", ItemKind::Task);
    task.due_date = Some(TS);
    let due = vec![(DueItem { item: task, parent_name: String::new() }, "p1".to_string(), "Alpha".to_string())];
    let days = build_main_calendar_days(2023, 11, &due, &Vec::new(), 0, day(2023, 11, 1), None);
    assert_eq!(days.len(), 42);
    assert_eq!(days[0].date, "2023-10-29");
    assert_eq!(days[16].date, "2023-11-14");
    assert_eq!(days[16].event_count, 1);
}

fn reminder(id: &str, kind: &str, at: i64) -> AutoReminderRow {
    AutoReminderRow { id: id.to_string(), kind: kind.to_string(), remind_at: at }
}

fn describe(steps: &[ReminderSyncStep]) -> Vec<String> {
    steps
        .iter()
        .map(|s| match s {
            ReminderSyncStep::Reschedule { id, remind_at } => format!("reschedule {id} {remind_at}"),
            ReminderSyncStep::Insert { kind, remind_at } => format!("insert {kind} {remind_at}"),
            ReminderSyncStep::Delete { id } => format!("delete {id}"),
        })
        .collect()
}

#[test]
fn reminder_sync_keeps_moves_inserts_and_drops() {
    let existing = vec![reminder("r1", "due", 100), reminder("r2", "start", 200), reminder("r3", "old", 300)];
    let wanted = vec![("due".to_string(), 100), ("start".to_string(), 250), ("new".to_string(), 400)];
    let plan = plan_auto_reminder_sync(&existing, &wanted);
    assert_eq!(describe(&plan), vec!["reschedule r2 250", "insert new 400", "delete r3"]);
}

#[test]
fn reminder_sync_with_nothing_wanted_deletes_every_row() {
    let existing = vec![reminder("r1", "due", 100), reminder("r2", "start", 200)];
    let plan = plan_auto_reminder_sync(&existing, &Vec::new());
    assert_eq!(describe(&plan), vec!["delete r1", "delete r2"]);
    let plan = plan_auto_reminder_sync(&Vec::new(), &vec![("due".to_string(), 5)]);
    assert_eq!(describe(&plan), vec!["insert due 5"]);
    assert!(matches!(not_found(), RepoError::NotFound));
}

#[test]
fn text_helpers_match_std() {
    assert_eq!(trim("  a b \n"), "a b");
    assert_eq!(trim("\u{3000}x\u{a0}"), "x");
    assert_eq!(strip_prefix("tz_offset=5", "tz_offset="), Some("5"));
    assert_eq!(strip_prefix("tz=5", "tz_offset="), None);
    assert_eq!(parse_i32("+7"), Some(7));
    assert_eq!(parse_i32("-2147483648"), Some(i32::MIN));
    assert_eq!(parse_i32("2147483648"), None);
    assert_eq!(parse_i32(""), None);
    assert_eq!(parse_i32("-"), None);
    assert_eq!(parse_i32("1 2"), None);
    assert_eq!(split_char("a;;b", ';'), vec!["a", "", "b"]);
    assert_eq!(split_char("", ';'), vec![""]);
    assert_eq!(join(&vec!["x".to_string(), "y".to_string()], "&"), "x&y");
    assert_eq!(i64_to_string(-42), "-42");
    assert_eq!(i64_to_string(i64::MIN), i64::MIN.to_string());
    assert_eq!(u64_to_string(1_700_000_000), "1700000000");
    assert_eq!(u64_to_string(0), "0");
}

#[test]
fn display_dates_drop_the_current_year() {
    assert_eq!(format_display_naive_date(day(2026, 8, 27), 2026), "Thu 27 Aug");
    assert_eq!(format_display_naive_date(day(2027, 8, 27), 2026), "Fri 27 Aug 2027");
    assert_eq!(format_display_date(TS, true, 2023), "Tue 14 Nov, 10:13 PM");
    assert_eq!(format_display_date(TS, false, 2024), "Tue 14 Nov 2023");
}

#[test]
fn day_drawer_knows_its_neighbours() {
    let d = DayDrawerData::for_day_in(day(2024, 1, 1), Some(ItemKind::Task), true, 2024);
    assert_eq!(d.date_iso, "2024-01-01");
    assert_eq!((d.date_year, d.date_month), (2024, 1));
    assert_eq!(d.selected_date_label, "Mon 1 Jan");
    assert_eq!(d.prev_date, "2023-12-31");
    assert_eq!((d.prev_year, d.prev_month), (2023, 12));
    assert_eq!(d.next_date, "2024-01-02");
    assert_eq!(d.active_type, "task");
    assert!(d.assigned_to_any);
    assert!(day_drawer(None, None, false, 2024).is_none());
    assert_eq!(day_drawer(Some(day(2024, 2, 29)), None, false, 2024).unwrap().next_date, "2024-03-01");
}

#[test]
fn item_rows_read_back_by_kind() {
    let row = ItemRow {
        id: "i1".to_string(),
        name: "Call".to_string(),
        due_date: Some(TS),
        has_due_time: Some(1),
        scheduled_date: Some(i64::MAX),
        complete: Some(1),
        item_type: Some("TASK".to_string()),
        event_type: Some("meeting".to_string()),
        assigned_to_user_id: Some("u1".to_string()),
        points: Some(2),
        due_offset_days: Some(-1),
        ..Default::default()
    };
    let item = item_from_row(&row);
    assert_eq!(item.kind, ItemKind::Task);
    assert_eq!(item.due_date, Some(TS));
    assert!(item.has_due_time && item.complete);
    // Out of chrono's range: no date.
    assert_eq!(item.scheduled_date, None);
    assert_eq!(item.event_type, None);
    assert_eq!(item.assigned_to_user_id, Some("u1".to_string()));
    assert_eq!(item.points, Some(2));
    assert_eq!(item.due_offset_days, Some(-1));

    let event = item_from_row(&ItemRow { item_type: Some("EVENT".to_string()), ..row.clone() });
    assert_eq!(event.kind, ItemKind::Event);
    assert_eq!(event.event_type, Some("meeting".to_string()));
    assert_eq!(event.assigned_to_user_id, None);
    assert_eq!(event.points, None);

    let simple = item_from_row(&ItemRow { item_type: Some("SIMPLE".to_string()), ..row.clone() });
    assert_eq!(simple.kind, ItemKind::Simple);
    assert_eq!(simple.due_date, None);
    assert!(!simple.has_due_time);
    assert_eq!(simple.due_offset_days, None);

    let unknown = item_from_row(&ItemRow { item_type: None, complete: None, ..row });
    assert_eq!(unknown.kind, ItemKind::Task);
    assert!(!unknown.complete);
}
