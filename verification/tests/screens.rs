use chrono::{Datelike, NaiveDate};
use todo_web::all_projects_tasks::{all_projects_task_entries, virtual_child_entries, ChildOccurrence, TasksProject};
use todo_web::calendar::month_heading;
use todo_web::main_calendar::main_calendar_day_entries;
use todo_web::domain::{Item, ItemKind, ItemSeries, OccurrenceState, Project, ProjectOccurrence};
use todo_web::item_series::ProjectItemSeriesRow;
use todo_web::list_filters::{AssignedToFilter, ListFilters};
use todo_web::project_calendar::{build_project_calendar_days, project_calendar_day_entries};
use todo_web::project_dashboard::{
    build_dashboard_calendar_days, completion_badge, dashboard_day_entries, dashboard_list_entries,
    DISMISS_AFTER_MS,
};
use todo_web::project_events::{resolve_series_link, series_link_from_lookup, series_to_look_up};
use todo_web::storage::{plan_auto_reminder_sync, AutoReminderRow, DueItem, RepoError, ReminderSyncStep};
use todo_web::toggles::{task_toggle_params, toggle_signals};

// 2023-11-14 22:13:20 UTC.
const TS: i64 = 1_700_000_000;

fn day(y: i32, m: u32, d: u32) -> i32 {
    NaiveDate::from_ymd_opt(y, m, d).unwrap().num_days_from_ce()
}

fn item(id: &str, kind: ItemKind, due: Option<i64>, assignee: Option<&str>) -> Item {
    Item {
        id: id.to_string(),
        name: id.to_string(),
        description: None,
        kind,
        complete: false,
        due_date: due,
        scheduled_date: None,
        scheduled_end_date: None,
        has_due_time: true,
        has_scheduled_time: false,
        has_end_time: false,
        assigned_to_user_id: assignee.map(|a| a.to_string()),
        priority: Some(2),
        series_id: None,
        parent_item_id: None,
        has_children: false,
        event_type: None,
        google_event_id: None,
        due_offset_days: None,
        source_event_id: None,
        points: None,
    }
}

fn occurrence(kind: ItemKind, date: i64, state: OccurrenceState, assignee: Option<&str>) -> ProjectOccurrence {
    ProjectOccurrence {
        series_id: "s1".to_string(),
        series_name: "Series".to_string(),
        item_type: kind,
        event_type: None,
        occurrence_date: date,
        is_current: true,
        assigned_to_user_id: assignee.map(|a| a.to_string()),
        assigned_to_user_name: None,
        state,
        is_due_date_basis: true,
        priority: None,
    }
}

fn due(i: Item) -> DueItem {
    DueItem { item: i, parent_name: String::new() }
}

fn two_projects() -> Vec<TasksProject> {
    vec![
        TasksProject {
            project: Project { id: "p1".to_string(), name: "Home".to_string(), team_id: None },
            items: vec![
                item("a", ItemKind::Task, Some(TS + 100), None),
                item("e", ItemKind::Event, Some(TS), None),
                item("b", ItemKind::Task, None, None),
                item("s", ItemKind::Simple, Some(TS), None),
            ],
            occurrences: vec![
                occurrence(ItemKind::Task, TS + 75, OccurrenceState::Virtual, None),
                occurrence(
                    ItemKind::Task,
                    TS + 80,
                    OccurrenceState::Materialized { item_id: "a".to_string() },
                    None,
                ),
                occurrence(ItemKind::Event, TS + 10, OccurrenceState::Virtual, None),
            ],
        },
        TasksProject {
            project: Project { id: "p2".to_string(), name: "Work".to_string(), team_id: Some("t1".to_string()) },
            items: vec![
                item("c", ItemKind::Task, Some(TS + 50), Some("u1")),
                item("d", ItemKind::Task, Some(TS + 20), Some("u2")),
            ],
            occurrences: vec![],
        },
    ]
}

#[test]
fn all_projects_list_keeps_only_shown_tasks_in_date_order() {
    let projects = two_projects();
    let filters = ListFilters::default();
    let entries = all_projects_task_entries(&projects, &filters, None, "u1", TS);
    // c (p2, TS+50), the virtual Task occurrence (TS+75), a (TS+100), undated b last; the
    // Event, the Simple item, the materialized occurrence and u2's task are left out.
    assert_eq!(entries, vec![(false, 1, 0), (true, 0, 0), (false, 0, 0), (false, 0, 2)]);
}

#[test]
fn all_projects_list_honours_the_project_filter() {
    let projects = two_projects();
    let filters = ListFilters::default();
    let entries = all_projects_task_entries(&projects, &filters, Some("p1"), "u1", TS);
    assert_eq!(entries, vec![(true, 0, 0), (false, 0, 0), (false, 0, 2)]);
    let entries = all_projects_task_entries(&projects, &filters, Some("p9"), "u1", TS);
    assert!(entries.is_empty());
}

#[test]
fn all_projects_list_drops_virtual_rows_unless_recurring_shown() {
    let projects = two_projects();
    let mut filters = ListFilters::default();
    filters.recurring = false;
    let entries = all_projects_task_entries(&projects, &filters, None, "u1", TS);
    assert_eq!(entries, vec![(false, 1, 0), (false, 0, 0), (false, 0, 2)]);
}

#[test]
fn all_projects_list_team_flag_gates_assignment() {
    let projects = two_projects();
    let mut filters = ListFilters::default();
    filters.assigned_to = AssignedToFilter::All;
    let entries = all_projects_task_entries(&projects, &filters, Some("p2"), "u1", TS);
    assert_eq!(entries, vec![(false, 1, 1), (false, 1, 0)]);
}

#[test]
fn only_a_task_gets_a_toggle_update() {
    let event = item("e", ItemKind::Event, Some(TS), None);
    assert!(task_toggle_params("p1", "e", &event, &Some("true".to_string()), 0).is_none());
    let task = item("t", ItemKind::Task, Some(TS), None);
    let p = task_toggle_params("p1", "t", &task, &Some("true".to_string()), 60).unwrap();
    assert!(p.complete);
    assert_eq!(p.priority, Some(2));
    assert_eq!(p.item_type, Some(ItemKind::Task));
    assert_eq!(p.timezone_offset_minutes, Some(60));
    assert!(p.depends_on_item_ids.is_none());
    let p = task_toggle_params("p1", "t", &task, &Some("false".to_string()), 0).unwrap();
    assert!(!p.complete);
}

#[test]
fn toggle_signals_mark_a_fresh_completion() {
    let s = toggle_signals(false, true, &None, true);
    assert!(s.just_completed && s.remove_row);
    let s = toggle_signals(false, true, &Some("1".to_string()), true);
    assert!(s.just_completed && !s.remove_row);
    let s = toggle_signals(false, true, &None, false);
    assert!(s.just_completed && !s.remove_row);
    let s = toggle_signals(true, true, &None, true);
    assert!(!s.just_completed && !s.remove_row);
    let s = toggle_signals(true, false, &None, true);
    assert!(!s.just_completed && !s.remove_row);
}

fn calendar_items() -> Vec<DueItem> {
    vec![
        due(item("mine", ItemKind::Task, Some(TS), Some("u1"))),
        due(item("theirs", ItemKind::Task, Some(TS), Some("u2"))),
        due(item("event", ItemKind::Event, Some(TS), Some("u2"))),
        due(item("simple", ItemKind::Simple, Some(TS), Some("u1"))),
    ]
}

#[test]
fn project_calendar_counts_only_the_viewers_entries_on_a_team_project() {
    let items = calendar_items();
    let occs = vec![
        occurrence(ItemKind::Task, TS, OccurrenceState::Virtual, Some("u2")),
        occurrence(ItemKind::Event, TS, OccurrenceState::Virtual, None),
    ];
    let today = day(2023, 11, 14);
    let days = build_project_calendar_days(2023, 11, &items, &occs, 0, today, None, "u1", false, true);
    assert_eq!(days.len(), 42);
    // The Sunday-first grid of November 2023 starts on Sunday, 29 October.
    assert_eq!(days[0].date, "2023-10-29");
    assert_eq!(days[16].date, "2023-11-14");
    assert!(days[16].is_today);
    // Own task, the Event and the Event occurrence.
    assert_eq!(days[16].event_count, 3);
    let days = build_project_calendar_days(2023, 11, &items, &occs, 0, today, None, "u1", true, true);
    assert_eq!(days[16].event_count, 5);
    // On a personal project everything but the Simple item counts.
    let days = build_project_calendar_days(2023, 11, &items, &occs, 0, today, None, "u1", false, false);
    assert_eq!(days[16].event_count, 5);
    assert_eq!(days[15].event_count, 0);
}

#[test]
fn project_calendar_day_list_filters_by_tab_and_viewer() {
    let mut items = calendar_items();
    items[2].item.due_date = Some(TS - 3600);
    let occs = vec![
        occurrence(ItemKind::Task, TS - 60, OccurrenceState::Virtual, Some("u1")),
        occurrence(ItemKind::Task, TS, OccurrenceState::Materialized { item_id: "mine".to_string() }, Some("u1")),
    ];
    let d = day(2023, 11, 14);
    let all = project_calendar_day_entries(&items, &occs, d, 0, "u1", false, true, None);
    assert_eq!(all, vec![(false, 2), (true, 0), (false, 0)]);
    let tasks = project_calendar_day_entries(&items, &occs, d, 0, "u1", false, true, Some(ItemKind::Task));
    assert_eq!(tasks, vec![(true, 0), (false, 0)]);
    let everyone = project_calendar_day_entries(&items, &occs, d, 0, "u1", true, true, None);
    assert_eq!(everyone, vec![(false, 2), (true, 0), (false, 0), (false, 1)]);
    let other_day = project_calendar_day_entries(&items, &occs, d + 1, 0, "u1", true, true, None);
    assert!(other_day.is_empty());
}

#[test]
fn dashboard_calendar_counts_everyones_entries() {
    let items = calendar_items();
    let occs = vec![occurrence(ItemKind::Task, TS, OccurrenceState::Virtual, Some("u2"))];
    let days = build_dashboard_calendar_days(2023, 11, &items, &occs, 0, 0, Some(day(2023, 11, 14)));
    assert_eq!(days[16].event_count, 4);
    assert!(days[16].is_selected);
    let entries = dashboard_day_entries(&items, &occs, day(2023, 11, 14), 0);
    assert_eq!(entries, vec![(false, 0), (false, 1), (false, 2), (true, 0)]);
}

#[test]
fn dashboard_list_keeps_the_just_completed_row() {
    let mut items = vec![
        due(item("late", ItemKind::Task, Some(TS + 10), Some("u1"))),
        due(item("done", ItemKind::Task, Some(TS), Some("u1"))),
        due(item("other", ItemKind::Task, Some(TS), Some("u2"))),
        due(item("undated", ItemKind::Task, None, Some("u1"))),
    ];
    items[1].item.complete = true;
    let occs = vec![occurrence(ItemKind::Task, TS + 5, OccurrenceState::Virtual, Some("u1"))];
    let plain = dashboard_list_entries(&items, &occs, "u1", false, false, "All", None, None, None);
    assert_eq!(plain, vec![(true, 0), (false, 0), (false, 3)]);
    let kept = dashboard_list_entries(&items, &occs, "u1", false, false, "All", None, None, Some("done"));
    assert_eq!(kept, vec![(false, 1), (true, 0), (false, 0), (false, 3)]);
    let dated = dashboard_list_entries(&items, &occs, "u1", false, true, "All with due date", None, None, None);
    assert_eq!(dated, vec![(false, 2), (true, 0), (false, 0)]);
    let window = dashboard_list_entries(&items, &occs, "u1", true, false, "Today", Some(TS), Some(TS + 5), None);
    assert_eq!(window, vec![(false, 1), (true, 0)]);
}

#[test]
fn completion_badge_confirms_then_fades() {
    let (c, d) = completion_badge("x", Some("x"), false);
    assert_eq!(c, Some("Completed".to_string()));
    assert_eq!(d, Some(DISMISS_AFTER_MS));
    assert_eq!(DISMISS_AFTER_MS, 1800);
    let (c, d) = completion_badge("x", Some("x"), true);
    assert_eq!(c, Some("Completed".to_string()));
    assert_eq!(d, None);
    assert_eq!(completion_badge("x", Some("y"), false), (None, None));
    assert_eq!(completion_badge("x", None, false), (None, None));
}

#[test]
fn series_row_shows_anchor_and_duplicate_link() {
    let s = ItemSeries {
        id: "s1".to_string(),
        project_id: "p1".to_string(),
        name: "Standup".to_string(),
        description: None,
        event_type: Some("Meeting".to_string()),
        recurrence: "every 7 days".to_string(),
        anchor_date: TS,
        item_type: ItemKind::Event,
        cursor_date: None,
        basis: None,
        points: Some(3),
        priority: None,
    };
    let row = ProjectItemSeriesRow::from_series(&s, 0, Some("Ann".to_string()), 2, 2023, "Event", "blue");
    assert_eq!(row.anchor_date_label, "Tue 14 Nov, 10:13 PM");
    assert_eq!(row.duplicate_url, Some("/web/projects/p1/series/s1/duplicate".to_string()));
    assert_eq!(row.item_type_label, "Event");
    assert_eq!(row.child_count, 2);
    assert_eq!(row.points, Some(3));
    assert_eq!(row.assignee_name, Some("Ann".to_string()));
    let row = ProjectItemSeriesRow::from_series(&s, 0, None, 0, 2024, "Event", "blue");
    assert!(row.anchor_date_label.contains("2023"));
}

#[test]
fn series_link_needs_a_living_series() {
    let found = series_link_from_lookup("p1", "s1", Ok("Standup".to_string())).ok().unwrap();
    assert_eq!(found, Some(("Standup".to_string(), "/web/projects/p1/series/s1/edit".to_string())));
    let gone = series_link_from_lookup("p1", "s1", Err(RepoError::NotFound)).ok().unwrap();
    assert_eq!(gone, None);
    match series_link_from_lookup("p1", "s1", Err(RepoError::Internal("db".to_string()))) {
        Err(RepoError::Internal(m)) => assert_eq!(m, "db"),
        _ => panic!("the failure is passed on"),
    }
}

fn carry_out(table: &mut Vec<(Option<String>, String, i64)>, plan: &[ReminderSyncStep]) {
    for step in plan {
        match step {
            ReminderSyncStep::Reschedule { id, remind_at } => {
                for row in table.iter_mut() {
                    if row.0.as_deref() == Some(id.as_str()) {
                        row.2 = *remind_at;
                    }
                }
            }
            ReminderSyncStep::Insert { kind, remind_at } => table.push((None, kind.clone(), *remind_at)),
            ReminderSyncStep::Delete { id } => table.retain(|row| row.0.as_deref() != Some(id.as_str())),
        }
    }
}

#[test]
fn reminder_sync_leaves_one_row_per_wanted_kind() {
    let existing = vec![
        AutoReminderRow { id: "r1".to_string(), kind: "due".to_string(), remind_at: 100 },
        AutoReminderRow { id: "r2".to_string(), kind: "start".to_string(), remind_at: 200 },
        AutoReminderRow { id: "r3".to_string(), kind: "end".to_string(), remind_at: 300 },
    ];
    let wanted = vec![("start".to_string(), 250), ("due".to_string(), 100), ("new".to_string(), 400)];
    let plan = plan_auto_reminder_sync(&existing, &wanted);
    let mut table: Vec<(Option<String>, String, i64)> =
        existing.iter().map(|r| (Some(r.id.clone()), r.kind.clone(), r.remind_at)).collect();
    carry_out(&mut table, &plan);
    let of_kind = |k: &str| -> Vec<(Option<String>, i64)> {
        table.iter().filter(|r| r.1 == k).map(|r| (r.0.clone(), r.2)).collect()
    };
    assert_eq!(of_kind("due"), vec![(Some("r1".to_string()), 100)]);
    assert_eq!(of_kind("start"), vec![(Some("r2".to_string()), 250)]);
    assert_eq!(of_kind("new"), vec![(None, 400)]);
    assert!(of_kind("end").is_empty());
    assert_eq!(table.len(), 3);
}

#[test]
fn an_item_without_a_series_needs_no_lookup_and_gets_no_link() {
    let plain = item("a", ItemKind::Event, Some(TS), None);
    assert_eq!(series_to_look_up(&plain), None);
    assert_eq!(resolve_series_link("p1", &plain, None).ok().unwrap(), None);
    let mut linked = item("b", ItemKind::Event, Some(TS), None);
    linked.series_id = Some("s9".to_string());
    assert_eq!(series_to_look_up(&linked), Some("s9".to_string()));
    let link = resolve_series_link("p1", &linked, Some(Ok("Weekly".to_string()))).ok().unwrap();
    assert_eq!(link, Some(("Weekly".to_string(), "/web/projects/p1/series/s9/edit".to_string())));
    assert_eq!(resolve_series_link("p1", &linked, Some(Err(RepoError::NotFound))).ok().unwrap(), None);
    assert!(matches!(
        resolve_series_link("p1", &linked, Some(Err(RepoError::Internal("db".to_string())))),
        Err(RepoError::Internal(m)) if m == "db"
    ));
}

#[test]
fn main_calendar_day_list_filters_by_tab_and_day() {
    let items = vec![
        (due(item("t", ItemKind::Task, Some(TS), None)), "p1".to_string(), "Home".to_string()),
        (due(item("e", ItemKind::Event, Some(TS - 3600), None)), "p2".to_string(), "Work".to_string()),
        (due(item("u", ItemKind::Task, None, None)), "p1".to_string(), "Home".to_string()),
        (due(item("n", ItemKind::Task, Some(TS + 86_400), None)), "p1".to_string(), "Home".to_string()),
    ];
    let occs = vec![(occurrence(ItemKind::Task, TS - 60, OccurrenceState::Virtual, None), "p2".to_string(), "Work".to_string())];
    let d = day(2023, 11, 14);
    assert_eq!(main_calendar_day_entries(&items, &occs, d, 0, None), vec![(false, 1), (true, 0), (false, 0)]);
    assert_eq!(main_calendar_day_entries(&items, &occs, d, 0, Some(ItemKind::Task)), vec![(true, 0), (false, 0)]);
    assert_eq!(main_calendar_day_entries(&items, &occs, d + 1, 0, None), vec![(false, 3)]);
}

fn child(series_id: &str, parent: i64, item_id: Option<&str>, sort_order: i64) -> ChildOccurrence {
    ChildOccurrence {
        series_id: series_id.to_string(),
        parent_occurrence_date: parent,
        item_id: item_id.map(|i| i.to_string()),
        sort_order,
    }
}

#[test]
fn virtual_children_nest_in_sibling_order() {
    let children = vec![
        child("s1", TS, None, 2),
        child("s1", TS, Some("x"), 0),
        child("s2", TS, None, 0),
        child("s1", TS + 1, None, 0),
        child("s1", TS, None, 1),
        child("s1", TS, None, 1),
    ];
    assert_eq!(virtual_child_entries(&children, "s1", TS), Some(vec![4, 5, 0]));
    assert_eq!(virtual_child_entries(&children, "s3", TS), None);
}

#[test]
fn month_heading_names_the_month() {
    assert_eq!(month_heading(2023, 11), ("November 2023".to_string(), "2023-11".to_string()));
    assert_eq!(month_heading(5, 1).1, "0005-01");
    assert_eq!(month_heading(-5, 3).1, "-005-03");
    assert_eq!(month_heading(12345, 12).1, "12345-12");
}

// The Gregorian arithmetic the library states chrono's dates by, written out as in its
// specification, checked against chrono over a wide spread of day numbers.
fn gregorian_of(days: i64) -> (i64, i64, i64) {
    let z = days - 1 + 306;
    let era = z.div_euclid(146097);
    let doe = z - era * 146097;
    let yoe = (doe - doe / 1460 + doe / 36524 - doe / 146096) / 365;
    let doy = doe - (365 * yoe + yoe / 4 - yoe / 100);
    let mp = (5 * doy + 2) / 153;
    let d = doy - (153 * mp + 2) / 5 + 1;
    let m = if mp < 10 { mp + 3 } else { mp - 9 };
    (yoe + era * 400 + if m <= 2 { 1 } else { 0 }, m, d)
}

fn gregorian_day(year: i64, month: i64, day: i64) -> i64 {
    let y = if month <= 2 { year - 1 } else { year };
    let era = y.div_euclid(400);
    let yoe = y - era * 400;
    let doy = (153 * (if month > 2 { month - 3 } else { month + 9 }) + 2) / 5 + day - 1;
    let doe = yoe * 365 + yoe / 4 - yoe / 100 + doy;
    era * 146097 + doe - 306 + 1
}

#[test]
fn gregorian_arithmetic_matches_chrono() {
    let min = NaiveDate::MIN.num_days_from_ce() as i64;
    let max = NaiveDate::MAX.num_days_from_ce() as i64;
    assert_eq!(min, -95_746_129);
    assert_eq!(max, 95_745_399);
    let mut d = min;
    while d <= max {
        let date = NaiveDate::from_num_days_from_ce_opt(d as i32).unwrap();
        let (y, m, dd) = gregorian_of(d);
        assert_eq!((y, m, dd), (date.year() as i64, date.month() as i64, date.day() as i64));
        assert_eq!(gregorian_day(y, m, dd), d);
        assert_eq!(date.weekday().num_days_from_monday() as i64, (d - 1).rem_euclid(7));
        d += 9_973;
    }
    for d in -800..800i64 {
        let date = NaiveDate::from_num_days_from_ce_opt(d as i32).unwrap();
        assert_eq!(gregorian_of(d), (date.year() as i64, date.month() as i64, date.day() as i64));
    }
    assert!(NaiveDate::from_num_days_from_ce_opt((min - 1) as i32).is_none());
    assert!(NaiveDate::from_num_days_from_ce_opt((max + 1) as i32).is_none());
}
