use chrono::{Datelike, NaiveDate};
use todo_web::calendar::month_view;
use todo_web::dashboard_rows::{
    dashboard_entries, member_names, DashboardProject, MainDashboardEntry, MainDashboardRow,
    MainDashboardVirtualRow,
};
use todo_web::domain::{Item, ItemKind, OccurrenceState, Project, ProjectOccurrence};
use todo_web::storage::{DueItem, TeamMemberInfo, TeamRole, User};
use todo_web::toggles::complete_toggle_params;

// 2023-11-14 22:13:20 UTC.
const TS: i64 = 1_700_000_000;

fn item(id: &str, kind: ItemKind) -> Item {
    Item {
        id: id.to_string(),
        name: id.to_string(),
        description: None,
        kind,
        complete: false,
        due_date: None,
        scheduled_date: None,
        scheduled_end_date: None,
        has_due_time: false,
        has_scheduled_time: false,
        has_end_time: false,
        assigned_to_user_id: None,
        priority: None,
        series_id: None,
        parent_item_id: None,
        has_children: false,
        event_type: None,
        google_event_id: None,
        due_offset_days: None,
        source_event_id: None,
        points: None,
    }
}

fn due(item: Item) -> DueItem {
    DueItem { item, parent_name: String::new() }
}

fn occurrence(series_id: &str, date: i64, kind: ItemKind, state: OccurrenceState) -> ProjectOccurrence {
    ProjectOccurrence {
        series_id: series_id.to_string(),
        series_name: "Series".to_string(),
        item_type: kind,
        event_type: None,
        occurrence_date: date,
        is_current: true,
        assigned_to_user_id: None,
        assigned_to_user_name: None,
        state,
        is_due_date_basis: true,
        priority: None,
    }
}

fn day(y: i32, m: u32, d: u32) -> i32 {
    NaiveDate::from_ymd_opt(y, m, d).unwrap().num_days_from_ce()
}

fn ids(entries: &[MainDashboardEntry]) -> Vec<String> {
    entries
        .iter()
        .map(|e| match e {
            MainDashboardEntry::Item(r) => r.item_id.clone(),
            MainDashboardEntry::Virtual(v) => v.series_id.clone(),
        })
        .collect()
}

#[test]
fn dashboard_row_of_a_due_task() {
    let mut task = item("t1", ItemKind::Task);
    task.due_date = Some(TS);
    task.has_due_time = true;
    task.assigned_to_user_id = Some("u2".to_string());
    let di = DueItem { item: task, parent_name: "Parent".to_string() };
    let names = vec![("u2".to_string(), "Ann Lee".to_string())];
    let r = MainDashboardRow::from_due_item(&di, "p1", "Alpha", &names, 0, TS + 1);
    assert_eq!(r.date_label, Some("2023-11-14 22:13".to_string()));
    assert_eq!(r.date_kind_label, "Due");
    assert!(r.overdue);
    assert_eq!(r.type_symbol, "T");
    assert_eq!(r.parent_name, Some("Parent".to_string()));
    assert_eq!(r.assignee_name, Some("Ann Lee".to_string()));
    assert_eq!(r.toggle_target, Some("/web/dashboard/projects/p1/items/t1".to_string()));
    assert_eq!(r.detail_link, "/web/projects/p1/tasks/t1");
    assert_eq!(r.toggle_complete_json, "true");
    assert_eq!(r.project_name, "Alpha");

    let mut ev = item("e1", ItemKind::Event);
    ev.scheduled_date = Some(TS);
    let r = MainDashboardRow::from_due_item(&due(ev), "p1", "Alpha", &Vec::new(), 0, TS);
    assert_eq!(r.date_kind_label, "Scheduled");
    assert_eq!(r.date_label, Some("2023-11-14".to_string()));
    assert_eq!(r.toggle_target, None);
    assert_eq!(r.parent_name, None);
    assert_eq!(r.assignee_name, None);
}

#[test]
fn dashboard_virtual_row_names_its_kind() {
    let occ = occurrence("s1", TS, ItemKind::Task, OccurrenceState::Virtual);
    let v = MainDashboardVirtualRow::from_occurrence(&occ, "p1", "Alpha", 0);
    assert_eq!(v.title, "Task (not yet created)");
    assert_eq!(v.date_kind_label, "Due");
    assert_eq!(v.type_symbol, "T");
    assert_eq!(v.materialize_url, "/web/projects/p1/series/s1/occurrences/1700000000");
    assert_eq!(v.date_label, "2023-11-14 22:13");
    let ev = occurrence("s2", TS, ItemKind::Event, OccurrenceState::Skipped);
    let v = MainDashboardVirtualRow::from_occurrence(&ev, "p1", "Alpha", 0);
    assert_eq!(v.title, "Event (not yet created)");
    assert_eq!(v.date_kind_label, "Scheduled");
    assert!(v.is_skipped);
}

#[test]
fn dashboard_entries_filter_and_merge_by_date() {
    let mut a = item("a", ItemKind::Task);
    a.due_date = Some(300);
    let mut done = item("done", ItemKind::Task);
    done.due_date = Some(100);
    done.complete = true;
    let mut simple = item("simple", ItemKind::Simple);
    simple.due_date = Some(100);
    let personal = DashboardProject {
        project: Project { id: "p1".to_string(), name: "Home".to_string(), team_id: None },
        names: Vec::new(),
        due_items: vec![due(a), due(done), due(simple)],
        occurrences: vec![
            occurrence("s1", 200, ItemKind::Task, OccurrenceState::Virtual),
            occurrence("s2", 50, ItemKind::Task, OccurrenceState::Materialized { item_id: "x".to_string() }),
        ],
    };
    let mut mine = item("mine", ItemKind::Task);
    mine.due_date = Some(200);
    mine.assigned_to_user_id = Some("u1".to_string());
    let mut theirs = item("theirs", ItemKind::Task);
    theirs.due_date = Some(150);
    theirs.assigned_to_user_id = Some("u2".to_string());
    let mut ev = item("ev", ItemKind::Event);
    ev.scheduled_date = Some(150);
    let team = DashboardProject {
        project: Project { id: "p2".to_string(), name: "Work".to_string(), team_id: Some("t".to_string()) },
        names: Vec::new(),
        due_items: vec![due(mine), due(theirs), due(ev)],
        occurrences: Vec::new(),
    };
    let projects = vec![personal, team];
    let out = dashboard_entries(&projects, "u1", false, "All", None, None, 0, 1000);
    assert_eq!(ids(&out), vec!["ev", "s1", "mine", "a"]);
    let out = dashboard_entries(&projects, "u1", true, "All", None, Some(160), 0, 1000);
    assert_eq!(ids(&out), vec!["done", "ev", "s1"]);
}

#[test]
fn undated_items_show_only_in_an_unbounded_window() {
    let undated = item("u", ItemKind::Event);
    let p = DashboardProject {
        project: Project { id: "p1".to_string(), name: "Home".to_string(), team_id: None },
        names: Vec::new(),
        due_items: vec![due(undated)],
        occurrences: Vec::new(),
    };
    let projects = vec![p];
    assert_eq!(ids(&dashboard_entries(&projects, "u1", false, "All", None, None, 0, 0)), vec!["u"]);
    assert!(dashboard_entries(&projects, "u1", false, "All with due date", None, None, 0, 0).is_empty());
    assert!(dashboard_entries(&projects, "u1", false, "Overdue", None, Some(10), 0, 0).is_empty());
}

#[test]
fn member_names_join_first_and_last() {
    let members = vec![TeamMemberInfo {
        user: User {
            id: "u1".to_string(),
            email: "a@example.com".to_string(),
            first_name: "Ann".to_string(),
            last_name: "Lee".to_string(),
            personal_project_id: None,
        },
        status: "active".to_string(),
        role: TeamRole::Member,
        points: 0,
    }];
    assert_eq!(member_names(&members), vec![("u1".to_string(), "Ann Lee".to_string())]);
}

#[test]
fn toggle_changes_only_completion() {
    let mut current = item("t1", ItemKind::Task);
    current.due_date = Some(TS);
    current.has_due_time = true;
    current.points = Some(3);
    current.due_offset_days = Some(-2);
    current.source_event_id = Some("e9".to_string());
    let p = complete_toggle_params("p1", "t1", &current, &Some("true".to_string()), 30);
    assert!(p.complete);
    assert_eq!(p.due_date, Some(TS));
    assert_eq!(p.has_due_time, Some(true));
    assert_eq!(p.points, Some(3));
    assert_eq!(p.due_offset_days, Some(-2));
    assert_eq!(p.source_event_id, Some("e9".to_string()));
    assert_eq!(p.item_type, Some(ItemKind::Task));
    assert_eq!(p.timezone_offset_minutes, Some(30));
    assert_eq!(p.name, "t1");
    let p = complete_toggle_params("p1", "t1", &current, &Some("false".to_string()), 0);
    assert!(!p.complete);
    let p = complete_toggle_params("p1", "t1", &current, &None, 0);
    assert!(!p.complete);
}

#[test]
fn month_view_resolves_query_against_today() {
    let today = day(2023, 11, 14);
    let v = month_view(None, None, None, today, 0, false);
    assert_eq!((v.year, v.month), (2023, 11));
    assert_eq!(v.selected_date, None);
    // The Monday-first grid opens on 30 October and closes on 10 December.
    assert_eq!(v.range_start, 1_698_624_000);
    assert_eq!(v.range_end, 1_698_624_000 + 41 * 86_400 + 86_399);
    assert_eq!((v.prev_year, v.prev_month, v.next_year, v.next_month), (2023, 10, 2023, 12));
    let v = month_view(Some(2024), Some(13), Some("2024-11-02"), today, 60, true);
    assert_eq!((v.year, v.month), (2024, 11));
    assert_eq!(v.selected_date, Some(day(2024, 11, 2)));
    // The Sunday-first grid for November 2024 opens on 27 October, an hour later in UTC.
    assert_eq!(v.range_start, 1_729_987_200 + 3600);
    let v = month_view(Some(2023), Some(12), Some("garbage"), today, 0, false);
    assert_eq!((v.next_year, v.next_month), (2024, 1));
    assert_eq!(v.selected_date, None);
}
