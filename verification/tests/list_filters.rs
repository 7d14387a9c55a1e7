use chrono::DateTime;
use todo_web::domain::{Item, ItemKind, OccurrenceState, ProjectOccurrence};
use todo_web::list_filters::{ListFilterQuery, ListFilters, PriorityFilter};

const NOW: &str = "2026-08-23T12:00:00Z";

fn utc(s: &str) -> i64 {
    DateTime::parse_from_rfc3339(s).unwrap().timestamp()
}

fn now() -> i64 {
    utc(NOW)
}

fn task() -> Item {
    Item {
        id: "i1".to_string(),
        name: "Test task".to_string(),
        description: None,
        kind: ItemKind::Task,
        complete: false,
        due_date: None,
        scheduled_date: None,
        scheduled_end_date: None,
        has_due_time: false,
        has_scheduled_time: false,
        has_end_time: false,
        assigned_to_user_id: None,
        priority: None,
        series_id: None,
        parent_item_id: None,
        has_children: false,
        event_type: None,
        google_event_id: None,
        due_offset_days: None,
        source_event_id: None,
        points: None,
    }
}

fn set_due_date(item: &mut Item, ts: i64) {
    item.due_date = Some(ts);
}

fn set_scheduled_date(item: &mut Item, ts: i64) {
    item.scheduled_date = Some(ts);
}

fn set_priority(item: &mut Item, priority: i32) {
    item.priority = Some(priority);
}

fn set_assigned_to(item: &mut Item, user_id: &str) {
    item.assigned_to_user_id = Some(user_id.to_string());
}

fn occurrence(occurrence_date: i64, is_due_date_basis: bool) -> ProjectOccurrence {
    ProjectOccurrence {
        series_id: "s1".to_string(),
        series_name: "Series".to_string(),
        item_type: ItemKind::Task,
        event_type: None,
        occurrence_date,
        is_current: true,
        assigned_to_user_id: None,
        assigned_to_user_name: None,
        state: OccurrenceState::Virtual,
        is_due_date_basis,
        priority: None,
    }
}

#[test]
fn default_filters_hide_complete_but_show_everything_else() {
    let filters = ListFilters::default();
    let mut item = task();
    assert!(filters.matches(&item, "u1", false, now()));
    item.complete = true;
    assert!(!filters.matches(&item, "u1", false, now()));
}

#[test]
fn show_complete_includes_completed_items() {
    let filters = ListFilters::from_query(ListFilterQuery {
        show_complete: Some("1".to_string()),
        ..Default::default()
    });
    let mut item = task();
    item.complete = true;
    assert!(filters.matches(&item, "u1", false, now()));
}

#[test]
fn assigned_to_me_is_a_noop_on_a_personal_project() {
    let filters = ListFilters::default(); // AssignedToFilter::Me
    let item = task(); // unassigned
    assert!(filters.matches(&item, "u1", false, now()));
}

#[test]
fn assigned_to_me_excludes_other_members_items_on_a_team_project() {
    let filters = ListFilters::default();
    let mut item = task();
    set_assigned_to(&mut item, "someone-else");
    assert!(!filters.matches(&item, "u1", true, now()));
    set_assigned_to(&mut item, "u1");
    assert!(filters.matches(&item, "u1", true, now()));
}

#[test]
fn assigned_to_unassigned_matches_only_unassigned_items() {
    let filters = ListFilters::from_query(ListFilterQuery {
        assigned_to: Some("unassigned".to_string()),
        ..Default::default()
    });
    let mut item = task();
    assert!(filters.matches(&item, "u1", true, now()));
    set_assigned_to(&mut item, "u1");
    assert!(!filters.matches(&item, "u1", true, now()));
}

#[test]
fn assigned_to_all_matches_regardless_of_assignment() {
    let filters = ListFilters::from_query(ListFilterQuery {
        assigned_to: Some("all".to_string()),
        ..Default::default()
    });
    let mut item = task();
    assert!(filters.matches(&item, "u1", true, now()));
    set_assigned_to(&mut item, "someone-else");
    assert!(filters.matches(&item, "u1", true, now()));
}

#[test]
fn assigned_to_specific_user_matches_only_that_user() {
    let filters = ListFilters::from_query(ListFilterQuery {
        assigned_to: Some("bob".to_string()),
        ..Default::default()
    });
    let mut item = task();
    set_assigned_to(&mut item, "alice");
    assert!(!filters.matches(&item, "u1", true, now()));
    set_assigned_to(&mut item, "bob");
    assert!(filters.matches(&item, "u1", true, now()));
}

#[test]
fn due_date_overdue_matches_only_overdue_items() {
    let filters = ListFilters::from_query(ListFilterQuery {
        due_date: Some("overdue".to_string()),
        ..Default::default()
    });
    let mut item = task();
    assert!(!filters.matches(&item, "u1", false, now()));
    set_due_date(&mut item, utc("2020-01-01T00:00:00Z"));
    assert!(filters.matches(&item, "u1", false, now()));
}

#[test]
fn due_date_none_matches_only_undated_items() {
    let filters = ListFilters::from_query(ListFilterQuery {
        due_date: Some("none".to_string()),
        ..Default::default()
    });
    let mut item = task();
    assert!(filters.matches(&item, "u1", false, now()));
    set_due_date(&mut item, utc("2030-01-01T00:00:00Z"));
    assert!(!filters.matches(&item, "u1", false, now()));
}

#[test]
fn schedule_past_matches_only_items_scheduled_before_now() {
    let filters = ListFilters::from_query(ListFilterQuery {
        schedule: Some("past".to_string()),
        ..Default::default()
    });
    let mut item = task();
    assert!(!filters.matches(&item, "u1", false, now()));
    set_scheduled_date(&mut item, utc("2030-01-01T00:00:00Z"));
    assert!(!filters.matches(&item, "u1", false, now()));
    set_scheduled_date(&mut item, utc("2020-01-01T00:00:00Z"));
    assert!(filters.matches(&item, "u1", false, now()));
}

#[test]
fn schedule_none_matches_only_unscheduled_items() {
    let filters = ListFilters::from_query(ListFilterQuery {
        schedule: Some("none".to_string()),
        ..Default::default()
    });
    let mut item = task();
    assert!(filters.matches(&item, "u1", false, now()));
    set_scheduled_date(&mut item, utc("2020-01-01T00:00:00Z"));
    assert!(!filters.matches(&item, "u1", false, now()));
}

#[test]
fn recurring_no_excludes_series_linked_items() {
    let filters = ListFilters::from_query(ListFilterQuery {
        recurring: Some("no".to_string()),
        ..Default::default()
    });
    let mut item = task();
    assert!(filters.matches(&item, "u1", false, now()));
    item.series_id = Some("series-1".to_string());
    assert!(!filters.matches(&item, "u1", false, now()));
}

#[test]
fn matches_occurrence_assigned_to_me_excludes_other_members_occurrences() {
    let filters = ListFilters::default(); // AssignedToFilter::Me
    let mut occ = occurrence(now(), true);
    occ.assigned_to_user_id = Some("someone-else".to_string());
    assert!(!filters.matches_occurrence(&occ, "u1", true, now()));
    occ.assigned_to_user_id = Some("u1".to_string());
    assert!(filters.matches_occurrence(&occ, "u1", true, now()));
}

#[test]
fn matches_occurrence_assigned_to_is_a_noop_on_a_personal_project() {
    let filters = ListFilters::default(); // AssignedToFilter::Me
    let mut occ = occurrence(now(), true);
    occ.assigned_to_user_id = Some("someone-else".to_string());
    assert!(filters.matches_occurrence(&occ, "u1", false, now()));
}

#[test]
fn matches_occurrence_due_date_overdue_only_matches_due_basis_in_the_past() {
    let filters = ListFilters::from_query(ListFilterQuery {
        due_date: Some("overdue".to_string()),
        ..Default::default()
    });
    assert!(!filters.matches_occurrence(&occurrence(now(), true), "u1", false, now()));
    assert!(filters.matches_occurrence(
        &occurrence(utc("2020-01-01T00:00:00Z"), true),
        "u1",
        false,
        now()
    ));
    // A scheduled-basis occurrence has no due date at all, so it can never be "overdue".
    assert!(!filters.matches_occurrence(
        &occurrence(utc("2020-01-01T00:00:00Z"), false),
        "u1",
        false,
        now()
    ));
}

#[test]
fn matches_occurrence_due_date_none_only_matches_scheduled_basis() {
    let filters = ListFilters::from_query(ListFilterQuery {
        due_date: Some("none".to_string()),
        ..Default::default()
    });
    assert!(!filters.matches_occurrence(&occurrence(now(), true), "u1", false, now()));
    assert!(filters.matches_occurrence(&occurrence(now(), false), "u1", false, now()));
}

#[test]
fn matches_occurrence_schedule_past_only_matches_scheduled_basis_in_the_past() {
    let filters = ListFilters::from_query(ListFilterQuery {
        schedule: Some("past".to_string()),
        ..Default::default()
    });
    assert!(!filters.matches_occurrence(&occurrence(now(), false), "u1", false, now()));
    assert!(filters.matches_occurrence(
        &occurrence(utc("2020-01-01T00:00:00Z"), false),
        "u1",
        false,
        now()
    ));
    // A due-basis occurrence has no scheduled date at all.
    assert!(!filters.matches_occurrence(
        &occurrence(utc("2020-01-01T00:00:00Z"), true),
        "u1",
        false,
        now()
    ));
}

#[test]
fn matches_occurrence_schedule_none_only_matches_due_basis() {
    let filters = ListFilters::from_query(ListFilterQuery {
        schedule: Some("none".to_string()),
        ..Default::default()
    });
    assert!(filters.matches_occurrence(&occurrence(now(), true), "u1", false, now()));
    assert!(!filters.matches_occurrence(&occurrence(now(), false), "u1", false, now()));
}

#[test]
fn query_string_empty_at_defaults() {
    assert_eq!(ListFilters::default().query_string(), "");
}

#[test]
fn as_value_round_trips_through_from_query() {
    let filters = ListFilters::from_query(ListFilterQuery {
        assigned_to: Some("bob".to_string()),
        due_date: Some("overdue".to_string()),
        schedule: Some("past".to_string()),
        ..Default::default()
    });
    assert_eq!(filters.assigned_to.as_value(), "bob");
    assert_eq!(filters.due_date.as_value(), "overdue");
    assert_eq!(filters.schedule.as_value(), "past");
    assert_eq!(ListFilters::default().assigned_to.as_value(), "me");
}

#[test]
fn query_string_round_trips_non_default_values() {
    let filters = ListFilters::from_query(ListFilterQuery {
        show_complete: Some("1".to_string()),
        assigned_to: Some("bob".to_string()),
        due_date: Some("overdue".to_string()),
        schedule: Some("past".to_string()),
        recurring: Some("no".to_string()),
        priority: Some("2".to_string()),
    });
    assert_eq!(
        filters.query_string(),
        "showComplete=1&assignedTo=bob&dueDate=overdue&schedule=past&recurring=no&priority=2"
    );
}

#[test]
fn priority_exact_matches_only_that_priority() {
    let filters = ListFilters::from_query(ListFilterQuery {
        priority: Some("2".to_string()),
        ..Default::default()
    });
    let mut item = task();
    assert!(!filters.matches(&item, "u1", false, now()));
    set_priority(&mut item, 2);
    assert!(filters.matches(&item, "u1", false, now()));
    set_priority(&mut item, 1);
    assert!(!filters.matches(&item, "u1", false, now()));
}

#[test]
fn priority_out_of_range_or_non_numeric_falls_back_to_all() {
    let filters = ListFilters::from_query(ListFilterQuery {
        priority: Some("5".to_string()),
        ..Default::default()
    });
    assert_eq!(filters.priority, PriorityFilter::All);
    let filters = ListFilters::from_query(ListFilterQuery {
        priority: Some("nope".to_string()),
        ..Default::default()
    });
    assert_eq!(filters.priority, PriorityFilter::All);
}

#[test]
fn matches_occurrence_priority_exact_matches_only_that_priority() {
    let filters = ListFilters::from_query(ListFilterQuery {
        priority: Some("3".to_string()),
        ..Default::default()
    });
    let mut occ = occurrence(now(), true);
    occ.priority = Some(1);
    assert!(!filters.matches_occurrence(&occ, "u1", false, now()));
    occ.priority = Some(3);
    assert!(filters.matches_occurrence(&occ, "u1", false, now()));
}
