use todo_web::redirects::{
    current_page_location, project_events_location, redirect_main_dashboard_list_target,
    redirect_main_dashboard_target, redirect_project_dashboard_list_target,
    redirect_project_dashboard_target,
};
use todo_web::all_projects_tasks::{all_tasks_list_query, AllProjectsTasksQuery};
use todo_web::domain::{ItemKind, ItemSeriesChild, Project};
use todo_web::event_series::{create_event_series_params, CreateEventSeriesForm, ProjectEventSeriesRow};
use todo_web::item_series::{
    check_occurrence_target, occurrence_action_response, OccurrenceActionResponse,
    OccurrenceRowActionQuery, anchor_default_time, create_series_params, parse_item_type, resolve_assignment_mode_fields,
    CreateItemSeriesForm, SeriesChildView,
};
use todo_web::list_filters::ListFilters;
use todo_web::main_dashboard::{preset_pills, preset_range, virtual_occurrence_window};
use todo_web::nav::{nav_model, section_href, ActiveContext, SidebarSection};
use todo_web::project_calendar::{mask_url, CalendarSubscription, CalendarSubscriptionRow};
use todo_web::project_dashboard::{dashboard_items_inner_html, dashboard_list_query};
use todo_web::web::{escape_html, resolve_new_item_project, status_code, tz_offset_from, ItemError};

// 2023-11-14 22:13:20 UTC.
const TS: i64 = 1_700_000_000;
// 2023-11-14 00:00:00 UTC.
const MIDNIGHT: i64 = 1_699_920_000;

fn project(id: &str, name: &str) -> Project {
    Project { id: id.to_string(), name: name.to_string(), team_id: None }
}

#[test]
fn nav_for_a_project_page_keeps_the_section_across_projects() {
    let projects = vec![project("p1", "Alpha"), project("p2", "Beta")];
    let nav = nav_model(&projects, &ActiveContext::Project("p2".to_string()), SidebarSection::Events);
    assert_eq!(nav.project_pills.len(), 2);
    assert_eq!(nav.project_pills[0].name, "Alpha");
    assert_eq!(nav.project_pills[0].href, "/web/projects/p1/events");
    assert!(!nav.project_pills[0].is_active);
    assert_eq!(nav.project_pills[1].href, "/web/projects/p2/events");
    assert!(nav.project_pills[1].is_active);
    let labels: Vec<&str> = nav.section_links.iter().map(|l| l.label).collect();
    assert_eq!(labels, vec!["Tasks", "Events", "Simple Lists", "Templates", "Series"]);
    assert_eq!(nav.section_links[2].href, "/web/projects/p2/simple-lists");
    assert_eq!(nav.section_links[4].href, "/web/projects/p2/series");
    let active: Vec<bool> = nav.section_links.iter().map(|l| l.is_active).collect();
    assert_eq!(active, vec![false, true, false, false, false]);
    assert_eq!(nav.calendar_href, Some("/web/projects/p2/calendar".to_string()));
    assert_eq!(nav.activity_href, Some("/web/projects/p2/activity".to_string()));
}

#[test]
fn nav_for_the_all_projects_screens_and_for_no_project() {
    let projects = vec![project("p1", "Alpha")];
    let nav = nav_model(&projects, &ActiveContext::AllProjects, SidebarSection::Tasks);
    assert_eq!(nav.section_links.len(), 2);
    assert_eq!(nav.section_links[0].href, "/web/tasks");
    assert!(nav.section_links[0].is_active);
    assert_eq!(nav.section_links[1].href, "/web/events");
    assert_eq!(nav.calendar_href, Some("/web/calendar".to_string()));
    assert_eq!(nav.activity_href, None);
    assert!(!nav.project_pills[0].is_active);

    let nav = nav_model(&projects, &ActiveContext::NoProject, SidebarSection::NoSection);
    assert!(nav.section_links.is_empty());
    assert_eq!(nav.calendar_href, None);
    assert_eq!(nav.project_pills[0].href, "/web/projects/p1/calendar");
    assert_eq!(section_href(SidebarSection::Templates, "x"), "/web/projects/x/templates");
}

#[test]
fn tz_offset_prefers_header_then_cookie_then_utc() {
    assert_eq!(tz_offset_from(Some(" -120 "), Some("tz_offset=30")).0, -120);
    assert_eq!(tz_offset_from(Some("+60"), None).0, 60);
    assert_eq!(tz_offset_from(None, Some("a=b; tz_offset=300 ; c=d")).0, 300);
    assert_eq!(tz_offset_from(Some("abc"), Some("tz_offset= 45")).0, 45);
    assert_eq!(tz_offset_from(Some("abc"), None).0, 0);
    assert_eq!(tz_offset_from(None, Some("tz_offset=x; tz_offset=5")).0, 0);
    assert_eq!(tz_offset_from(None, None).0, 0);
}

#[test]
fn new_item_project_cascades_query_personal_first() {
    let projects = vec![project("a", "A"), project("b", "B"), project("c", "C")];
    assert_eq!(resolve_new_item_project(&projects, Some("c"), Some("b")).unwrap().id, "c");
    assert_eq!(resolve_new_item_project(&projects, Some("zz"), Some("b")).unwrap().id, "b");
    assert_eq!(resolve_new_item_project(&projects, None, Some("zz")).unwrap().id, "a");
    assert!(resolve_new_item_project(&Vec::new(), Some("a"), None).is_none());
}

#[test]
fn errors_map_to_statuses() {
    assert_eq!(status_code(&ItemError::NotFound), 404);
    assert_eq!(status_code(&ItemError::Invalid("x".to_string())), 422);
    assert_eq!(status_code(&ItemError::Internal("x".to_string())), 500);
}

#[test]
fn escape_html_replaces_markup_characters() {
    assert_eq!(
        escape_html("<a href=\"x\">Tom & Jerry's</a>"),
        "&lt;a href=&quot;x&quot;&gt;Tom &amp; Jerry&#39;s&lt;/a&gt;"
    );
    assert_eq!(escape_html("plain"), "plain");
    let out = escape_html("<>\"'&é");
    assert!(!out.contains('<') && !out.contains('>') && !out.contains('"') && !out.contains('\''));
}

#[test]
fn presets_select_local_day_windows() {
    assert_eq!(preset_range("Today", TS, 0), (Some(MIDNIGHT), Some(MIDNIGHT + 86_399)));
    assert_eq!(preset_range("Today", TS, -60), (Some(MIDNIGHT - 3600), Some(MIDNIGHT - 3600 + 86_399)));
    assert_eq!(preset_range("This Week", TS, 0), (Some(MIDNIGHT), Some(MIDNIGHT + 7 * 86_400)));
    assert_eq!(preset_range("Next 30 Days", TS, 0), (Some(MIDNIGHT), Some(MIDNIGHT + 30 * 86_400)));
    assert_eq!(preset_range("Overdue", TS, 0), (None, Some(TS)));
    assert_eq!(preset_range("All", TS, 0), (None, None));
    // A late-evening instant west of UTC still falls in that local day.
    let (after, before) = preset_range("Today", TS, 300);
    assert!(after.unwrap() <= TS && TS <= before.unwrap());
    assert_eq!(virtual_occurrence_window(None, None, 1000), (1000, 1000 + 90 * 86_400));
    assert_eq!(virtual_occurrence_window(Some(5), Some(6), 1000), (5, 6));
    let (after, before) = preset_range("Overdue", TS, 0);
    assert_eq!(virtual_occurrence_window(after, before, TS), (TS, TS));
    let pills = preset_pills("Overdue");
    assert_eq!(pills.len(), 6);
    assert_eq!(pills[0], ("All", false));
    assert_eq!(pills[5], ("Overdue", true));
}

#[test]
fn dashboard_query_round_trips_the_view() {
    assert_eq!(
        dashboard_list_query("Next 30 Days", true, false),
        "?view=project-dashboard&preset=Next%2030%20Days&showComplete=1"
    );
    assert_eq!(
        dashboard_list_query("Today", false, true),
        "?view=project-dashboard&preset=Today&assignedToAny=1"
    );
    assert_eq!(
        dashboard_items_inner_html(&Vec::new()),
        "<li class=\"py-3 text-sm text-gray-500 dark:text-gray-400\">No items.</li>"
    );
    assert_eq!(
        dashboard_items_inner_html(&vec!["<li>a</li>".to_string(), "<li>b</li>".to_string()]),
        "<li>a</li><li>b</li>"
    );
}

#[test]
fn subscription_rows_mask_long_urls() {
    assert_eq!(mask_url("https://example.com/a.ics"), "https://example.com/a.ics");
    let long = "https://calendar.example.com/private-0123456789abcdef/basic.ics";
    assert_eq!(mask_url(long), "https://calendar.example.com/private-012…");
    let sub = CalendarSubscription {
        id: "c1".to_string(),
        project_id: "p1".to_string(),
        ical_url: long.to_string(),
        last_synced_at: Some(TS),
        last_sync_error: None,
    };
    let row = CalendarSubscriptionRow::from_subscription(&sub, true, 0);
    assert_eq!(row.last_synced_label, "Synced 2023-11-14 22:13");
    assert!(row.is_admin);
    let never = CalendarSubscription { last_synced_at: None, ..sub };
    let row = CalendarSubscriptionRow::from_subscription(&never, false, 0);
    assert_eq!(row.last_synced_label, "Not synced yet");
}

fn series_form() -> CreateItemSeriesForm {
    CreateItemSeriesForm {
        name: " Chores ".to_string(),
        description: Some("".to_string()),
        item_type: "TASK".to_string(),
        event_type: None,
        recurrence: " every 7 days ".to_string(),
        anchor_date: " 2023-11-14 ".to_string(),
        anchor_time: None,
        basis: Some("DUE_DATE".to_string()),
        template_item_id: Some("".to_string()),
        assigned_to_user_id: Some(" u3 ".to_string()),
        assignment_mode: None,
        rotation_user_ids: None,
        points: Some(" 3 ".to_string()),
    }
}

#[test]
fn series_form_becomes_create_params() {
    let p = create_series_params("p1", &series_form(), 0).unwrap();
    assert_eq!(p.name, "Chores");
    assert_eq!(p.recurrence, "every 7 days");
    assert_eq!(p.anchor_date, MIDNIGHT + 86_399);
    assert_eq!(p.item_type, ItemKind::Task);
    assert_eq!(p.basis, Some("DUE_DATE".to_string()));
    assert_eq!(p.description, None);
    assert_eq!(p.template_item_id, None);
    assert_eq!(p.assigned_to_user_id, Some("u3".to_string()));
    assert_eq!(p.rotation_user_ids, None);
    assert_eq!(p.points, Some(3));

    let bad_anchor = CreateItemSeriesForm { anchor_date: "soon".to_string(), ..series_form() };
    match create_series_params("p1", &bad_anchor, 0) {
        Err(ItemError::Invalid(m)) => assert_eq!(m, "anchor date is required"),
        other => panic!("unexpected {:?}", other.map(|p| p.name)),
    }
    let bad_kind = CreateItemSeriesForm { item_type: "task".to_string(), ..series_form() };
    match create_series_params("p1", &bad_kind, 0) {
        Err(ItemError::Invalid(m)) => assert_eq!(m, "itemType must be TASK or EVENT"),
        other => panic!("unexpected {:?}", other.map(|p| p.name)),
    }
}

#[test]
fn assignment_mode_picks_rotation_or_fixed() {
    let rotate = CreateItemSeriesForm {
        assignment_mode: Some("rotate".to_string()),
        rotation_user_ids: Some(" u1, ,u2 ".to_string()),
        ..series_form()
    };
    assert_eq!(
        resolve_assignment_mode_fields(&rotate),
        (None, Some(vec!["u1".to_string(), "u2".to_string()]))
    );
    let rotate_none = CreateItemSeriesForm {
        assignment_mode: Some("rotate".to_string()),
        rotation_user_ids: None,
        ..series_form()
    };
    assert_eq!(resolve_assignment_mode_fields(&rotate_none), (None, Some(Vec::new())));
    assert_eq!(resolve_assignment_mode_fields(&series_form()), (Some("u3".to_string()), None));
    assert!(matches!(parse_item_type("EVENT"), Ok(ItemKind::Event)));
    assert_eq!(anchor_default_time(&Some("DUE_DATE".to_string())), 86_399);
    assert_eq!(anchor_default_time(&Some("COMPLETION".to_string())), 0);
}

#[test]
fn event_series_form_and_rows() {
    let form = CreateEventSeriesForm {
        name: " Standup ".to_string(),
        description: None,
        event_type: Some(" meeting ".to_string()),
        recurrence: "every 7 days".to_string(),
        anchor_date: "2023-11-14".to_string(),
        anchor_time: Some("22:13".to_string()),
    };
    let p = create_event_series_params("p1", &form, 0).unwrap();
    assert_eq!(p.anchor_date, TS - 20);
    assert_eq!(p.item_type, ItemKind::Event);
    assert_eq!(p.event_type, Some("meeting".to_string()));
    assert_eq!(p.name, "Standup");
    let bare = CreateEventSeriesForm { anchor_time: None, ..form };
    assert_eq!(create_event_series_params("p1", &bare, 0).unwrap().anchor_date, MIDNIGHT);
    let bad = CreateEventSeriesForm { anchor_date: "".to_string(), ..bare };
    assert!(matches!(create_event_series_params("p1", &bad, 0), Err(ItemError::Invalid(_))));

    let series = todo_web::domain::ItemSeries {
        id: "s1".to_string(),
        project_id: "p1".to_string(),
        name: "Standup".to_string(),
        description: None,
        event_type: Some("meeting".to_string()),
        recurrence: "every 7 days".to_string(),
        anchor_date: TS,
        item_type: ItemKind::Event,
        cursor_date: None,
        basis: None,
        points: None,
        priority: None,
    };
    let row = ProjectEventSeriesRow::from_series(&series, 0);
    assert_eq!(row.anchor_date_label, "2023-11-14 22:13");
    assert_eq!(row.event_type, Some("meeting".to_string()));
    let child = ItemSeriesChild {
        id: "c1".to_string(),
        name: "Prep".to_string(),
        description: None,
        days_before: 2,
        priority: Some(1),
    };
    let v = SeriesChildView::from_child(&child);
    assert_eq!(v.description, "");
    assert_eq!(v.days_before, 2);
    assert_eq!(v.priority, Some(1));
}

#[test]
fn all_projects_query_filters_and_view_query() {
    let q = AllProjectsTasksQuery { project: Some(" all ".to_string()), ..Default::default() };
    assert_eq!(q.project_filter(), None);
    let q = AllProjectsTasksQuery {
        project: Some(" p1 ".to_string()),
        show_complete: Some("1".to_string()),
        ..Default::default()
    };
    assert_eq!(q.project_filter(), Some("p1"));
    let filters = q.filters();
    assert!(filters.show_complete);
    assert_eq!(all_tasks_list_query(&filters, Some("p1")), "?view=all-tasks&showComplete=1&project=p1");
    assert_eq!(all_tasks_list_query(&ListFilters::default(), None), "?view=all-tasks");
}

#[test]
fn old_dashboard_paths_forward_their_query() {
    assert_eq!(redirect_main_dashboard_target(Some("year=2024&date=2024-01-02")), "/web/calendar?year=2024&date=2024-01-02");
    assert_eq!(redirect_main_dashboard_target(Some("")), "/web/calendar");
    assert_eq!(redirect_main_dashboard_list_target(None), "/web/tasks");
    assert_eq!(redirect_project_dashboard_target("p1", Some("month=3")), "/web/projects/p1/calendar?month=3");
    assert_eq!(redirect_project_dashboard_list_target("p1", None), "/web/projects/p1/tasks");
    assert_eq!(current_page_location(Some("/web/projects/p1/tasks?x=1"), "p1"), "/web/projects/p1/tasks?x=1");
    assert_eq!(current_page_location(None, "p1"), "/web/projects/p1/series");
    assert_eq!(project_events_location("p1"), "/web/projects/p1/events");
    assert!(matches!(todo_web::nav::active_context("p7"), ActiveContext::Project(p) if p == "p7"));
}

#[test]
fn occurrence_actions_answer_by_view_and_check_their_target() {
    let q = OccurrenceRowActionQuery { view: Some("tasks-list".to_string()), show_complete: Some("1".to_string()) };
    assert_eq!(occurrence_action_response(&q), OccurrenceActionResponse::TasksList { show_complete: true });
    let q = OccurrenceRowActionQuery { view: Some("all-tasks".to_string()), show_complete: None };
    assert_eq!(occurrence_action_response(&q), OccurrenceActionResponse::AllTasks { show_complete: false });
    let q = OccurrenceRowActionQuery { view: Some("all-events".to_string()), show_complete: None };
    assert_eq!(occurrence_action_response(&q), OccurrenceActionResponse::AllEvents);
    assert_eq!(occurrence_action_response(&OccurrenceRowActionQuery::default()), OccurrenceActionResponse::CurrentPage);
    assert_eq!(check_occurrence_target("p1", "p1", TS).unwrap(), TS);
    assert!(matches!(check_occurrence_target("p1", "p2", TS), Err(ItemError::NotFound)));
    match check_occurrence_target("p1", "p1", i64::MAX) {
        Err(ItemError::Invalid(m)) => assert_eq!(m, "invalid occurrence timestamp"),
        other => panic!("unexpected {:?}", other),
    }
}

#[test]
fn series_edit_reads_like_a_create() {
    let p = todo_web::item_series::update_series_params(&series_form(), 0).unwrap();
    assert_eq!(p.name, "Chores");
    assert_eq!(p.anchor_date, MIDNIGHT + 86_399);
    assert_eq!(p.item_type, ItemKind::Task);
    assert_eq!(p.points, Some(3));
    let bad = CreateItemSeriesForm { anchor_date: "".to_string(), ..series_form() };
    assert!(matches!(todo_web::item_series::update_series_params(&bad, 0), Err(ItemError::Invalid(_))));
}
