use todo_web::domain::{Item, ItemKind, ItemSeries, OccurrenceState, ProjectOccurrence};
use todo_web::event_forms::{
    combine_local_to_utc, create_params_from_form, non_empty, overlay_due_date,
    overlay_has_due_time, overlay_required_str, overlay_scheduled_date, overlay_str,
    update_params_from_form, ProjectEventForm, END_OF_DAY, START_OF_DAY,
};
use todo_web::event_list::{render_rows, render_rows_with_virtual, sort_key, stable_order, EventListEntry};
use todo_web::project_events::{
    project_event_url, require_event, ProjectEventDetailDialog, ProjectEventDetailFields,
    ProjectEventDetailView, ProjectEventRow, ProjectEventSeriesOccurrenceDetailDialog,
    ProjectEventSeriesOccurrenceFields, ProjectEventSeriesOccurrenceView, ProjectEventVirtualRow,
    RescheduleDialog,
};
use todo_web::web::ItemError;

// 2023-11-14 22:13:20 UTC.
const TS: i64 = 1_700_000_000;
// 2023-11-14 00:00:00 UTC.
const MIDNIGHT: i64 = 1_699_920_000;

fn event(id: &str) -> Item {
    Item {
        id: id.to_string(),
        name: "Standup".to_string(),
        description: None,
        kind: ItemKind::Event,
        complete: false,
        due_date: None,
        scheduled_date: None,
        scheduled_end_date: None,
        has_due_time: false,
        has_scheduled_time: false,
        has_end_time: false,
        assigned_to_user_id: None,
        priority: None,
        series_id: None,
        parent_item_id: None,
        has_children: false,
        event_type: None,
        google_event_id: None,
        due_offset_days: None,
        source_event_id: None,
        points: None,
    }
}

fn occurrence(series_id: &str, date: i64, state: OccurrenceState) -> ProjectOccurrence {
    ProjectOccurrence {
        series_id: series_id.to_string(),
        series_name: "Series".to_string(),
        item_type: ItemKind::Event,
        event_type: None,
        occurrence_date: date,
        is_current: false,
        assigned_to_user_id: None,
        assigned_to_user_name: None,
        state,
        is_due_date_basis: false,
        priority: None,
    }
}

fn series_fixture() -> ItemSeries {
    ItemSeries {
        id: "s1".to_string(),
        project_id: "p1".to_string(),
        name: "Standup".to_string(),
        description: None,
        event_type: None,
        recurrence: "every 7 days".to_string(),
        anchor_date: TS,
        item_type: ItemKind::Event,
        cursor_date: None,
        basis: None,
        points: None,
        priority: None,
    }
}

#[test]
fn from_series_links_to_the_series_edit_page() {
    let series = series_fixture();

    let view = ProjectEventSeriesOccurrenceView::from_series(&series, series.anchor_date, "p1", false, 0, series.anchor_date);

    assert_eq!(
        view.series_link,
        ("Standup".to_string(), "/web/projects/p1/series/s1/edit".to_string())
    );
}

#[test]
fn occurrence_view_dates_by_basis_and_builds_skip_urls() {
    let mut series = series_fixture();
    let view = ProjectEventSeriesOccurrenceView::from_series(&series, TS, "p1", true, 0, TS + 1);
    assert_eq!(view.scheduled_date, Some("2023-11-14 22:13".to_string()));
    assert_eq!(view.due_date, None);
    assert!(!view.overdue);
    assert!(view.is_skipped);
    assert_eq!(view.skip_url, "/web/projects/p1/series/s1/occurrences/1700000000/skip");
    assert_eq!(view.unskip_url, "/web/projects/p1/series/s1/occurrences/1700000000/unskip");

    series.basis = Some("DUE_DATE".to_string());
    assert!(series.is_due_date_basis());
    let view = ProjectEventSeriesOccurrenceView::from_series(&series, TS, "p1", false, 0, TS + 1);
    assert_eq!(view.due_date, Some("2023-11-14 22:13".to_string()));
    assert_eq!(view.scheduled_date, None);
    assert!(view.overdue);
}

#[test]
fn occurrence_fields_fill_the_inputs_of_the_basis() {
    let mut series = series_fixture();
    series.event_type = Some("meeting".to_string());
    let f = ProjectEventSeriesOccurrenceFields::from_series(&series, TS, "p1", 60);
    assert_eq!(f.scheduled_date_input, "2023-11-14");
    assert_eq!(f.scheduled_time_input, "21:13");
    assert_eq!(f.due_date_input, "");
    assert_eq!(f.due_time_input, "");
    assert_eq!(f.scheduled_end_date_input, "");
    assert_eq!(f.event_type_input, "meeting");
    assert_eq!(f.update_url, "/web/projects/p1/series/s1/occurrences/1700000000/event");

    series.basis = Some("DUE_DATE".to_string());
    let f = ProjectEventSeriesOccurrenceFields::from_series(&series, TS, "p1", 0);
    assert_eq!(f.scheduled_date_input, "");
    assert_eq!(f.due_date_input, "2023-11-14");
    assert_eq!(f.due_time_input, "22:13");
}

#[test]
fn require_event_passes_events_and_hides_the_rest() {
    assert!(require_event(event("e1")).is_ok());
    let mut task = event("t1");
    task.kind = ItemKind::Task;
    assert!(matches!(require_event(task), Err(ItemError::NotFound)));
}

#[test]
fn event_row_shows_local_dates_and_action_urls() {
    let mut item = event("e1");
    item.scheduled_date = Some(TS);
    item.has_scheduled_time = true;
    item.scheduled_end_date = Some(TS + 3600);
    item.event_type = Some("meeting".to_string());
    let row = ProjectEventRow::from_item(&item, "p1", 0, Some("/skip".to_string()), TS);
    assert_eq!(row.item_url, "/web/projects/p1/events/e1");
    assert_eq!(row.scheduled_date, Some("2023-11-14 22:13".to_string()));
    assert_eq!(row.scheduled_end_date, Some("2023-11-14".to_string()));
    assert_eq!(row.due_date, None);
    assert!(!row.overdue);
    assert_eq!(row.edit_url, Some("/web/projects/p1/events/e1/edit".to_string()));
    assert_eq!(row.duplicate_url, Some("/web/projects/p1/events/e1/duplicate".to_string()));
    assert_eq!(row.reschedule_url, Some("/web/projects/p1/events/e1/reschedule".to_string()));
    assert_eq!(row.skip_url, Some("/skip".to_string()));
    assert_eq!(row.event_type, Some("meeting".to_string()));
    assert!(row.detail_via_dialog && row.expanded_row && !row.is_imported && !row.complete);
    assert_eq!(row.indent_class, "");

    let shifted = ProjectEventRow::from_item(&item, "p1", 120, None, TS);
    assert_eq!(shifted.scheduled_date, Some("2023-11-14 20:13".to_string()));
}

#[test]
fn imported_event_row_offers_no_edits() {
    let mut item = event("e1");
    item.google_event_id = Some("g1".to_string());
    let row = ProjectEventRow::from_item(&item, "p1", 0, None, TS);
    assert!(row.is_imported);
    assert_eq!(row.edit_url, None);
    assert_eq!(row.duplicate_url, None);
    assert_eq!(row.reschedule_url, None);
}

#[test]
fn event_row_is_overdue_once_due_date_passed() {
    let mut item = event("e1");
    item.due_date = Some(1_600_000_000);
    let row = ProjectEventRow::from_item(&item, "p1", 0, None, TS);
    assert!(row.overdue);
    assert_eq!(row.due_date, Some("2020-09-13 12:26".to_string()));
}

#[test]
fn virtual_row_links_to_the_occurrence_routes() {
    let occ = occurrence("s1", TS, OccurrenceState::Skipped);
    let row = ProjectEventVirtualRow::from_occurrence(&occ, "p1", 0);
    assert_eq!(row.materialize_url, "/web/projects/p1/series/s1/occurrences/1700000000");
    assert_eq!(row.skip_url, "/web/projects/p1/series/s1/occurrences/1700000000/skip");
    assert_eq!(row.unskip_url, "/web/projects/p1/series/s1/occurrences/1700000000/unskip");
    assert_eq!(row.date_label, "2023-11-14 22:13");
    assert_eq!(row.name, "Series");
    assert!(row.is_skipped);
}

#[test]
fn detail_fields_split_dates_into_inputs() {
    let mut item = event("e1");
    item.scheduled_date = Some(TS);
    item.has_scheduled_time = true;
    item.due_date = Some(TS);
    item.event_type = Some("meeting".to_string());
    let f = ProjectEventDetailFields::from_item(&item, "p1", 0, true);
    assert_eq!(f.scheduled_date_input, "2023-11-14");
    assert_eq!(f.scheduled_time_input, "22:13");
    assert_eq!(f.due_date_input, "2023-11-14");
    assert_eq!(f.due_time_input, "");
    assert_eq!(f.scheduled_end_date_input, "");
    assert_eq!(f.scheduled_end_time_input, "");
    assert_eq!(f.description, "");
    assert_eq!(f.event_type_input, "meeting");
    assert!(f.just_saved);
}

#[test]
fn detail_view_uses_each_dates_own_time_flag() {
    let mut item = event("e1");
    item.due_date = Some(TS);
    item.has_due_time = true;
    item.scheduled_date = Some(TS);
    let v = ProjectEventDetailView::from_item(&item, 0, None, TS + 1);
    assert_eq!(v.due_date, Some("2023-11-14 22:13".to_string()));
    assert_eq!(v.scheduled_date, Some("2023-11-14".to_string()));
    assert!(v.overdue);
    assert_eq!(v.series_link, None);
}

#[test]
fn reschedule_dialog_carries_the_view() {
    let mut item = event("e1");
    item.scheduled_date = Some(TS);
    item.has_scheduled_time = true;
    let d = RescheduleDialog::from_event(&item, "p1", 0, Some("calendar"));
    assert_eq!(d.post_reschedule_url, "/web/projects/p1/events/e1?view=calendar");
    assert_eq!(d.scheduled_start_date, "2023-11-14");
    assert_eq!(d.scheduled_start_time, "22:13");
    assert_eq!(d.due_date, "");
    let d = RescheduleDialog::from_event(&item, "p1", 0, None);
    assert_eq!(d.post_reschedule_url, "/web/projects/p1/events/e1");
}

#[test]
fn dialogs_point_at_their_edit_pages() {
    let d = ProjectEventDetailDialog::new("e1", "p1", "Standup", false, "<p>v</p>".to_string());
    assert_eq!(d.edit_url, "/web/projects/p1/events/e1/edit");
    assert_eq!(d.full_page_url, "/web/projects/p1/events/e1");
    assert_eq!(d.view, "<p>v</p>");
    let d = ProjectEventSeriesOccurrenceDetailDialog::new("p1", "s1", TS, "Standup", true, "v".to_string());
    assert_eq!(d.edit_url, "/web/projects/p1/series/s1/occurrences/1700000000/edit");
    assert!(d.is_skipped);
    assert_eq!(project_event_url("p1", "e9"), "/web/projects/p1/events/e9");
}

#[test]
fn combine_reads_local_date_and_time_as_utc() {
    assert_eq!(combine_local_to_utc("2023-11-14", Some("22:13"), 0, START_OF_DAY), Some(TS - 20));
    assert_eq!(combine_local_to_utc("2023-11-14", Some(" 22:13 "), 60, START_OF_DAY), Some(TS - 20 + 3600));
    assert_eq!(combine_local_to_utc("2023-11-14", None, 0, END_OF_DAY), Some(MIDNIGHT + 86_399));
    assert_eq!(combine_local_to_utc("2023-11-14", Some("  "), 0, START_OF_DAY), Some(MIDNIGHT));
    assert_eq!(combine_local_to_utc("2023-11-14", Some("25:00"), 0, START_OF_DAY), Some(MIDNIGHT));
    assert_eq!(combine_local_to_utc("not a date", None, 0, START_OF_DAY), None);
}

#[test]
fn overlay_rules_keep_clear_or_replace() {
    assert_eq!(non_empty(&Some("  x ".to_string())), Some("x".to_string()));
    assert_eq!(non_empty(&Some("   ".to_string())), None);
    assert_eq!(non_empty(&None), None);
    assert_eq!(overlay_str(&Some("".to_string()), Some("old".to_string())), None);
    assert_eq!(overlay_str(&None, Some("old".to_string())), Some("old".to_string()));
    assert_eq!(overlay_str(&Some(" new ".to_string()), Some("old".to_string())), Some("new".to_string()));
    assert_eq!(overlay_required_str(&Some("  ".to_string()), "cur"), "cur");
    assert_eq!(overlay_required_str(&Some(" n ".to_string()), "cur"), "n");
    assert!(!overlay_has_due_time(&Some("".to_string()), true));
    assert!(overlay_has_due_time(&None, true));
    assert_eq!(overlay_due_date(&None, &None, 0, Some(5)), Some(5));
    assert_eq!(overlay_due_date(&Some(" ".to_string()), &None, 0, Some(5)), None);
    assert_eq!(overlay_scheduled_date(&Some("2023-11-14".to_string()), &None, 0, Some(5)), Some(MIDNIGHT));
}

#[test]
fn create_params_read_the_form_onto_nothing() {
    let form = ProjectEventForm {
        name: Some("Party".to_string()),
        scheduled_date: Some("2023-11-14".to_string()),
        scheduled_time: Some("22:13".to_string()),
        event_type: Some(" bday ".to_string()),
        description: Some("   ".to_string()),
        ..Default::default()
    };
    let p = create_params_from_form("p1", &form, 0);
    assert_eq!(p.project_id, "p1");
    assert_eq!(p.name, "Party");
    assert_eq!(p.scheduled_date, Some(TS - 20));
    assert_eq!(p.has_scheduled_time, Some(true));
    assert_eq!(p.due_date, None);
    assert_eq!(p.has_due_time, None);
    assert_eq!(p.description, None);
    assert_eq!(p.event_type, Some("bday".to_string()));
    assert_eq!(p.item_type, Some(ItemKind::Event));
    assert_eq!(p.timezone_offset_minutes, Some(0));
    assert_eq!(p.complete, None);
}

#[test]
fn update_params_overlay_the_stored_event() {
    let mut current = event("e1");
    current.due_date = Some(5);
    current.has_due_time = true;
    current.description = Some("keep".to_string());
    let form = ProjectEventForm {
        due_date: Some("".to_string()),
        ..Default::default()
    };
    let p = update_params_from_form("p1", "e1", &current, &form, 0);
    assert_eq!(p.item_id, "e1");
    assert_eq!(p.name, "Standup");
    assert_eq!(p.due_date, None);
    assert_eq!(p.has_due_time, Some(true));
    assert_eq!(p.description, Some("keep".to_string()));
    assert!(!p.complete);
}

#[test]
fn stable_order_sorts_by_key_keeping_ties_in_order() {
    assert_eq!(stable_order(&vec![5, 3, 5, 1]), vec![3, 1, 0, 2]);
    assert_eq!(stable_order(&vec![]), Vec::<usize>::new());
    assert_eq!(stable_order(&vec![2, 2, 2]), vec![0, 1, 2]);
}

#[test]
fn sort_key_prefers_scheduled_then_due_then_last() {
    let mut item = event("e1");
    assert_eq!(sort_key(&item), i64::MAX);
    item.due_date = Some(10);
    assert_eq!(sort_key(&item), 10);
    item.scheduled_date = Some(20);
    assert_eq!(sort_key(&item), 20);
}

#[test]
fn rows_with_virtual_merge_by_date() {
    let mut e1 = event("e1");
    e1.scheduled_date = Some(200);
    let e2 = event("e2");
    let mut e3 = event("e3");
    e3.due_date = Some(100);
    let items = vec![e1, e2, e3];
    let occs = vec![
        occurrence("o1", 100, OccurrenceState::Virtual),
        occurrence("o2", 300, OccurrenceState::Virtual),
    ];
    let skips = vec![("e3".to_string(), "/skip-e3".to_string())];
    let out = render_rows_with_virtual(&items, &occs, "p1", 0, &skips, TS);
    let labels: Vec<String> = out
        .iter()
        .map(|e| match e {
            EventListEntry::Real(r) => r.id.clone(),
            EventListEntry::Virtual(v) => v.series_id.clone(),
        })
        .collect();
    assert_eq!(labels, vec!["e3", "o1", "e1", "o2", "e2"]);
    match &out[0] {
        EventListEntry::Real(r) => assert_eq!(r.skip_url, Some("/skip-e3".to_string())),
        EventListEntry::Virtual(_) => panic!("expected a real row"),
    }

    let rows = render_rows(&items, "p1", 0, &skips, TS);
    assert_eq!(rows.len(), 3);
    assert_eq!(rows[0].id, "e1");
    assert_eq!(rows[0].skip_url, None);
}
