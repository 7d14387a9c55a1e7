//! The per-project Events screens' view models: list rows, the detail/edit panels, the
//! reschedule dialog and the views of a still-virtual series occurrence.
use vstd::prelude::*;
use crate::components::Row;
use crate::dates::{
    label_spec, local_label, opt_label_spec, opt_label, date_input_spec, date_input,
    time_input_spec, time_input, to_local_spec, ymd_text, hm_text, format_ymd, format_hm,
    to_local,
};
use crate::domain::{
    Item, ItemKind, ItemSeries, ProjectOccurrence, ts_ok, opt_view, clone_opt, copy_str,
    occurrence_base_url, occurrence_url,
};
use crate::storage::RepoError;
use crate::web::ItemError;

verus! {

/// `/web/projects/{project_id}/events/{item_id}`.
pub open spec fn event_url_spec(project_id: Seq<char>, item_id: Seq<char>) -> Seq<char> {
    "/web/projects/"@ + project_id + "/events/"@ + item_id
}

/// An event's permanent detail page.
pub fn project_event_url(project_id: &str, item_id: &str) -> (r: String)
    ensures
        r@ == event_url_spec(project_id@, item_id@),
{
    String::from_str("/web/projects/").concat(project_id).concat("/events/").concat(item_id)
}

/// Only an Event passes; anything else is answered as not found.
pub fn require_event(item: Item) -> (r: Result<Item, ItemError>)
    ensures
        item.kind == ItemKind::Event ==> r == Ok::<Item, ItemError>(item),
        item.kind != ItemKind::Event ==> r matches Err(ItemError::NotFound),
{
    if item.kind == ItemKind::Event {
        Ok(item)
    } else {
        Err(ItemError::NotFound)
    }
}

/// The empty string for `None`.
pub open spec fn or_empty(o: Option<String>) -> Seq<char> {
    match o {
        Some(s) => s@,
        None => Seq::empty(),
    }
}

fn unwrap_or_empty(o: &Option<String>) -> (r: String)
    ensures
        r@ == or_empty(*o),
{
    match o {
        Some(s) => copy_str(s),
        None => String::new(),
    }
}

/// An action URL under the event's page; an imported event offers none.
pub open spec fn event_action_spec(project_id: Seq<char>, item: Item, action: Seq<char>) -> Option<Seq<char>> {
    if item.google_event_id is Some {
        None
    } else {
        Some(event_url_spec(project_id, item.id@) + "/"@ + action)
    }
}

fn event_action(project_id: &str, item: &Item, action: &str) -> (r: Option<String>)
    ensures
        opt_view(r) == event_action_spec(project_id@, *item, action@),
{
    if item.google_event_id.is_some() {
        None
    } else {
        Some(project_event_url(project_id, item.id.as_str()).concat("/").concat(action))
    }
}

/// The list row of a real event. It is always top level and never completable, so it
/// carries no children, assignee, siblings or completion toggle.
pub struct ProjectEventRow;

/// Everything the row of `item` shows but whether it is overdue.
pub open spec fn event_row_fields(
    r: Row,
    item: Item,
    project_id: Seq<char>,
    tz: int,
    skip_url: Option<Seq<char>>,
) -> bool {
    &&& r.id@ == item.id@
    &&& r.item_url@ == event_url_spec(project_id, item.id@)
    &&& r.name@ == item.name@
    &&& !r.complete
    &&& opt_view(r.due_date) == opt_label_spec(item.due_date, tz, true)
    &&& opt_view(r.scheduled_date) == opt_label_spec(item.scheduled_date, tz, item.has_scheduled_time)
    &&& opt_view(r.scheduled_end_date) == opt_label_spec(item.scheduled_end_date, tz, item.has_end_time)
    &&& opt_view(r.event_type) == opt_view(item.event_type)
    &&& r.expanded_row
    &&& !r.has_children
    &&& r.offset_label is None
    &&& r.assignee_name is None
    &&& r.complete_url is None
    &&& opt_view(r.edit_url) == event_action_spec(project_id, item, "edit"@)
    &&& opt_view(r.duplicate_url) == event_action_spec(project_id, item, "duplicate"@)
    &&& opt_view(r.reschedule_url) == event_action_spec(project_id, item, "reschedule"@)
    &&& r.assign_url is None
    &&& opt_view(r.skip_url) == skip_url
    &&& r.toggle_complete_json@.len() == 0
    &&& r.siblings@.len() == 0
    &&& !r.is_source_event_linked
    &&& !r.show_complete
    &&& r.confirmation is None
    &&& r.dismiss_after_ms is None
    &&& r.is_imported == (item.google_event_id is Some)
    &&& r.type_badge is None
    &&& r.parent_name is None
    &&& r.project_name is None
    &&& r.detail_via_dialog
    &&& r.children_html is None
    &&& r.indent_class@ == ""@
}

impl ProjectEventRow {
    /// The row of `item`, overdue as of `now`.
    pub fn from_item(item: &Item, project_id: &str, tz: i32, skip_url: Option<String>, now: i64) -> (r: Row)
        requires
            item.dates_ok(),
        ensures
            event_row_fields(r, *item, project_id@, tz as int, opt_view(skip_url)),
            r.overdue == item.overdue_at(now),
            r.overdue ==> r.due_date is Some,
    {
        Row {
            id: copy_str(&item.id),
            item_url: project_event_url(project_id, item.id.as_str()),
            name: copy_str(&item.name),
            complete: false,
            due_date: opt_label(item.due_date, tz, true),
            overdue: item.is_overdue(now),
            scheduled_date: opt_label(item.scheduled_date, tz, item.has_scheduled_time),
            scheduled_end_date: opt_label(item.scheduled_end_date, tz, item.has_end_time),
            event_type: clone_opt(&item.event_type),
            expanded_row: true,
            has_children: false,
            offset_label: None,
            assignee_name: None,
            complete_url: None,
            edit_url: event_action(project_id, item, "edit"),
            duplicate_url: event_action(project_id, item, "duplicate"),
            reschedule_url: event_action(project_id, item, "reschedule"),
            assign_url: None,
            skip_url,
            toggle_complete_json: String::new(),
            siblings: Vec::new(),
            is_source_event_linked: false,
            show_complete: false,
            confirmation: None,
            dismiss_after_ms: None,
            is_imported: item.google_event_id.is_some(),
            type_badge: None,
            parent_name: None,
            project_name: None,
            detail_via_dialog: true,
            children_html: None,
            indent_class: "",
        }
    }
}

/// A still-virtual or skipped occurrence of an Event series, as its own list row.
#[derive(Clone, Debug)]
pub struct ProjectEventVirtualRow {
    pub series_id: String,
    pub occurrence_ts: i64,
    pub name: String,
    pub date_label: String,
    pub materialize_url: String,
    pub skip_url: String,
    pub is_skipped: bool,
    pub unskip_url: String,
}

pub open spec fn virtual_row_ok(
    r: ProjectEventVirtualRow,
    occ: ProjectOccurrence,
    project_id: Seq<char>,
    tz: int,
) -> bool {
    let base = occurrence_base_url(project_id, occ.series_id@, occ.occurrence_date);
    &&& r.series_id@ == occ.series_id@
    &&& r.occurrence_ts == occ.occurrence_date
    &&& r.name@ == occ.series_name@
    &&& r.date_label@ == label_spec(occ.occurrence_date as int, tz, true)
    &&& r.materialize_url@ == base
    &&& r.skip_url@ == base + "/skip"@
    &&& r.is_skipped == occ.skipped()
    &&& r.unskip_url@ == base + "/unskip"@
}

impl ProjectEventVirtualRow {
    pub fn from_occurrence(occ: &ProjectOccurrence, project_id: &str, tz: i32) -> (r: Self)
        requires
            ts_ok(occ.occurrence_date),
        ensures
            virtual_row_ok(r, *occ, project_id@, tz as int),
    {
        Self {
            series_id: copy_str(&occ.series_id),
            occurrence_ts: occ.occurrence_date,
            name: copy_str(&occ.series_name),
            date_label: local_label(occ.occurrence_date, tz, true),
            materialize_url: occ.materialize_url(project_id),
            skip_url: occ.skip_url(project_id),
            is_skipped: occ.is_skipped(),
            unskip_url: occ.unskip_url(project_id),
        }
    }
}

/// The edit form of an event, its inputs in local time.
#[derive(Clone, Debug)]
pub struct ProjectEventDetailFields {
    pub id: String,
    pub project_id: String,
    pub name: String,
    pub description: String,
    pub scheduled_date_input: String,
    pub scheduled_time_input: String,
    pub scheduled_end_date_input: String,
    pub scheduled_end_time_input: String,
    pub due_date_input: String,
    pub due_time_input: String,
    pub event_type_input: String,
    /// Set only on the fragment a successful save returns.
    pub just_saved: bool,
}

impl ProjectEventDetailFields {
    /// Each date input is the local `%Y-%m-%d` of the instant (empty when unset); each time
    /// input its local `%H:%M` when the instant carries a time of day (else empty).
    pub fn from_item(item: &Item, project_id: &str, tz: i32, just_saved: bool) -> (r: Self)
        requires
            item.dates_ok(),
        ensures
            r.id@ == item.id@,
            r.project_id@ == project_id@,
            r.name@ == item.name@,
            r.description@ == or_empty(item.description),
            r.scheduled_date_input@ == date_input_spec(item.scheduled_date, tz as int),
            r.scheduled_time_input@ == time_input_spec(item.scheduled_date, tz as int, item.has_scheduled_time),
            r.scheduled_end_date_input@ == date_input_spec(item.scheduled_end_date, tz as int),
            r.scheduled_end_time_input@ == time_input_spec(item.scheduled_end_date, tz as int, item.has_end_time),
            r.due_date_input@ == date_input_spec(item.due_date, tz as int),
            r.due_time_input@ == time_input_spec(item.due_date, tz as int, item.has_due_time),
            r.event_type_input@ == or_empty(item.event_type),
            r.just_saved == just_saved,
    {
        Self {
            id: copy_str(&item.id),
            project_id: String::from_str(project_id),
            name: copy_str(&item.name),
            description: unwrap_or_empty(&item.description),
            scheduled_date_input: date_input(item.scheduled_date, tz),
            scheduled_time_input: time_input(item.scheduled_date, tz, item.has_scheduled_time),
            scheduled_end_date_input: date_input(item.scheduled_end_date, tz),
            scheduled_end_time_input: time_input(item.scheduled_end_date, tz, item.has_end_time),
            due_date_input: date_input(item.due_date, tz),
            due_time_input: time_input(item.due_date, tz, item.has_due_time),
            event_type_input: unwrap_or_empty(&item.event_type),
            just_saved,
        }
    }
}

/// The read-only view of an event. Events are never completed, so it has no toggle.
#[derive(Clone, Debug)]
pub struct ProjectEventDetailView {
    pub id: String,
    pub description: Option<String>,
    pub scheduled_date: Option<String>,
    pub scheduled_end_date: Option<String>,
    pub due_date: Option<String>,
    pub overdue: bool,
    pub event_type: Option<String>,
    /// (series name, series edit page) of the series the event was materialized from.
    pub series_link: Option<(String, String)>,
}

pub open spec fn detail_view_fields(
    r: ProjectEventDetailView,
    item: Item,
    tz: int,
    series_link: Option<(String, String)>,
) -> bool {
    &&& r.id@ == item.id@
    &&& opt_view(r.description) == opt_view(item.description)
    &&& opt_view(r.scheduled_date) == opt_label_spec(item.scheduled_date, tz, item.has_scheduled_time)
    &&& opt_view(r.scheduled_end_date) == opt_label_spec(item.scheduled_end_date, tz, item.has_end_time)
    &&& opt_view(r.due_date) == opt_label_spec(item.due_date, tz, item.has_due_time)
    &&& opt_view(r.event_type) == opt_view(item.event_type)
    &&& r.series_link == series_link
}

impl ProjectEventDetailView {
    /// The view of `item`, overdue as of `now`.
    pub fn from_item(item: &Item, tz: i32, series_link: Option<(String, String)>, now: i64) -> (r: Self)
        requires
            item.dates_ok(),
        ensures
            detail_view_fields(r, *item, tz as int, series_link),
            r.overdue == item.overdue_at(now),
            r.overdue ==> r.due_date is Some,
    {
        Self {
            id: copy_str(&item.id),
            description: clone_opt(&item.description),
            scheduled_date: opt_label(item.scheduled_date, tz, item.has_scheduled_time),
            scheduled_end_date: opt_label(item.scheduled_end_date, tz, item.has_end_time),
            due_date: opt_label(item.due_date, tz, item.has_due_time),
            overdue: item.is_overdue(now),
            event_type: clone_opt(&item.event_type),
            series_link,
        }
    }
}

/// The reschedule dialog of an event; it saves through the event's own update route.
#[derive(Clone, Debug)]
pub struct RescheduleDialog {
    pub item_id: String,
    pub post_reschedule_url: String,
    pub scheduled_start_date: String,
    pub scheduled_start_time: String,
    pub scheduled_end_date: String,
    pub scheduled_end_time: String,
    pub due_date: String,
    pub due_time: String,
}

/// The event's update route, carrying `?view=` when the dialog was opened from a view.
pub open spec fn reschedule_url_spec(project_id: Seq<char>, item_id: Seq<char>, view: Option<Seq<char>>) -> Seq<char> {
    match view {
        Some(v) => event_url_spec(project_id, item_id) + "?view="@ + v,
        None => event_url_spec(project_id, item_id),
    }
}

impl RescheduleDialog {
    pub fn from_event(event: &Item, project_id: &str, tz: i32, view: Option<&str>) -> (r: Self)
        requires
            event.dates_ok(),
        ensures
            r.item_id@ == event.id@,
            r.post_reschedule_url@ == reschedule_url_spec(project_id@, event.id@, crate::web::opt_str(view)),
            r.due_date@ == date_input_spec(event.due_date, tz as int),
            r.due_time@ == time_input_spec(event.due_date, tz as int, event.has_due_time),
            r.scheduled_start_date@ == date_input_spec(event.scheduled_date, tz as int),
            r.scheduled_start_time@ == time_input_spec(event.scheduled_date, tz as int, event.has_scheduled_time),
            r.scheduled_end_date@ == date_input_spec(event.scheduled_end_date, tz as int),
            r.scheduled_end_time@ == time_input_spec(event.scheduled_end_date, tz as int, event.has_end_time),
    {
        let base = project_event_url(project_id, event.id.as_str());
        let post_reschedule_url = match view {
            Some(v) => base.concat("?view=").concat(v),
            None => base,
        };
        RescheduleDialog {
            item_id: copy_str(&event.id),
            post_reschedule_url,
            due_date: date_input(event.due_date, tz),
            due_time: time_input(event.due_date, tz, event.has_due_time),
            scheduled_start_date: date_input(event.scheduled_date, tz),
            scheduled_start_time: time_input(event.scheduled_date, tz, event.has_scheduled_time),
            scheduled_end_date: date_input(event.scheduled_end_date, tz),
            scheduled_end_time: time_input(event.scheduled_end_date, tz, event.has_end_time),
        }
    }
}

/// `/web/projects/{project_id}/series/{series_id}/edit`.
pub open spec fn series_edit_url_spec(project_id: Seq<char>, series_id: Seq<char>) -> Seq<char> {
    "/web/projects/"@ + project_id + "/series/"@ + series_id + "/edit"@
}

pub fn series_edit_url(project_id: &str, series_id: &str) -> (r: String)
    ensures
        r@ == series_edit_url_spec(project_id@, series_id@),
{
    String::from_str("/web/projects/").concat(project_id).concat("/series/").concat(series_id).concat(
        "/edit",
    )
}

/// The detail panel's link to the series an item was materialized from, once the series
/// `series_id` has been looked up: its name and edit page when found; no link when the
/// series is gone (a deleted series leaves its items behind); any other failure passed on.
pub fn series_link_from_lookup(
    project_id: &str,
    series_id: &str,
    found: Result<String, RepoError>,
) -> (r: Result<Option<(String, String)>, RepoError>)
    ensures
        found matches Ok(name) ==> (r matches Ok(Some(link)) && link.0@ == name@ && link.1@
            == series_edit_url_spec(project_id@, series_id@)),
        found matches Err(RepoError::NotFound) ==> r matches Ok(None),
        found matches Err(RepoError::Internal(m)) ==> (r matches Err(RepoError::Internal(m2))
            && m2@ == m@),
{
    match found {
        Ok(name) => Ok(Some((name, series_edit_url(project_id, series_id)))),
        Err(RepoError::NotFound) => Ok(None),
        Err(RepoError::Internal(m)) => Err(RepoError::Internal(m)),
    }
}

/// The series whose lookup an item's link needs: the item's series, or none — an item not
/// materialized from a series needs no lookup at all.
pub fn series_to_look_up(item: &Item) -> (r: Option<String>)
    ensures
        opt_view(r) == opt_view(item.series_id),
{
    clone_opt(&item.series_id)
}

/// The detail panel's link for `item`. An item without a series gets no link, and no lookup
/// is made for it (`lookup` is `None`); for an item with a series, `lookup` is the result of
/// looking that series up, and the link is what that result gives (see
/// `series_link_from_lookup`).
pub fn resolve_series_link(
    project_id: &str,
    item: &Item,
    lookup: Option<Result<String, RepoError>>,
) -> (r: Result<Option<(String, String)>, RepoError>)
    requires
        item.series_id is Some <==> lookup is Some,
    ensures
        item.series_id is None ==> r matches Ok(None),
        item.series_id matches Some(sid) ==> (lookup matches Some(Ok(name)) ==> (r matches Ok(
            Some(link),
        ) && link.0@ == name@ && link.1@ == series_edit_url_spec(project_id@, sid@))),
        item.series_id is Some ==> (lookup matches Some(Err(RepoError::NotFound)) ==> r matches Ok(
            None,
        )),
        item.series_id is Some ==> (lookup matches Some(Err(RepoError::Internal(m))) ==> (
        r matches Err(RepoError::Internal(m2)) && m2@ == m@)),
{
    match (&item.series_id, lookup) {
        (Some(sid), Some(found)) => series_link_from_lookup(project_id, sid.as_str(), found),
        _ => Ok(None),
    }
}

/// The read-only view of a still-virtual or skipped occurrence of an Event series. The
/// occurrence's date is its due date on a due-date-basis series, else its scheduled date.
#[derive(Debug)]
pub struct ProjectEventSeriesOccurrenceView {
    pub series_id: String,
    pub occurrence_ts: i64,
    pub description: Option<String>,
    pub is_skipped: bool,
    pub scheduled_date: Option<String>,
    pub due_date: Option<String>,
    pub overdue: bool,
    pub event_type: Option<String>,
    pub skip_url: String,
    pub unskip_url: String,
    /// (series name, series edit page).
    pub series_link: (String, String),
}

pub open spec fn occurrence_view_fields(
    r: ProjectEventSeriesOccurrenceView,
    series: ItemSeries,
    occurrence_date: i64,
    project_id: Seq<char>,
    is_skipped: bool,
    tz: int,
) -> bool {
    let label = label_spec(occurrence_date as int, tz, true);
    let base = occurrence_base_url(project_id, series.id@, occurrence_date);
    &&& r.series_id@ == series.id@
    &&& r.occurrence_ts == occurrence_date
    &&& opt_view(r.description) == opt_view(series.description)
    &&& r.is_skipped == is_skipped
    &&& opt_view(r.due_date) == (if series.due_date_basis() { Some(label) } else { None })
    &&& opt_view(r.scheduled_date) == (if series.due_date_basis() { None } else { Some(label) })
    &&& opt_view(r.event_type) == opt_view(series.event_type)
    &&& r.skip_url@ == base + "/skip"@
    &&& r.unskip_url@ == base + "/unskip"@
    &&& r.series_link.0@ == series.name@
    &&& r.series_link.1@ == series_edit_url_spec(project_id, series.id@)
}

impl ProjectEventSeriesOccurrenceView {
    /// The view, overdue (only ever on a due-date basis) as of `now`.
    pub fn from_series(
        series: &ItemSeries,
        occurrence_date: i64,
        project_id: &str,
        is_skipped: bool,
        tz: i32,
        now: i64,
    ) -> (r: Self)
        requires
            ts_ok(occurrence_date),
        ensures
            occurrence_view_fields(r, *series, occurrence_date, project_id@, is_skipped, tz as int),
            r.overdue == (series.due_date_basis() && occurrence_date < now),
            r.overdue ==> r.due_date is Some,
    {
        let due_basis = series.is_due_date_basis();
        let label = local_label(occurrence_date, tz, true);
        let (due_date, scheduled_date) = if due_basis {
            (Some(label), None)
        } else {
            (None, Some(label))
        };
        let base = occurrence_url(project_id, series.id.as_str(), occurrence_date);
        let skip_url = copy_str(&base).concat("/skip");
        let unskip_url = base.concat("/unskip");
        Self {
            series_id: copy_str(&series.id),
            occurrence_ts: occurrence_date,
            description: clone_opt(&series.description),
            is_skipped,
            scheduled_date,
            due_date,
            overdue: due_basis && occurrence_date < now,
            event_type: clone_opt(&series.event_type),
            skip_url,
            unskip_url,
            series_link: (copy_str(&series.name), series_edit_url(project_id, series.id.as_str())),
        }
    }
}

/// The edit form of a still-virtual occurrence of an Event series: its date fills the due
/// inputs on a due-date basis, else the scheduled ones; the end inputs start empty.
#[derive(Clone, Debug)]
pub struct ProjectEventSeriesOccurrenceFields {
    pub series_id: String,
    pub occurrence_ts: i64,
    pub name: String,
    pub description: String,
    pub scheduled_date_input: String,
    pub scheduled_time_input: String,
    pub scheduled_end_date_input: String,
    pub scheduled_end_time_input: String,
    pub due_date_input: String,
    pub due_time_input: String,
    pub event_type_input: String,
    pub update_url: String,
}

impl ProjectEventSeriesOccurrenceFields {
    pub fn from_series(series: &ItemSeries, occurrence_date: i64, project_id: &str, tz: i32) -> (r: Self)
        requires
            ts_ok(occurrence_date),
        ensures
            r.series_id@ == series.id@,
            r.occurrence_ts == occurrence_date,
            r.name@ == series.name@,
            r.description@ == or_empty(series.description),
            r.scheduled_date_input@ == (if series.due_date_basis() { Seq::empty() } else { ymd_text(to_local_spec(occurrence_date as int, tz as int)) }),
            r.scheduled_time_input@ == (if series.due_date_basis() { Seq::empty() } else { hm_text(to_local_spec(occurrence_date as int, tz as int)) }),
            r.scheduled_end_date_input@.len() == 0,
            r.scheduled_end_time_input@.len() == 0,
            r.due_date_input@ == (if series.due_date_basis() { ymd_text(to_local_spec(occurrence_date as int, tz as int)) } else { Seq::empty() }),
            r.due_time_input@ == (if series.due_date_basis() { hm_text(to_local_spec(occurrence_date as int, tz as int)) } else { Seq::empty() }),
            r.event_type_input@ == or_empty(series.event_type),
            r.update_url@ == occurrence_base_url(project_id@, series.id@, occurrence_date) + "/event"@,
    {
        let local = to_local(occurrence_date, tz);
        let date_in = format_ymd(local);
        let time_in = format_hm(local);
        let due_basis = series.is_due_date_basis();
        let (scheduled_date_input, scheduled_time_input, due_date_input, due_time_input) = if due_basis {
            (String::new(), String::new(), date_in, time_in)
        } else {
            (date_in, time_in, String::new(), String::new())
        };
        Self {
            series_id: copy_str(&series.id),
            occurrence_ts: occurrence_date,
            name: copy_str(&series.name),
            description: unwrap_or_empty(&series.description),
            scheduled_date_input,
            scheduled_time_input,
            scheduled_end_date_input: String::new(),
            scheduled_end_time_input: String::new(),
            due_date_input,
            due_time_input,
            event_type_input: unwrap_or_empty(&series.event_type),
            update_url: occurrence_url(project_id, series.id.as_str(), occurrence_date).concat("/event"),
        }
    }
}

/// The read-only dialog of a still-virtual or skipped Event-series occurrence.
#[derive(Clone, Debug)]
pub struct ProjectEventSeriesOccurrenceDetailDialog {
    pub name: String,
    pub is_skipped: bool,
    pub view: String,
    pub edit_url: String,
}

impl ProjectEventSeriesOccurrenceDetailDialog {
    pub fn new(
        project_id: &str,
        series_id: &str,
        occurrence_ts: i64,
        name: &str,
        is_skipped: bool,
        view: String,
    ) -> (r: Self)
        ensures
            r.name@ == name@,
            r.is_skipped == is_skipped,
            r.view@ == view@,
            r.edit_url@ == occurrence_base_url(project_id@, series_id@, occurrence_ts) + "/edit"@,
    {
        Self {
            name: String::from_str(name),
            is_skipped,
            view,
            edit_url: occurrence_url(project_id, series_id, occurrence_ts).concat("/edit"),
        }
    }
}

/// The full page of a still-virtual or skipped Event-series occurrence.
#[derive(Clone, Debug)]
pub struct ProjectEventSeriesOccurrenceDetailPageTemplate {
    pub project_id: String,
    pub name: String,
    pub is_skipped: bool,
    pub view: String,
    /// The detail dialog, opened at once on a direct load.
    pub dialog: String,
    pub child_create_url: String,
    pub edit_url: String,
    pub nav_html: String,
}

#[derive(Clone, Debug)]
pub struct ProjectEventSeriesOccurrenceEditPageTemplate {
    pub name: String,
    pub fields: String,
    pub nav_html: String,
}

#[derive(Clone, Debug)]
pub struct ProjectEventRowsFragmentTemplate {
    pub rows: Vec<String>,
    pub empty_message: String,
}

#[derive(Clone, Debug)]
pub struct ProjectEventsListPageTemplate {
    pub project_id: String,
    pub rows: Vec<String>,
    pub is_admin: bool,
    pub nav_html: String,
}

#[derive(Clone, Debug)]
pub struct NewProjectEventPageTemplate {
    pub project_id: String,
    pub blank_event_type_input: String,
    pub blank_scheduled_date_input: String,
    pub blank_scheduled_time_input: String,
    pub blank_scheduled_end_date_input: String,
    pub blank_scheduled_end_time_input: String,
    pub nav_html: String,
}

/// The read-only detail dialog of an event, around its rendered view.
#[derive(Clone, Debug)]
pub struct ProjectEventDetailDialog {
    pub name: String,
    pub is_imported: bool,
    pub view: String,
    pub edit_url: String,
    pub full_page_url: String,
}

impl ProjectEventDetailDialog {
    pub fn new(id: &str, project_id: &str, name: &str, is_imported: bool, view: String) -> (r: Self)
        ensures
            r.name@ == name@,
            r.is_imported == is_imported,
            r.view@ == view@,
            r.edit_url@ == event_url_spec(project_id@, id@) + "/edit"@,
            r.full_page_url@ == event_url_spec(project_id@, id@),
    {
        Self {
            name: String::from_str(name),
            is_imported,
            view,
            edit_url: project_event_url(project_id, id).concat("/edit"),
            full_page_url: project_event_url(project_id, id),
        }
    }
}

#[derive(Clone, Debug)]
pub struct ProjectEventDetailPageTemplate {
    pub id: String,
    pub project_id: String,
    pub name: String,
    pub view: String,
    /// The detail dialog, opened at once on a direct load.
    pub dialog: String,
    pub nav_html: String,
    /// An imported event offers no Edit link.
    pub is_imported: bool,
}

#[derive(Clone, Debug)]
pub struct ProjectEventEditPageTemplate {
    pub name: String,
    pub fields: String,
    pub nav_html: String,
}

} // verus!
