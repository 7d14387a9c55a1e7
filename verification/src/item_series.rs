//! Recurring series: the create/edit form and how it becomes create parameters, the
//! series list rows, and the sub-item definitions panel.
use vstd::prelude::*;
use crate::dates::{display_date_spec, format_display_date, to_local, to_local_spec};
use crate::domain::{ItemKind, ItemSeries, ItemSeriesChild, opt_view, copy_str, opt_str_is, clone_opt, ts_ok};
use crate::event_forms::{
    non_empty, non_empty_spec, combine_local_to_utc, combine_spec, END_OF_DAY, START_OF_DAY,
};
use crate::text::{
    trim, trim_spec, str_eq, str_is_empty, split_char, split_spec, strings_view, parse_i32,
    parse_i32_spec,
};
use crate::web::ItemError;

verus! {

/// The series create/edit form.
#[derive(Debug, Clone)]
pub struct CreateItemSeriesForm {
    pub name: String,
    pub description: Option<String>,
    /// `"TASK"` or `"EVENT"`.
    pub item_type: String,
    pub event_type: Option<String>,
    pub recurrence: String,
    pub anchor_date: String,
    pub anchor_time: Option<String>,
    /// `""` (by schedule), `"COMPLETION"` or `"DUE_DATE"`.
    pub basis: Option<String>,
    pub template_item_id: Option<String>,
    pub assigned_to_user_id: Option<String>,
    /// `"rotate"` selects the rotation group; anything else is a fixed assignee.
    pub assignment_mode: Option<String>,
    /// The rotation's member ids, comma-joined.
    pub rotation_user_ids: Option<String>,
    pub points: Option<String>,
}

/// What creating a series takes.
#[derive(Debug, Clone)]
pub struct CreateItemSeriesParams {
    pub project_id: String,
    pub name: String,
    pub description: Option<String>,
    pub event_type: Option<String>,
    pub recurrence: String,
    pub anchor_date: i64,
    pub item_type: ItemKind,
    pub basis: Option<String>,
    pub template_item_id: Option<String>,
    pub assigned_to_user_id: Option<String>,
    pub rotation_user_ids: Option<Vec<String>>,
    pub points: Option<i32>,
}

/// The trimmed, non-blank pieces, in order.
pub open spec fn trimmed_nonblank(parts: Seq<Seq<char>>) -> Seq<Seq<char>>
    decreases parts.len(),
{
    if parts.len() == 0 {
        Seq::empty()
    } else {
        let init = trimmed_nonblank(parts.drop_last());
        if trim_spec(parts.last()).len() > 0 {
            init.push(trim_spec(parts.last()))
        } else {
            init
        }
    }
}

/// The form's assignment: on "rotate", no fixed assignee and the rotation's ids (split at
/// commas, trimmed, blanks dropped; none submitted reads as none listed); otherwise the
/// fixed assignee, if not blank, and no rotation.
pub open spec fn assignment_spec(
    mode: Option<Seq<char>>,
    rotation: Option<Seq<char>>,
    assigned: Option<Seq<char>>,
) -> (Option<Seq<char>>, Option<Seq<Seq<char>>>) {
    if mode == Some("rotate"@) {
        let raw = match rotation {
            Some(r) => r,
            None => Seq::empty(),
        };
        (None, Some(trimmed_nonblank(split_spec(raw, ','))))
    } else {
        (non_empty_spec(assigned), None)
    }
}

pub open spec fn opt_strings_view(o: Option<Vec<String>>) -> Option<Seq<Seq<char>>> {
    match o {
        Some(v) => Some(strings_view(v@)),
        None => None,
    }
}

fn trim_all(parts: &Vec<String>) -> (r: Vec<String>)
    ensures
        strings_view(r@) == trimmed_nonblank(strings_view(parts@)),
{
    let mut out: Vec<String> = Vec::new();
    let mut i: usize = 0;
    while i < parts.len()
        invariant
            i <= parts@.len(),
            strings_view(out@) == trimmed_nonblank(strings_view(parts@.take(i as int))),
        decreases parts@.len() - i,
    {
        let ghost before = out@;
        assert(strings_view(parts@.take(i + 1)).drop_last() =~= strings_view(parts@.take(i as int)));
        assert(strings_view(parts@.take(i + 1)).last() == parts@[i as int]@);
        let t = trim(parts[i].as_str());
        if !str_is_empty(t) {
            out.push(String::from_str(t));
            assert(strings_view(out@) =~= strings_view(before).push(t@));
        }
        i = i + 1;
    }
    assert(parts@.take(parts@.len() as int) =~= parts@);
    out
}

/// The (fixed assignee, rotation) pair a form submits.
pub fn resolve_assignment_mode_fields(form: &CreateItemSeriesForm) -> (r: (Option<String>, Option<Vec<String>>))
    ensures
        (opt_view(r.0), opt_strings_view(r.1)) == assignment_spec(
            opt_view(form.assignment_mode),
            opt_view(form.rotation_user_ids),
            opt_view(form.assigned_to_user_id),
        ),
{
    if opt_str_is(&form.assignment_mode, "rotate") {
        let parts = match &form.rotation_user_ids {
            Some(raw) => split_char(raw.as_str(), ','),
            None => {
                proof {
                    reveal_strlit("");
                }
                split_char("", ',')
            },
        };
        let ids = trim_all(&parts);
        (None, Some(ids))
    } else {
        (non_empty(&form.assigned_to_user_id), None)
    }
}

/// `"TASK"` is a Task series and `"EVENT"` an Event series; anything else is rejected.
pub fn parse_item_type(raw: &str) -> (r: Result<ItemKind, ItemError>)
    ensures
        raw@ == "TASK"@ ==> r == Ok::<ItemKind, ItemError>(ItemKind::Task),
        raw@ == "EVENT"@ ==> r == Ok::<ItemKind, ItemError>(ItemKind::Event),
        raw@ != "TASK"@ && raw@ != "EVENT"@ ==> (r matches Err(ItemError::Invalid(m)) && m@ == "itemType must be TASK or EVENT"@),
{
    proof {
        reveal_strlit("TASK");
        reveal_strlit("EVENT");
        assert("TASK"@.len() == 4 && "EVENT"@.len() == 5);
    }
    if str_eq(raw, "TASK") {
        Ok(ItemKind::Task)
    } else if str_eq(raw, "EVENT") {
        Ok(ItemKind::Event)
    } else {
        Err(ItemError::Invalid(String::from_str("itemType must be TASK or EVENT")))
    }
}

/// A bare anchor date means the end of the day on a due-date basis (a due date), else
/// the start of the day.
pub open spec fn anchor_default_secs(basis: Option<Seq<char>>) -> int {
    if basis == Some("DUE_DATE"@) {
        END_OF_DAY as int
    } else {
        START_OF_DAY as int
    }
}

pub fn anchor_default_time(basis: &Option<String>) -> (r: i64)
    ensures
        r == anchor_default_secs(opt_view(*basis)),
{
    if opt_str_is(basis, "DUE_DATE") {
        END_OF_DAY
    } else {
        START_OF_DAY
    }
}

/// Points: the trimmed value when it is not blank and parses.
pub open spec fn points_spec(points: Option<Seq<char>>) -> Option<i32> {
    match points {
        Some(p) => if trim_spec(p).len() > 0 {
            parse_i32_spec(trim_spec(p))
        } else {
            None
        },
        None => None,
    }
}

fn parse_points(points: &Option<String>) -> (r: Option<i32>)
    ensures
        r == points_spec(opt_view(*points)),
{
    match points {
        Some(p) => {
            let t = trim(p.as_str());
            if str_is_empty(t) {
                None
            } else {
                parse_i32(t)
            }
        },
        None => None,
    }
}

/// The create parameters a series form gives: the anchor read in local time (the form is
/// refused when it does not parse) and the item type checked.
pub fn create_series_params(project_id: &str, form: &CreateItemSeriesForm, tz: i32) -> (r: Result<CreateItemSeriesParams, ItemError>)
    ensures
        ({
            let basis = non_empty_spec(opt_view(form.basis));
            let anchor = combine_spec(trim_spec(form.anchor_date@), opt_view(form.anchor_time), tz as int, anchor_default_secs(basis));
            let kind_ok = form.item_type@ == "TASK"@ || form.item_type@ == "EVENT"@;
            match r {
                Ok(p) => {
                    &&& anchor == Some(p.anchor_date)
                    &&& kind_ok
                    &&& p.item_type == (if form.item_type@ == "TASK"@ { ItemKind::Task } else { ItemKind::Event })
                    &&& p.project_id@ == project_id@
                    &&& p.name@ == trim_spec(form.name@)
                    &&& opt_view(p.description) == non_empty_spec(opt_view(form.description))
                    &&& opt_view(p.event_type) == non_empty_spec(opt_view(form.event_type))
                    &&& p.recurrence@ == trim_spec(form.recurrence@)
                    &&& opt_view(p.basis) == basis
                    &&& opt_view(p.template_item_id) == non_empty_spec(opt_view(form.template_item_id))
                    &&& (opt_view(p.assigned_to_user_id), opt_strings_view(p.rotation_user_ids)) == assignment_spec(
                        opt_view(form.assignment_mode),
                        opt_view(form.rotation_user_ids),
                        opt_view(form.assigned_to_user_id),
                    )
                    &&& p.points == points_spec(opt_view(form.points))
                },
                Err(e) => {
                    ||| (anchor is None && (e matches ItemError::Invalid(m) && m@ == "anchor date is required"@))
                    ||| (anchor is Some && !kind_ok && (e matches ItemError::Invalid(m) && m@ == "itemType must be TASK or EVENT"@))
                },
            }
        }),
        (combine_spec(
            trim_spec(form.anchor_date@),
            opt_view(form.anchor_time),
            tz as int,
            anchor_default_secs(non_empty_spec(opt_view(form.basis))),
        ) is Some && (form.item_type@ == "TASK"@ || form.item_type@ == "EVENT"@)) ==> r is Ok,
{
    let basis = non_empty(&form.basis);
    let default_secs = anchor_default_time(&basis);
    let time = match &form.anchor_time {
        Some(t) => Some(t.as_str()),
        None => None,
    };
    let anchor_date = match combine_local_to_utc(trim(form.anchor_date.as_str()), time, tz, default_secs) {
        Some(a) => a,
        None => {
            return Err(ItemError::Invalid(String::from_str("anchor date is required")));
        },
    };
    let item_type = match parse_item_type(form.item_type.as_str()) {
        Ok(k) => k,
        Err(e) => {
            return Err(e);
        },
    };
    let (assigned_to_user_id, rotation_user_ids) = resolve_assignment_mode_fields(form);
    Ok(CreateItemSeriesParams {
        project_id: String::from_str(project_id),
        name: String::from_str(trim(form.name.as_str())),
        description: non_empty(&form.description),
        event_type: non_empty(&form.event_type),
        recurrence: String::from_str(trim(form.recurrence.as_str())),
        anchor_date,
        item_type,
        basis,
        template_item_id: non_empty(&form.template_item_id),
        assigned_to_user_id,
        rotation_user_ids,
        points: parse_points(&form.points),
    })
}

/// What updating a series takes: every field of a create but the project.
#[derive(Debug, Clone)]
pub struct UpdateItemSeriesParams {
    pub name: String,
    pub description: Option<String>,
    pub event_type: Option<String>,
    pub recurrence: String,
    pub anchor_date: i64,
    pub item_type: ItemKind,
    pub basis: Option<String>,
    pub template_item_id: Option<String>,
    pub assigned_to_user_id: Option<String>,
    pub rotation_user_ids: Option<Vec<String>>,
    pub points: Option<i32>,
}

/// The update parameters an edit of a series submits: read as a create is, and refused on
/// the same inputs with the same errors.
pub fn update_series_params(form: &CreateItemSeriesForm, tz: i32) -> (r: Result<UpdateItemSeriesParams, ItemError>)
    ensures
        ({
            let created = create_series_params_spec_ok(form, tz);
            match r {
                Ok(p) => created is Some && ({
                    let c = created.unwrap();
                    &&& p.anchor_date == c.0
                    &&& p.item_type == c.1
                    &&& p.name@ == trim_spec(form.name@)
                    &&& opt_view(p.description) == non_empty_spec(opt_view(form.description))
                    &&& opt_view(p.event_type) == non_empty_spec(opt_view(form.event_type))
                    &&& p.recurrence@ == trim_spec(form.recurrence@)
                    &&& opt_view(p.basis) == non_empty_spec(opt_view(form.basis))
                    &&& opt_view(p.template_item_id) == non_empty_spec(opt_view(form.template_item_id))
                    &&& (opt_view(p.assigned_to_user_id), opt_strings_view(p.rotation_user_ids)) == assignment_spec(
                        opt_view(form.assignment_mode),
                        opt_view(form.rotation_user_ids),
                        opt_view(form.assigned_to_user_id),
                    )
                    &&& p.points == points_spec(opt_view(form.points))
                }),
                Err(e) => created is None && ({
                    let anchor = combine_spec(
                        trim_spec(form.anchor_date@),
                        opt_view(form.anchor_time),
                        tz as int,
                        anchor_default_secs(non_empty_spec(opt_view(form.basis))),
                    );
                    ||| (anchor is None && (e matches ItemError::Invalid(m) && m@ == "anchor date is required"@))
                    ||| (anchor is Some && (e matches ItemError::Invalid(m) && m@ == "itemType must be TASK or EVENT"@))
                }),
            }
        }),
{
    match create_series_params("", form, tz) {
        Ok(c) => Ok(UpdateItemSeriesParams {
            name: c.name,
            description: c.description,
            event_type: c.event_type,
            recurrence: c.recurrence,
            anchor_date: c.anchor_date,
            item_type: c.item_type,
            basis: c.basis,
            template_item_id: c.template_item_id,
            assigned_to_user_id: c.assigned_to_user_id,
            rotation_user_ids: c.rotation_user_ids,
            points: c.points,
        }),
        Err(e) => Err(e),
    }
}

/// The anchor and type a series form gives, when both read.
pub open spec fn create_series_params_spec_ok(form: &CreateItemSeriesForm, tz: i32) -> Option<(i64, ItemKind)> {
    let anchor = combine_spec(
        trim_spec(form.anchor_date@),
        opt_view(form.anchor_time),
        tz as int,
        anchor_default_secs(non_empty_spec(opt_view(form.basis))),
    );
    if anchor is Some && (form.item_type@ == "TASK"@ || form.item_type@ == "EVENT"@) {
        Some((anchor.unwrap(), if form.item_type@ == "TASK"@ { ItemKind::Task } else { ItemKind::Event }))
    } else {
        None
    }
}

/// A row action's query: the view to re-render and whether completed items show.
#[derive(Debug, Default, Clone)]
pub struct OccurrenceRowActionQuery {
    pub view: Option<String>,
    pub show_complete: Option<String>,
}

/// How a Skip or Unskip answers, by the view it came from: the flat Tasks list, the
/// all-projects Tasks and Events lists rebuild in place; every other screen reloads itself.
#[derive(Debug, Clone, Copy, PartialEq, Eq, Structural)]
pub enum OccurrenceActionResponse {
    TasksList { show_complete: bool },
    AllTasks { show_complete: bool },
    AllEvents,
    CurrentPage,
}

pub open spec fn occurrence_action_response_spec(view: Option<Seq<char>>, show_complete: bool) -> OccurrenceActionResponse {
    if view == Some("tasks-list"@) {
        OccurrenceActionResponse::TasksList { show_complete }
    } else if view == Some("all-tasks"@) {
        OccurrenceActionResponse::AllTasks { show_complete }
    } else if view == Some("all-events"@) {
        OccurrenceActionResponse::AllEvents
    } else {
        OccurrenceActionResponse::CurrentPage
    }
}

pub fn occurrence_action_response(q: &OccurrenceRowActionQuery) -> (r: OccurrenceActionResponse)
    ensures
        r == occurrence_action_response_spec(opt_view(q.view), q.show_complete is Some),
{
    let show_complete = q.show_complete.is_some();
    if opt_str_is(&q.view, "tasks-list") {
        OccurrenceActionResponse::TasksList { show_complete }
    } else if opt_str_is(&q.view, "all-tasks") {
        OccurrenceActionResponse::AllTasks { show_complete }
    } else if opt_str_is(&q.view, "all-events") {
        OccurrenceActionResponse::AllEvents
    } else {
        OccurrenceActionResponse::CurrentPage
    }
}

/// The checks before acting on an occurrence of a series: the series must belong to the
/// project in the URL (else not found), and the occurrence's timestamp must be an instant
/// chrono represents (else rejected).
pub fn check_occurrence_target(series_project_id: &str, project_id: &str, occurrence_ts: i64) -> (r: Result<i64, ItemError>)
    ensures
        series_project_id@ != project_id@ ==> r matches Err(ItemError::NotFound),
        series_project_id@ == project_id@ && crate::storage::timestamp_in_range(occurrence_ts as int) ==> r == Ok::<i64, ItemError>(occurrence_ts),
        series_project_id@ == project_id@ && !crate::storage::timestamp_in_range(occurrence_ts as int) ==> (r matches Err(ItemError::Invalid(m)) && m@ == "invalid occurrence timestamp"@),
{
    if !str_eq(series_project_id, project_id) {
        return Err(ItemError::NotFound);
    }
    if crate::storage::representable(occurrence_ts) {
        Ok(occurrence_ts)
    } else {
        Err(ItemError::Invalid(String::from_str("invalid occurrence timestamp")))
    }
}

/// Set by the edit page's Delete button, which needs a full-page redirect back.
#[derive(Debug, Default, Clone)]
pub struct DeleteSeriesQuery {
    pub redirect: Option<String>,
}

/// Builds the series list's rows.
pub struct ProjectItemSeriesRow;

/// One series in the list.
#[derive(Debug, Clone)]
pub struct Row {
    pub id: String,
    pub project_id: String,
    pub name: String,
    pub recurrence: String,
    pub event_type: Option<String>,
    pub anchor_date_label: String,
    pub item_type_label: &'static str,
    pub item_type_badge_color: &'static str,
    pub assignee_name: Option<String>,
    pub points: Option<i32>,
    pub priority: Option<i32>,
    /// How many sub-item definitions the series carries.
    pub child_count: usize,
    pub duplicate_url: Option<String>,
}

/// `/web/projects/{project_id}/series/{series_id}/duplicate`.
pub open spec fn duplicate_url_spec(project_id: Seq<char>, series_id: Seq<char>) -> Seq<char> {
    "/web/projects/"@ + project_id + "/series/"@ + series_id + "/duplicate"@
}

impl ProjectItemSeriesRow {
    /// The list row of series `s`: its anchor shown as a local date and time (the year
    /// left out when it is `this_year`), the kind's label and badge colour as given, and a
    /// Duplicate link.
    pub fn from_series(
        s: &ItemSeries,
        tz: i32,
        assignee_name: Option<String>,
        child_count: usize,
        this_year: i32,
        item_type_label: &'static str,
        item_type_badge_color: &'static str,
    ) -> (r: Row)
        requires
            ts_ok(s.anchor_date),
        ensures
            r.id@ == s.id@,
            r.project_id@ == s.project_id@,
            r.name@ == s.name@,
            r.recurrence@ == s.recurrence@,
            opt_view(r.event_type) == opt_view(s.event_type),
            r.anchor_date_label@ == display_date_spec(
                to_local_spec(s.anchor_date as int, tz as int),
                true,
                this_year as int,
            ),
            r.item_type_label@ == item_type_label@,
            r.item_type_badge_color@ == item_type_badge_color@,
            opt_view(r.assignee_name) == opt_view(assignee_name),
            r.points == s.points,
            r.priority == s.priority,
            r.child_count == child_count,
            r.duplicate_url matches Some(u) && u@ == duplicate_url_spec(s.project_id@, s.id@),
    {
        let local = to_local(s.anchor_date, tz);
        let duplicate_url = String::from_str("/web/projects/").concat(s.project_id.as_str()).concat(
            "/series/",
        ).concat(s.id.as_str()).concat("/duplicate");
        Row {
            id: copy_str(&s.id),
            project_id: copy_str(&s.project_id),
            name: copy_str(&s.name),
            recurrence: copy_str(&s.recurrence),
            event_type: clone_opt(&s.event_type),
            anchor_date_label: format_display_date(local, true, this_year),
            item_type_label,
            item_type_badge_color,
            assignee_name,
            points: s.points,
            priority: s.priority,
            child_count,
            duplicate_url: Some(duplicate_url),
        }
    }
}

/// One authored sub-item definition, every field an input.
#[derive(Debug, Clone)]
pub struct SeriesChildView {
    pub id: String,
    pub name: String,
    pub description: String,
    pub days_before: i32,
    pub priority: Option<i32>,
}

impl SeriesChildView {
    pub fn from_child(c: &ItemSeriesChild) -> (r: Self)
        ensures
            r.id@ == c.id@,
            r.name@ == c.name@,
            r.description@ == crate::project_events::or_empty(c.description),
            r.days_before == c.days_before,
            r.priority == c.priority,
    {
        Self {
            id: copy_str(&c.id),
            name: copy_str(&c.name),
            description: match &c.description {
                Some(d) => copy_str(d),
                None => String::new(),
            },
            days_before: c.days_before,
            priority: c.priority,
        }
    }
}

/// The Sub-items panel of the series edit dialog.
#[derive(Debug, Clone)]
pub struct SeriesChildrenPanelTemplate {
    pub project_id: String,
    pub series_id: String,
    pub children: Vec<SeriesChildView>,
}

#[derive(Debug, Clone)]
pub struct ProjectItemSeriesListPageTemplate {
    pub project_id: String,
    pub rows: Vec<String>,
    pub nav_html: String,
}

#[derive(Debug, Clone)]
pub struct NewProjectItemSeriesPageTemplate {
    pub project_id: String,
    pub nav_html: String,
    pub is_team_project: bool,
    /// (id, name) of the people a Task series can be assigned to.
    pub assignee_options: Vec<(String, String)>,
    pub is_team_admin: bool,
}

#[derive(Debug, Clone)]
pub struct EditProjectItemSeriesPageTemplate {
    pub project_id: String,
    pub series_id: String,
    pub nav_html: String,
    pub name: String,
    pub description: String,
    pub is_task: bool,
    pub recurrence: String,
    /// `""` (schedule), `"COMPLETION"` or `"DUE_DATE"`.
    pub basis: String,
    pub anchor_date: String,
    pub anchor_time: String,
    pub is_team_project: bool,
    pub assignee_options: Vec<(String, String)>,
    pub assigned_to_user_id: Option<String>,
    /// Whether the Fixed/Rotate toggle starts on Rotate.
    pub is_rotating: bool,
    pub rotation_user_ids: Vec<String>,
    pub is_team_admin: bool,
    pub points: Option<i32>,
    pub priority: Option<i32>,
    /// The rendered Sub-items panel.
    pub children_html: String,
}

} // verus!
