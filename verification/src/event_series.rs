//! Event series: the create form and its parameters, and the series list rows.
use vstd::prelude::*;
use crate::dates::{label_spec, local_label};
use crate::domain::{ItemKind, ItemSeries, ts_ok, opt_view, clone_opt, copy_str};
use crate::event_forms::{non_empty, non_empty_spec, combine_local_to_utc, combine_spec, START_OF_DAY};
use crate::item_series::CreateItemSeriesParams;
use crate::text::{trim, trim_spec};
use crate::web::ItemError;

verus! {

/// The Event series create form.
#[derive(Debug, Clone)]
pub struct CreateEventSeriesForm {
    pub name: String,
    pub description: Option<String>,
    pub event_type: Option<String>,
    pub recurrence: String,
    pub anchor_date: String,
    pub anchor_time: Option<String>,
}

/// The create parameters of an Event series: a bare anchor date means the start of the day;
/// the form is refused when the anchor does not parse. None of the Task-only fields is set.
pub fn create_event_series_params(project_id: &str, form: &CreateEventSeriesForm, tz: i32) -> (r: Result<CreateItemSeriesParams, ItemError>)
    ensures
        ({
            let anchor = combine_spec(trim_spec(form.anchor_date@), opt_view(form.anchor_time), tz as int, START_OF_DAY as int);
            match r {
                Ok(p) => {
                    &&& anchor == Some(p.anchor_date)
                    &&& p.project_id@ == project_id@
                    &&& p.name@ == trim_spec(form.name@)
                    &&& opt_view(p.description) == non_empty_spec(opt_view(form.description))
                    &&& opt_view(p.event_type) == non_empty_spec(opt_view(form.event_type))
                    &&& p.recurrence@ == trim_spec(form.recurrence@)
                    &&& p.item_type == ItemKind::Event
                    &&& p.basis is None
                    &&& p.template_item_id is None
                    &&& p.assigned_to_user_id is None
                    &&& p.rotation_user_ids is None
                    &&& p.points is None
                },
                Err(e) => anchor is None && (e matches ItemError::Invalid(m) && m@ == "anchor date is required"@),
            }
        }),
{
    let time = match &form.anchor_time {
        Some(t) => Some(t.as_str()),
        None => None,
    };
    let anchor_date = match combine_local_to_utc(trim(form.anchor_date.as_str()), time, tz, START_OF_DAY) {
        Some(a) => a,
        None => {
            return Err(ItemError::Invalid(String::from_str("anchor date is required")));
        },
    };
    Ok(CreateItemSeriesParams {
        project_id: String::from_str(project_id),
        name: String::from_str(trim(form.name.as_str())),
        description: non_empty(&form.description),
        event_type: non_empty(&form.event_type),
        recurrence: String::from_str(trim(form.recurrence.as_str())),
        anchor_date,
        item_type: ItemKind::Event,
        basis: None,
        template_item_id: None,
        assigned_to_user_id: None,
        rotation_user_ids: None,
        points: None,
    })
}

/// Builds the Event series list's rows.
pub struct ProjectEventSeriesRow;

/// One Event series in the list.
#[derive(Debug, Clone)]
pub struct Row {
    pub name: String,
    pub recurrence: String,
    pub event_type: Option<String>,
    pub anchor_date_label: String,
}

impl ProjectEventSeriesRow {
    /// The series' name, recurrence and type, and its anchor in local `%Y-%m-%d %H:%M`.
    pub fn from_series(s: &ItemSeries, tz: i32) -> (r: Row)
        requires
            ts_ok(s.anchor_date),
        ensures
            r.name@ == s.name@,
            r.recurrence@ == s.recurrence@,
            opt_view(r.event_type) == opt_view(s.event_type),
            r.anchor_date_label@ == label_spec(s.anchor_date as int, tz as int, true),
    {
        Row {
            name: copy_str(&s.name),
            recurrence: copy_str(&s.recurrence),
            event_type: clone_opt(&s.event_type),
            anchor_date_label: local_label(s.anchor_date, tz, true),
        }
    }
}

#[derive(Debug, Clone)]
pub struct ProjectEventSeriesListPageTemplate {
    pub project_id: String,
    pub rows: Vec<String>,
    pub nav_html: String,
}

#[derive(Debug, Clone)]
pub struct NewProjectEventSeriesPageTemplate {
    pub project_id: String,
    pub nav_html: String,
}

} // verus!
