//! The Events create/edit form and how it becomes the parameters of a create or update:
//! blank fields clear, absent fields keep the stored value, local dates become UTC.
use vstd::prelude::*;
use crate::dates::{MIN_DAY, MAX_DAY, UNIX_EPOCH_DAY, SECS_PER_DAY};
use crate::domain::{Item, ItemKind, opt_view, copy_str};
use crate::text::{trim, trim_spec, str_is_empty};
use chrono::{Datelike, NaiveDate, NaiveTime, Timelike};

verus! {

/// The fields an Event form may submit; every field is optional.
#[derive(Debug, Default, Clone)]
pub struct ProjectEventForm {
    pub name: Option<String>,
    pub description: Option<String>,
    pub scheduled_date: Option<String>,
    pub scheduled_time: Option<String>,
    pub scheduled_end_date: Option<String>,
    pub scheduled_end_time: Option<String>,
    pub due_date: Option<String>,
    pub due_time: Option<String>,
    pub event_type: Option<String>,
    /// Where to send the browser after a full-page save.
    pub redirect: Option<String>,
}

/// The "add a linked task" form of an event: the task's name and how many days before the
/// event it falls due.
#[derive(Debug, Default, Clone)]
pub struct ProjectEventChildForm {
    pub name: String,
    pub due_offset_days: Option<String>,
}

/// The same form on a still-virtual Event-series occurrence.
#[derive(Debug, Default, Clone)]
pub struct ProjectEventSeriesOccurrenceChildForm {
    pub name: String,
    pub due_offset_days: Option<String>,
}

/// The month the Events calendar shows.
#[derive(Debug, Default, Clone)]
pub struct CalendarQuery {
    pub year: Option<i32>,
    pub month: Option<u32>,
}

/// What creating an item in a project takes.
#[derive(Debug, Clone)]
pub struct CreateProjectItemParams {
    pub project_id: String,
    pub name: String,
    pub description: Option<String>,
    pub due_date: Option<i64>,
    pub scheduled_date: Option<i64>,
    pub scheduled_end_date: Option<i64>,
    pub complete: Option<bool>,
    pub has_due_time: Option<bool>,
    pub has_scheduled_time: Option<bool>,
    pub has_end_time: Option<bool>,
    pub parent_item_id: Option<String>,
    pub item_type: Option<ItemKind>,
    pub event_type: Option<String>,
    pub due_offset_days: Option<i32>,
    pub assigned_to_user_id: Option<String>,
    pub source_event_id: Option<String>,
    pub timezone_offset_minutes: Option<i32>,
    pub points: Option<i32>,
    pub series_id: Option<String>,
}

/// What updating an item in a project takes.
#[derive(Debug, Clone)]
pub struct UpdateProjectItemParams {
    pub project_id: String,
    pub item_id: String,
    pub name: String,
    pub description: Option<String>,
    pub due_date: Option<i64>,
    pub scheduled_date: Option<i64>,
    pub scheduled_end_date: Option<i64>,
    pub complete: bool,
    pub has_due_time: Option<bool>,
    pub has_scheduled_time: Option<bool>,
    pub has_end_time: Option<bool>,
    pub parent_item_id: Option<String>,
    pub item_type: Option<ItemKind>,
    pub event_type: Option<String>,
    pub due_offset_days: Option<i32>,
    pub assigned_to_user_id: Option<String>,
    pub source_event_id: Option<String>,
    pub timezone_offset_minutes: Option<i32>,
    pub points: Option<i32>,
    pub priority: Option<i32>,
    /// The item's full dependency set; `None` leaves it as it is.
    pub depends_on_item_ids: Option<Vec<String>>,
}

// ---- chrono -------------------------------------------------------------------

/// The day number (counted as `num_days_from_ce`) of the date chrono reads from `s` with
/// the format `%Y-%m-%d`.
pub uninterp spec fn parsed_ymd(s: Seq<char>) -> Option<i32>;

/// The (hour, minute) of the time chrono reads from `s` with the format `%H:%M`.
pub uninterp spec fn parsed_hm(s: Seq<char>) -> Option<(u32, u32)>;

/// `NaiveDate::parse_from_str(s, "%Y-%m-%d")`, then `num_days_from_ce`; a parsed date lies
/// within chrono's date range.
#[verifier::external_body]
pub(crate) fn parse_ymd(s: &str) -> (r: Option<i32>)
    ensures
        r == parsed_ymd(s@),
        r matches Some(n) ==> MIN_DAY <= n <= MAX_DAY,
{
    match NaiveDate::parse_from_str(s, "%Y-%m-%d") {
        Ok(d) => Some(d.num_days_from_ce()),
        Err(_) => None,
    }
}

/// `NaiveTime::parse_from_str(s, "%H:%M")`, then its hour and minute.
#[verifier::external_body]
fn parse_hm(s: &str) -> (r: Option<(u32, u32)>)
    ensures
        r == parsed_hm(s@),
        r matches Some((h, m)) ==> h < 24 && m < 60,
{
    match NaiveTime::parse_from_str(s, "%H:%M") {
        Ok(t) => Some((t.hour(), t.minute())),
        Err(_) => None,
    }
}

// ---- the overlay rules --------------------------------------------------------

/// The trimmed value, when it is not blank.
pub open spec fn non_empty_spec(v: Option<Seq<char>>) -> Option<Seq<char>> {
    match v {
        Some(s) => if trim_spec(s).len() > 0 {
            Some(trim_spec(s))
        } else {
            None
        },
        None => None,
    }
}

pub fn non_empty(v: &Option<String>) -> (r: Option<String>)
    ensures
        opt_view(r) == non_empty_spec(opt_view(*v)),
{
    match v {
        Some(s) => {
            let t = trim(s.as_str());
            if str_is_empty(t) {
                None
            } else {
                Some(String::from_str(t))
            }
        },
        None => None,
    }
}

/// An optional field: absent keeps `current`, blank clears, else the trimmed value.
pub open spec fn overlay_str_spec(form: Option<Seq<char>>, current: Option<Seq<char>>) -> Option<Seq<char>> {
    match form {
        None => current,
        Some(s) => if trim_spec(s).len() == 0 {
            None
        } else {
            Some(trim_spec(s))
        },
    }
}

pub fn overlay_str(form_value: &Option<String>, current: Option<String>) -> (r: Option<String>)
    ensures
        opt_view(r) == overlay_str_spec(opt_view(*form_value), opt_view(current)),
{
    match form_value {
        None => current,
        Some(s) => {
            let t = trim(s.as_str());
            if str_is_empty(t) {
                None
            } else {
                Some(String::from_str(t))
            }
        },
    }
}

/// A required field: only a non-blank value replaces `current`.
pub open spec fn overlay_required_spec(form: Option<Seq<char>>, current: Seq<char>) -> Seq<char> {
    match form {
        Some(s) => if trim_spec(s).len() > 0 {
            trim_spec(s)
        } else {
            current
        },
        None => current,
    }
}

pub fn overlay_required_str(form_value: &Option<String>, current: &str) -> (r: String)
    ensures
        r@ == overlay_required_spec(opt_view(*form_value), current@),
{
    match form_value {
        Some(s) => {
            let t = trim(s.as_str());
            if str_is_empty(t) {
                String::from_str(current)
            } else {
                String::from_str(t)
            }
        },
        None => String::from_str(current),
    }
}

/// Whether a date carries a time of day: a submitted time field decides (non-blank means
/// yes); an absent one keeps `current`.
pub open spec fn overlay_has_time_spec(form_time: Option<Seq<char>>, current: bool) -> bool {
    match form_time {
        None => current,
        Some(s) => trim_spec(s).len() > 0,
    }
}

pub fn overlay_has_due_time(form_time: &Option<String>, current: bool) -> (r: bool)
    ensures
        r == overlay_has_time_spec(opt_view(*form_time), current),
{
    match form_time {
        None => current,
        Some(s) => !str_is_empty(trim(s.as_str())),
    }
}

/// A time field as submitted on a create: whether it is non-blank, when present.
pub open spec fn has_time_spec(form_time: Option<Seq<char>>) -> Option<bool> {
    match form_time {
        Some(s) => Some(trim_spec(s).len() > 0),
        None => None,
    }
}

fn has_time(form_time: &Option<String>) -> (r: Option<bool>)
    ensures
        r == has_time_spec(opt_view(*form_time)),
{
    match form_time {
        Some(s) => Some(!str_is_empty(trim(s.as_str()))),
        None => None,
    }
}

/// 23:59:59, the time a bare due or end date stands for.
pub const END_OF_DAY: i64 = 86_399;

/// 00:00:00, the time a bare scheduled date stands for.
pub const START_OF_DAY: i64 = 0;

/// The seconds into the day a time field names: its trimmed `%H:%M` when it is present,
/// not blank and parses, else `default_secs`.
pub open spec fn time_of_day_spec(time: Option<Seq<char>>, default_secs: int) -> int {
    match time {
        Some(t) => if trim_spec(t).len() > 0 {
            match parsed_hm(trim_spec(t)) {
                Some((h, m)) => h * 3600 + m * 60,
                None => default_secs,
            }
        } else {
            default_secs
        },
        None => default_secs,
    }
}

/// The UTC instant of a local date and time: `local + offset = utc`.
pub open spec fn combine_spec(date: Seq<char>, time: Option<Seq<char>>, tz: int, default_secs: int) -> Option<i64> {
    match parsed_ymd(date) {
        Some(day) => Some(
            ((day - UNIX_EPOCH_DAY) * SECS_PER_DAY + time_of_day_spec(time, default_secs) + tz * 60) as i64,
        ),
        None => None,
    }
}

/// Reads a local date (`%Y-%m-%d`) and optional time (`%H:%M`, else `default_secs` into
/// the day) and gives the UTC instant they denote; `None` when the date does not parse.
pub fn combine_local_to_utc(date: &str, time: Option<&str>, tz_offset_minutes: i32, default_secs: i64) -> (r: Option<i64>)
    requires
        0 <= default_secs < SECS_PER_DAY,
    ensures
        r == combine_spec(date@, crate::web::opt_str(time), tz_offset_minutes as int, default_secs as int),
{
    let day = match parse_ymd(date) {
        Some(d) => d,
        None => {
            return None;
        },
    };
    let secs: i64 = match time {
        Some(t) => {
            let tt = trim(t);
            if str_is_empty(tt) {
                default_secs
            } else {
                match parse_hm(tt) {
                    Some((h, m)) => (h as i64) * 3600 + (m as i64) * 60,
                    None => default_secs,
                }
            }
        },
        None => default_secs,
    };
    let days_since_epoch: i64 = (day as i64) - UNIX_EPOCH_DAY;
    assert(-200_000_000 <= days_since_epoch <= 200_000_000);
    let base: i64 = days_since_epoch * SECS_PER_DAY;
    Some(base + secs + (tz_offset_minutes as i64) * 60)
}

/// A date field: absent keeps `current`, blank clears, else the date (with its time field)
/// read in local time.
pub open spec fn overlay_date_spec(
    form_date: Option<Seq<char>>,
    form_time: Option<Seq<char>>,
    tz: int,
    current: Option<i64>,
    default_secs: int,
) -> Option<i64> {
    match form_date {
        None => current,
        Some(s) => if trim_spec(s).len() == 0 {
            None
        } else {
            combine_spec(trim_spec(s), form_time, tz, default_secs)
        },
    }
}

fn overlay_date(
    form_date: &Option<String>,
    form_time: &Option<String>,
    tz_offset_minutes: i32,
    current: Option<i64>,
    default_secs: i64,
) -> (r: Option<i64>)
    requires
        0 <= default_secs < SECS_PER_DAY,
    ensures
        r == overlay_date_spec(opt_view(*form_date), opt_view(*form_time), tz_offset_minutes as int, current, default_secs as int),
{
    match form_date {
        None => current,
        Some(s) => {
            let t = trim(s.as_str());
            if str_is_empty(t) {
                None
            } else {
                let time = match form_time {
                    Some(x) => Some(x.as_str()),
                    None => None,
                };
                combine_local_to_utc(t, time, tz_offset_minutes, default_secs)
            }
        },
    }
}

/// A due date; a bare date means the end of that day.
pub fn overlay_due_date(form_date: &Option<String>, form_time: &Option<String>, tz_offset_minutes: i32, current: Option<i64>) -> (r: Option<i64>)
    ensures
        r == overlay_date_spec(opt_view(*form_date), opt_view(*form_time), tz_offset_minutes as int, current, END_OF_DAY as int),
{
    overlay_date(form_date, form_time, tz_offset_minutes, current, END_OF_DAY)
}

/// A scheduled start; a bare date means the start of that day.
pub fn overlay_scheduled_date(form_date: &Option<String>, form_time: &Option<String>, tz_offset_minutes: i32, current: Option<i64>) -> (r: Option<i64>)
    ensures
        r == overlay_date_spec(opt_view(*form_date), opt_view(*form_time), tz_offset_minutes as int, current, START_OF_DAY as int),
{
    overlay_date(form_date, form_time, tz_offset_minutes, current, START_OF_DAY)
}

/// A scheduled end; a bare date means the end of that day.
pub fn overlay_scheduled_end_date(form_date: &Option<String>, form_time: &Option<String>, tz_offset_minutes: i32, current: Option<i64>) -> (r: Option<i64>)
    ensures
        r == overlay_date_spec(opt_view(*form_date), opt_view(*form_time), tz_offset_minutes as int, current, END_OF_DAY as int),
{
    overlay_date(form_date, form_time, tz_offset_minutes, current, END_OF_DAY)
}

/// The create parameters of a new Event: the form read onto nothing. An Event is never a
/// child, never completed, never assigned and carries no points.
pub fn create_params_from_form(project_id: &str, form: &ProjectEventForm, tz: i32) -> (r: CreateProjectItemParams)
    ensures
        r.project_id@ == project_id@,
        r.name@ == (match form.name {
            Some(n) => n@,
            None => Seq::<char>::empty(),
        }),
        opt_view(r.description) == non_empty_spec(opt_view(form.description)),
        r.due_date == overlay_date_spec(opt_view(form.due_date), opt_view(form.due_time), tz as int, None, END_OF_DAY as int),
        r.scheduled_date == overlay_date_spec(opt_view(form.scheduled_date), opt_view(form.scheduled_time), tz as int, None, START_OF_DAY as int),
        r.scheduled_end_date == overlay_date_spec(opt_view(form.scheduled_end_date), opt_view(form.scheduled_end_time), tz as int, None, END_OF_DAY as int),
        r.complete is None,
        r.has_due_time == has_time_spec(opt_view(form.due_time)),
        r.has_scheduled_time == has_time_spec(opt_view(form.scheduled_time)),
        r.has_end_time == has_time_spec(opt_view(form.scheduled_end_time)),
        r.parent_item_id is None,
        r.item_type == Some(ItemKind::Event),
        opt_view(r.event_type) == non_empty_spec(opt_view(form.event_type)),
        r.due_offset_days is None,
        r.assigned_to_user_id is None,
        r.source_event_id is None,
        r.timezone_offset_minutes == Some(tz),
        r.points is None,
        r.series_id is None,
{
    CreateProjectItemParams {
        project_id: String::from_str(project_id),
        name: match &form.name {
            Some(n) => copy_str(n),
            None => String::new(),
        },
        description: non_empty(&form.description),
        due_date: overlay_due_date(&form.due_date, &form.due_time, tz, None),
        scheduled_date: overlay_scheduled_date(&form.scheduled_date, &form.scheduled_time, tz, None),
        scheduled_end_date: overlay_scheduled_end_date(&form.scheduled_end_date, &form.scheduled_end_time, tz, None),
        complete: None,
        has_due_time: has_time(&form.due_time),
        has_scheduled_time: has_time(&form.scheduled_time),
        has_end_time: has_time(&form.scheduled_end_time),
        parent_item_id: None,
        item_type: Some(ItemKind::Event),
        event_type: non_empty(&form.event_type),
        due_offset_days: None,
        assigned_to_user_id: None,
        source_event_id: None,
        timezone_offset_minutes: Some(tz),
        points: None,
        series_id: None,
    }
}

/// The update parameters of an edit: the form read onto the stored event `current`.
pub fn update_params_from_form(
    project_id: &str,
    item_id: &str,
    current: &Item,
    form: &ProjectEventForm,
    tz: i32,
) -> (r: UpdateProjectItemParams)
    ensures
        r.project_id@ == project_id@,
        r.item_id@ == item_id@,
        r.name@ == overlay_required_spec(opt_view(form.name), current.name@),
        opt_view(r.description) == overlay_str_spec(opt_view(form.description), opt_view(current.description)),
        r.due_date == overlay_date_spec(opt_view(form.due_date), opt_view(form.due_time), tz as int, current.due_date, END_OF_DAY as int),
        r.scheduled_date == overlay_date_spec(opt_view(form.scheduled_date), opt_view(form.scheduled_time), tz as int, current.scheduled_date, START_OF_DAY as int),
        r.scheduled_end_date == overlay_date_spec(opt_view(form.scheduled_end_date), opt_view(form.scheduled_end_time), tz as int, current.scheduled_end_date, END_OF_DAY as int),
        !r.complete,
        r.has_due_time == Some(overlay_has_time_spec(opt_view(form.due_time), current.has_due_time)),
        r.has_scheduled_time == Some(overlay_has_time_spec(opt_view(form.scheduled_time), current.has_scheduled_time)),
        r.has_end_time == Some(overlay_has_time_spec(opt_view(form.scheduled_end_time), current.has_end_time)),
        r.parent_item_id is None,
        r.item_type == Some(ItemKind::Event),
        opt_view(r.event_type) == overlay_str_spec(opt_view(form.event_type), opt_view(current.event_type)),
        r.due_offset_days is None,
        r.assigned_to_user_id is None,
        r.source_event_id is None,
        r.timezone_offset_minutes == Some(tz),
        r.points is None,
        r.priority is None,
        r.depends_on_item_ids is None,
{
    UpdateProjectItemParams {
        project_id: String::from_str(project_id),
        item_id: String::from_str(item_id),
        name: overlay_required_str(&form.name, current.name.as_str()),
        description: overlay_str(&form.description, crate::domain::clone_opt(&current.description)),
        due_date: overlay_due_date(&form.due_date, &form.due_time, tz, current.due_date),
        scheduled_date: overlay_scheduled_date(&form.scheduled_date, &form.scheduled_time, tz, current.scheduled_date),
        scheduled_end_date: overlay_scheduled_end_date(
            &form.scheduled_end_date,
            &form.scheduled_end_time,
            tz,
            current.scheduled_end_date,
        ),
        complete: false,
        has_due_time: Some(overlay_has_due_time(&form.due_time, current.has_due_time)),
        has_scheduled_time: Some(overlay_has_due_time(&form.scheduled_time, current.has_scheduled_time)),
        has_end_time: Some(overlay_has_due_time(&form.scheduled_end_time, current.has_end_time)),
        parent_item_id: None,
        item_type: Some(ItemKind::Event),
        event_type: overlay_str(&form.event_type, crate::domain::clone_opt(&current.event_type)),
        due_offset_days: None,
        assigned_to_user_id: None,
        source_event_id: None,
        timezone_offset_minutes: Some(tz),
        points: None,
        priority: None,
        depends_on_item_ids: None,
    }
}

/// Submitting a form with every field absent changes nothing the form can carry.
pub proof fn lemma_absent_fields_keep_current(current: Item, tz: int)
    ensures
        overlay_required_spec(None, current.name@) == current.name@,
        overlay_str_spec(None, opt_view(current.description)) == opt_view(current.description),
        overlay_date_spec(None, None, tz, current.due_date, END_OF_DAY as int) == current.due_date,
        overlay_date_spec(None, None, tz, current.scheduled_date, START_OF_DAY as int) == current.scheduled_date,
        overlay_date_spec(None, None, tz, current.scheduled_end_date, END_OF_DAY as int) == current.scheduled_end_date,
        overlay_has_time_spec(None, current.has_due_time) == current.has_due_time,
        overlay_str_spec(None, opt_view(current.event_type)) == opt_view(current.event_type),
{
}

/// A blank field clears what it overlays, whatever was stored.
pub proof fn lemma_blank_clears(blank: Seq<char>, current: Option<Seq<char>>, when: Option<i64>, time: Option<Seq<char>>, tz: int, default_secs: int)
    requires
        trim_spec(blank).len() == 0,
    ensures
        overlay_str_spec(Some(blank), current) is None,
        overlay_date_spec(Some(blank), time, tz, when, default_secs) is None,
        !overlay_has_time_spec(Some(blank), true),
{
}

} // verus!
