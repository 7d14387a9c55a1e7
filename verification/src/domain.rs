//! The domain values the web screens read: items, projects, series and their
//! occurrences. Instants are UTC Unix timestamps in seconds.
use vstd::prelude::*;
use crate::text::{i64_to_string, int_to_dec};

verus! {

/// The largest instant (in seconds either side of the Unix epoch) an item may carry.
pub const TS_LIMIT: i64 = 7_900_000_000_000;

/// Whether `t` is an instant the calendar code can hold.
pub open spec fn ts_ok(t: i64) -> bool {
    -TS_LIMIT <= t <= TS_LIMIT
}

pub open spec fn opt_ts_ok(t: Option<i64>) -> bool {
    match t {
        Some(v) => ts_ok(v),
        None => true,
    }
}

/// The view of an optional string.
pub open spec fn opt_view(o: Option<String>) -> Option<Seq<char>> {
    match o {
        Some(s) => Some(s@),
        None => None,
    }
}

#[derive(Clone, Copy, Debug, PartialEq, Eq, Structural)]
pub enum ItemKind {
    Task,
    Event,
    Simple,
    Template,
}

/// A task, event, simple-list entry or template.
#[derive(Clone, Debug)]
pub struct Item {
    pub id: String,
    pub name: String,
    pub description: Option<String>,
    pub kind: ItemKind,
    pub complete: bool,
    pub due_date: Option<i64>,
    pub scheduled_date: Option<i64>,
    pub scheduled_end_date: Option<i64>,
    pub has_due_time: bool,
    pub has_scheduled_time: bool,
    pub has_end_time: bool,
    pub assigned_to_user_id: Option<String>,
    pub priority: Option<i32>,
    pub series_id: Option<String>,
    pub parent_item_id: Option<String>,
    pub has_children: bool,
    pub event_type: Option<String>,
    pub google_event_id: Option<String>,
    /// A task's due date, in days relative to the event or parent it hangs off.
    pub due_offset_days: Option<i32>,
    /// The Event a task references.
    pub source_event_id: Option<String>,
    /// A team task's points.
    pub points: Option<i32>,
}

impl Item {
    /// All of the item's instants lie in the range the calendar code can hold.
    pub open spec fn dates_ok(&self) -> bool {
        opt_ts_ok(self.due_date) && opt_ts_ok(self.scheduled_date) && opt_ts_ok(
            self.scheduled_end_date,
        )
    }

    /// An item is overdue once its due date has passed.
    pub open spec fn overdue_at(&self, now: i64) -> bool {
        match self.due_date {
            Some(d) => d < now,
            None => false,
        }
    }

    pub fn is_overdue(&self, now: i64) -> (r: bool)
        ensures
            r == self.overdue_at(now),
    {
        match self.due_date {
            Some(d) => d < now,
            None => false,
        }
    }
}

/// Where a series occurrence stands.
#[derive(Clone, Debug)]
pub enum OccurrenceState {
    Virtual,
    Skipped,
    Materialized { item_id: String },
}

/// One occurrence of a recurring series within a project, real or still virtual.
#[derive(Clone, Debug)]
pub struct ProjectOccurrence {
    pub series_id: String,
    pub series_name: String,
    pub item_type: ItemKind,
    pub event_type: Option<String>,
    pub occurrence_date: i64,
    pub is_current: bool,
    pub assigned_to_user_id: Option<String>,
    pub assigned_to_user_name: Option<String>,
    pub state: OccurrenceState,
    pub is_due_date_basis: bool,
    pub priority: Option<i32>,
}

/// `/web/projects/{project_id}/series/{series_id}/occurrences/{ts}`: the occurrence's own
/// page, and (by POST) the route that materializes it.
pub open spec fn occurrence_base_url(project_id: Seq<char>, series_id: Seq<char>, ts: i64) -> Seq<char> {
    "/web/projects/"@ + project_id + "/series/"@ + series_id + "/occurrences/"@ + int_to_dec(ts as int)
}

pub fn occurrence_url(project_id: &str, series_id: &str, ts: i64) -> (r: String)
    ensures
        r@ == occurrence_base_url(project_id@, series_id@, ts),
{
    let n = i64_to_string(ts);
    String::from_str("/web/projects/").concat(project_id).concat("/series/").concat(series_id).concat(
        "/occurrences/",
    ).concat(n.as_str())
}

impl ProjectOccurrence {
    /// Materializes the occurrence (by POST).
    pub fn materialize_url(&self, project_id: &str) -> (r: String)
        ensures
            r@ == occurrence_base_url(project_id@, self.series_id@, self.occurrence_date),
    {
        occurrence_url(project_id, self.series_id.as_str(), self.occurrence_date)
    }

    /// Skips the occurrence.
    pub fn skip_url(&self, project_id: &str) -> (r: String)
        ensures
            r@ == occurrence_base_url(project_id@, self.series_id@, self.occurrence_date) + "/skip"@,
    {
        occurrence_url(project_id, self.series_id.as_str(), self.occurrence_date).concat("/skip")
    }

    /// Restores a skipped occurrence.
    pub fn unskip_url(&self, project_id: &str) -> (r: String)
        ensures
            r@ == occurrence_base_url(project_id@, self.series_id@, self.occurrence_date) + "/unskip"@,
    {
        occurrence_url(project_id, self.series_id.as_str(), self.occurrence_date).concat("/unskip")
    }

    pub open spec fn skipped(&self) -> bool {
        self.state is Skipped
    }

    pub fn is_skipped(&self) -> (r: bool)
        ensures
            r == self.skipped(),
    {
        match self.state {
            OccurrenceState::Skipped => true,
            _ => false,
        }
    }

    pub open spec fn materialized(&self) -> bool {
        self.state is Materialized
    }

    pub fn is_materialized(&self) -> (r: bool)
        ensures
            r == self.materialized(),
    {
        match self.state {
            OccurrenceState::Materialized { .. } => true,
            _ => false,
        }
    }
}

/// A project, personal or backed by a team.
#[derive(Clone, Debug)]
pub struct Project {
    pub id: String,
    pub name: String,
    pub team_id: Option<String>,
}

/// A recurring series definition.
#[derive(Clone, Debug)]
pub struct ItemSeries {
    pub id: String,
    pub project_id: String,
    pub name: String,
    pub description: Option<String>,
    pub event_type: Option<String>,
    pub recurrence: String,
    pub anchor_date: i64,
    pub item_type: ItemKind,
    pub cursor_date: Option<i64>,
    pub basis: Option<String>,
    pub points: Option<i32>,
    pub priority: Option<i32>,
}

impl ItemSeries {
    /// A due-date-basis series (`basis` is `"DUE_DATE"`) dates its occurrences by due date;
    /// every other basis by scheduled date.
    pub open spec fn due_date_basis(&self) -> bool {
        opt_view(self.basis) == Some("DUE_DATE"@)
    }

    pub fn is_due_date_basis(&self) -> (r: bool)
        ensures
            r == self.due_date_basis(),
    {
        opt_str_is(&self.basis, "DUE_DATE")
    }
}

/// A sub-item definition authored on a series.
#[derive(Clone, Debug)]
pub struct ItemSeriesChild {
    pub id: String,
    pub name: String,
    pub description: Option<String>,
    pub days_before: i32,
    pub priority: Option<i32>,
}

/// Whether the optional string `o` holds exactly `s`.
pub fn opt_str_is(o: &Option<String>, s: &str) -> (r: bool)
    ensures
        r == (opt_view(*o) == Some(s@)),
{
    match o {
        Some(v) => crate::text::str_eq(v.as_str(), s),
        None => false,
    }
}

/// A copy of an optional string.
pub fn clone_opt(o: &Option<String>) -> (r: Option<String>)
    ensures
        opt_view(r) == opt_view(*o),
{
    match o {
        Some(v) => Some(String::from_str(v.as_str())),
        None => None,
    }
}

/// A copy of a string.
pub fn copy_str(s: &String) -> (r: String)
    ensures
        r@ == s@,
{
    String::from_str(s.as_str())
}

} // verus!
