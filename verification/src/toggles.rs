//! The update a calendar or dashboard row checkbox makes.
use vstd::prelude::*;
use crate::domain::{Item, ItemKind, opt_view, opt_str_is, clone_opt};
use crate::event_forms::UpdateProjectItemParams;

verus! {

/// The update that completes (`"true"`) or reopens (anything else) `current`, every other
/// field carried over unchanged from the stored item.
pub open spec fn toggle_params_ok(
    r: UpdateProjectItemParams,
    project_id: Seq<char>,
    item_id: Seq<char>,
    current: Item,
    complete: Option<Seq<char>>,
    tz: i32,
) -> bool {
    &&& r.complete == (complete == Some("true"@))
    &&& r.project_id@ == project_id
    &&& r.item_id@ == item_id
    &&& r.name@ == current.name@
    &&& opt_view(r.description) == opt_view(current.description)
    &&& r.due_date == current.due_date
    &&& r.scheduled_date == current.scheduled_date
    &&& r.scheduled_end_date == current.scheduled_end_date
    &&& r.has_due_time == Some(current.has_due_time)
    &&& r.has_scheduled_time == Some(current.has_scheduled_time)
    &&& r.has_end_time == Some(current.has_end_time)
    &&& opt_view(r.parent_item_id) == opt_view(current.parent_item_id)
    &&& r.item_type == Some(current.kind)
    &&& opt_view(r.event_type) == opt_view(current.event_type)
    &&& r.due_offset_days == current.due_offset_days
    &&& opt_view(r.assigned_to_user_id) == opt_view(current.assigned_to_user_id)
    &&& opt_view(r.source_event_id) == opt_view(current.source_event_id)
    &&& r.timezone_offset_minutes == Some(tz)
    &&& r.points == current.points
    &&& r.priority == current.priority
    &&& r.depends_on_item_ids is None
}

/// Completes (`"true"`) or reopens (anything else) `current`, every other field carried over
/// unchanged from the stored item.
pub fn complete_toggle_params(
    project_id: &str,
    item_id: &str,
    current: &Item,
    complete: &Option<String>,
    tz: i32,
) -> (r: UpdateProjectItemParams)
    ensures
        toggle_params_ok(r, project_id@, item_id@, *current, opt_view(*complete), tz),
{
    UpdateProjectItemParams {
        project_id: String::from_str(project_id),
        item_id: String::from_str(item_id),
        name: String::from_str(current.name.as_str()),
        description: clone_opt(&current.description),
        due_date: current.due_date,
        scheduled_date: current.scheduled_date,
        scheduled_end_date: current.scheduled_end_date,
        complete: opt_str_is(complete, "true"),
        has_due_time: Some(current.has_due_time),
        has_scheduled_time: Some(current.has_scheduled_time),
        has_end_time: Some(current.has_end_time),
        parent_item_id: clone_opt(&current.parent_item_id),
        item_type: Some(current.kind),
        event_type: clone_opt(&current.event_type),
        due_offset_days: current.due_offset_days,
        assigned_to_user_id: clone_opt(&current.assigned_to_user_id),
        source_event_id: clone_opt(&current.source_event_id),
        timezone_offset_minutes: Some(tz),
        points: current.points,
        priority: current.priority,
        depends_on_item_ids: None,
    }
}

/// The cross-project Tasks screen's checkbox: only a Task can be completed there, so any
/// other item gets no update (`None`, which the caller refuses); a Task gets the toggle
/// update.
pub fn task_toggle_params(
    project_id: &str,
    item_id: &str,
    current: &Item,
    complete: &Option<String>,
    tz: i32,
) -> (r: Option<UpdateProjectItemParams>)
    ensures
        r is None <==> !(current.kind is Task),
        r matches Some(u) ==> toggle_params_ok(u, project_id@, item_id@, *current, opt_view(*complete), tz),
{
    match current.kind {
        ItemKind::Task => Some(complete_toggle_params(project_id, item_id, current, complete, tz)),
        _ => None,
    }
}

/// What the response to a saved checkbox signals besides the re-rendered row.
#[derive(Debug, Clone, Copy, PartialEq, Eq)]
pub struct ToggleSignals {
    /// The item went from open to complete: a "Completed" confirmation is shown.
    pub just_completed: bool,
    /// The row is removed from the list: it was just completed, the list hides completed
    /// items, and the request came from that row.
    pub remove_row: bool,
}

pub fn toggle_signals(
    was_complete: bool,
    now_complete: bool,
    show_complete: &Option<String>,
    targets_row: bool,
) -> (r: ToggleSignals)
    ensures
        r.just_completed == (!was_complete && now_complete),
        r.remove_row == (!was_complete && now_complete && show_complete is None && targets_row),
{
    let just_completed = !was_complete && now_complete;
    ToggleSignals { just_completed, remove_row: just_completed && show_complete.is_none() && targets_row }
}

} // verus!
