//! The list row every project-scoped screen renders, whatever the item kind.
use vstd::prelude::*;

verus! {

/// One item in a list: what the row shows and the URLs of its actions.
#[derive(Clone, Debug)]
pub struct Row {
    pub expanded_row: bool,
    pub id: String,
    /// Base URL of the item's detail page and delete action.
    pub item_url: String,
    pub name: String,
    pub complete: bool,
    pub due_date: Option<String>,
    pub overdue: bool,
    pub scheduled_date: Option<String>,
    /// The end of the scheduled window, shown as `start–end`.
    pub scheduled_end_date: Option<String>,
    pub event_type: Option<String>,
    pub has_children: bool,
    pub offset_label: Option<String>,
    /// The assignee's display name on a team project.
    pub assignee_name: Option<String>,
    pub complete_url: Option<String>,
    /// The edit route, `None` where editing is not allowed.
    pub edit_url: Option<String>,
    pub duplicate_url: Option<String>,
    pub reschedule_url: Option<String>,
    /// The quick-assign dialog, on a team project only.
    pub assign_url: Option<String>,
    /// The series Skip action of an item materialized from a series occurrence.
    pub skip_url: Option<String>,
    pub toggle_complete_json: String,
    /// (id, name) of the row's siblings in the same list.
    pub siblings: Vec<(String, String)>,
    /// The task references an Event, so it offers no "subordinate under" picker.
    pub is_source_event_linked: bool,
    /// Whether the screen currently shows completed items.
    pub show_complete: bool,
    /// A one-shot confirmation badge.
    pub confirmation: Option<String>,
    /// Remove the row this many milliseconds after the response.
    pub dismiss_after_ms: Option<u32>,
    /// Imported from a calendar subscription: read-only.
    pub is_imported: bool,
    /// The "T"/"E" kind badge of the calendar screens.
    pub type_badge: Option<&'static str>,
    /// The parent's name, on the calendar screens.
    pub parent_name: Option<String>,
    /// The project's name, on the screens that mix projects.
    pub project_name: Option<String>,
    /// The name opens the read-only detail dialog rather than navigating.
    pub detail_via_dialog: bool,
    /// The already-rendered subtree of an expandable row.
    pub children_html: Option<String>,
    /// Left-padding class for the row's nesting depth (empty at the top level).
    pub indent_class: &'static str,
}

} // verus!
