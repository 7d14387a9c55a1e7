//! Verified decision logic of a project/task web application: list filters,
//! calendar grids, navigation, form overlays, view models and storage plans.
use vstd::prelude::*;

pub mod all_projects_tasks;
pub mod calendar;
pub mod components;
pub mod dashboard_rows;
pub mod dates;
pub mod domain;
pub mod event_forms;
pub mod event_list;
pub mod event_series;
pub mod item_series;
pub mod list_filters;
pub mod main_calendar;
pub mod main_dashboard;
pub mod nav;
pub mod project_calendar;
pub mod project_dashboard;
pub mod project_events;
pub mod redirects;
pub mod storage;
pub mod text;
pub mod toggles;
pub mod web;

verus! {

} // verus!
