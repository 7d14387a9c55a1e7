//! Where the redirecting routes send the browser. The old dashboard paths forward whatever
//! query they were given, so a bookmarked day still lands on the same day.
use vstd::prelude::*;
use crate::text::str_is_empty;
use crate::web::opt_str;

verus! {

/// `base`, then `?` and the raw query when a non-empty one came with the request.
pub open spec fn with_query_spec(base: Seq<char>, query: Option<Seq<char>>) -> Seq<char> {
    match query {
        Some(q) => if q.len() > 0 {
            base + "?"@ + q
        } else {
            base
        },
        None => base,
    }
}

fn with_query(base: String, query: Option<&str>) -> (r: String)
    ensures
        r@ == with_query_spec(base@, opt_str(query)),
{
    match query {
        Some(q) => if str_is_empty(q) {
            base
        } else {
            base.concat("?").concat(q)
        },
        None => base,
    }
}

/// The old cross-project dashboard path: the Home calendar.
pub fn redirect_main_dashboard_target(query: Option<&str>) -> (r: String)
    ensures
        r@ == with_query_spec("/web/calendar"@, opt_str(query)),
{
    with_query(String::from_str("/web/calendar"), query)
}

/// The old cross-project dashboard list path: the all-projects Tasks screen.
pub fn redirect_main_dashboard_list_target(query: Option<&str>) -> (r: String)
    ensures
        r@ == with_query_spec("/web/tasks"@, opt_str(query)),
{
    with_query(String::from_str("/web/tasks"), query)
}

/// The old per-project dashboard path: the project's calendar.
pub fn redirect_project_dashboard_target(project_id: &str, query: Option<&str>) -> (r: String)
    ensures
        r@ == with_query_spec("/web/projects/"@ + project_id@ + "/calendar"@, opt_str(query)),
{
    with_query(String::from_str("/web/projects/").concat(project_id).concat("/calendar"), query)
}

/// The old per-project dashboard list path: the project's Tasks screen.
pub fn redirect_project_dashboard_list_target(project_id: &str, query: Option<&str>) -> (r: String)
    ensures
        r@ == with_query_spec("/web/projects/"@ + project_id@ + "/tasks"@, opt_str(query)),
{
    with_query(String::from_str("/web/projects/").concat(project_id).concat("/tasks"), query)
}

/// After a series row action: back to the page the request came from (`HX-Current-URL`),
/// else the project's series list.
pub fn current_page_location(hx_current_url: Option<&str>, project_id: &str) -> (r: String)
    ensures
        r@ == (match hx_current_url {
            Some(u) => u@,
            None => "/web/projects/"@ + project_id@ + "/series"@,
        }),
{
    match hx_current_url {
        Some(u) => String::from_str(u),
        None => String::from_str("/web/projects/").concat(project_id).concat("/series"),
    }
}

/// After creating an event from its standalone page: the project's events list.
pub fn project_events_location(project_id: &str) -> (r: String)
    ensures
        r@ == "/web/projects/"@ + project_id@ + "/events"@,
{
    String::from_str("/web/projects/").concat(project_id).concat("/events")
}

} // verus!
