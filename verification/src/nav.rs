//! The sidebar and project switcher: which links a page shows and where each points.
use vstd::prelude::*;
use crate::domain::{Project, opt_view};
use crate::text::str_eq;

verus! {

/// Which project (if any) the current page is scoped to.
#[derive(Clone, Debug)]
pub enum ActiveContext {
    Project(String),
    /// The cross-project Tasks/Events/Calendar screens.
    AllProjects,
    /// A page with no single natural project.
    NoProject,
}

/// Which item-type screen (if any) the current page belongs to.
#[derive(Clone, Copy, Debug, PartialEq, Eq, Structural)]
pub enum SidebarSection {
    Tasks,
    Events,
    SimpleLists,
    Templates,
    ItemSeries,
    /// No single section: links go to the project's calendar.
    NoSection,
}

/// A switcher pill for one of the user's projects.
#[derive(Clone, Debug)]
pub struct ProjectPill {
    pub name: String,
    pub href: String,
    pub is_active: bool,
}

/// A sidebar link to one section.
#[derive(Clone, Debug)]
pub struct SectionLink {
    pub label: &'static str,
    pub href: String,
    pub is_active: bool,
}

/// Everything the navigation chrome shows.
#[derive(Clone, Debug)]
pub struct NavModel {
    pub project_pills: Vec<ProjectPill>,
    pub section_links: Vec<SectionLink>,
    pub calendar_href: Option<String>,
    pub activity_href: Option<String>,
}

pub open spec fn section_path(section: SidebarSection) -> Seq<char> {
    match section {
        SidebarSection::Tasks => "tasks"@,
        SidebarSection::Events => "events"@,
        SidebarSection::SimpleLists => "simple-lists"@,
        SidebarSection::Templates => "templates"@,
        SidebarSection::ItemSeries => "series"@,
        SidebarSection::NoSection => "calendar"@,
    }
}

/// `/web/projects/{project_id}/{section path}`.
pub open spec fn section_href_spec(section: SidebarSection, project_id: Seq<char>) -> Seq<char> {
    "/web/projects/"@ + project_id + "/"@ + section_path(section)
}

/// The one place a (section, project) pair becomes a URL; the sidebar varies the section
/// over one project, the switcher varies the project over one section, so switching
/// project keeps the section.
pub fn section_href(section: SidebarSection, project_id: &str) -> (r: String)
    ensures
        r@ == section_href_spec(section, project_id@),
{
    let path = match section {
        SidebarSection::Tasks => "tasks",
        SidebarSection::Events => "events",
        SidebarSection::SimpleLists => "simple-lists",
        SidebarSection::Templates => "templates",
        SidebarSection::ItemSeries => "series",
        SidebarSection::NoSection => "calendar",
    };
    String::from_str("/web/projects/").concat(project_id).concat("/").concat(path)
}

/// A project page's context.
pub fn active_context(project_id: &str) -> (r: ActiveContext)
    ensures
        r matches ActiveContext::Project(p) && p@ == project_id@,
{
    ActiveContext::Project(String::from_str(project_id))
}

/// Whether the page is scoped to exactly the project `id`.
pub open spec fn is_active_project(active: ActiveContext, id: Seq<char>) -> bool {
    match active {
        ActiveContext::Project(p) => p@ == id,
        _ => false,
    }
}

pub open spec fn link_is(
    l: SectionLink,
    label: Seq<char>,
    href: Seq<char>,
    is_active: bool,
) -> bool {
    l.label@ == label && l.href@ == href && l.is_active == is_active
}

/// The five per-project section links, in sidebar order.
pub open spec fn project_links_ok(links: Seq<SectionLink>, pid: Seq<char>, section: SidebarSection) -> bool {
    &&& links.len() == 5
    &&& link_is(links[0], "Tasks"@, section_href_spec(SidebarSection::Tasks, pid), section == SidebarSection::Tasks)
    &&& link_is(links[1], "Events"@, section_href_spec(SidebarSection::Events, pid), section == SidebarSection::Events)
    &&& link_is(links[2], "Simple Lists"@, section_href_spec(SidebarSection::SimpleLists, pid), section == SidebarSection::SimpleLists)
    &&& link_is(links[3], "Templates"@, section_href_spec(SidebarSection::Templates, pid), section == SidebarSection::Templates)
    &&& link_is(links[4], "Series"@, section_href_spec(SidebarSection::ItemSeries, pid), section == SidebarSection::ItemSeries)
}

/// The two fixed cross-project section links.
pub open spec fn all_projects_links_ok(links: Seq<SectionLink>, section: SidebarSection) -> bool {
    &&& links.len() == 2
    &&& link_is(links[0], "Tasks"@, "/web/tasks"@, section == SidebarSection::Tasks)
    &&& link_is(links[1], "Events"@, "/web/events"@, section == SidebarSection::Events)
}

fn is_project(active: &ActiveContext, id: &str) -> (r: bool)
    ensures
        r == is_active_project(*active, id@),
{
    match active {
        ActiveContext::Project(p) => str_eq(p.as_str(), id),
        _ => false,
    }
}

fn link(label: &'static str, href: String, is_active: bool) -> (r: SectionLink)
    ensures
        r.label == label,
        r.href@ == href@,
        r.is_active == is_active,
{
    SectionLink { label, href, is_active }
}

/// The navigation for a page: one pill per project the user belongs to (each pointing at
/// the page's own section of that project); the five section links, the calendar and the
/// activity feed of the active project; the fixed cross-project links on the all-projects
/// screens; nothing but pills where no project is active.
pub fn nav_model(projects: &Vec<Project>, active: &ActiveContext, section: SidebarSection) -> (r: NavModel)
    ensures
        r.project_pills@.len() == projects@.len(),
        forall|i: int|
            0 <= i < projects@.len() ==> {
                &&& (#[trigger] r.project_pills@[i]).name@ == projects@[i].name@
                &&& r.project_pills@[i].href@ == section_href_spec(section, projects@[i].id@)
                &&& r.project_pills@[i].is_active == is_active_project(*active, projects@[i].id@)
            },
        match *active {
            ActiveContext::Project(pid) => {
                &&& project_links_ok(r.section_links@, pid@, section)
                &&& opt_view(r.calendar_href) == Some(section_href_spec(SidebarSection::NoSection, pid@))
                &&& opt_view(r.activity_href) == Some("/web/projects/"@ + pid@ + "/activity"@)
            },
            ActiveContext::AllProjects => {
                &&& all_projects_links_ok(r.section_links@, section)
                &&& opt_view(r.calendar_href) == Some("/web/calendar"@)
                &&& r.activity_href is None
            },
            ActiveContext::NoProject => {
                &&& r.section_links@.len() == 0
                &&& r.calendar_href is None
                &&& r.activity_href is None
            },
        },
{
    let mut pills: Vec<ProjectPill> = Vec::new();
    let mut i: usize = 0;
    while i < projects.len()
        invariant
            i <= projects@.len(),
            pills@.len() == i,
            forall|k: int|
                0 <= k < i ==> {
                    &&& (#[trigger] pills@[k]).name@ == projects@[k].name@
                    &&& pills@[k].href@ == section_href_spec(section, projects@[k].id@)
                    &&& pills@[k].is_active == is_active_project(*active, projects@[k].id@)
                },
        decreases projects@.len() - i,
    {
        let p = &projects[i];
        let pill = ProjectPill {
            name: crate::domain::copy_str(&p.name),
            href: section_href(section, p.id.as_str()),
            is_active: is_project(active, p.id.as_str()),
        };
        pills.push(pill);
        i = i + 1;
    }
    match active {
        ActiveContext::Project(pid) => {
            let mut links: Vec<SectionLink> = Vec::new();
            links.push(link("Tasks", section_href(SidebarSection::Tasks, pid.as_str()), section == SidebarSection::Tasks));
            links.push(link("Events", section_href(SidebarSection::Events, pid.as_str()), section == SidebarSection::Events));
            links.push(link("Simple Lists", section_href(SidebarSection::SimpleLists, pid.as_str()), section == SidebarSection::SimpleLists));
            links.push(link("Templates", section_href(SidebarSection::Templates, pid.as_str()), section == SidebarSection::Templates));
            links.push(link("Series", section_href(SidebarSection::ItemSeries, pid.as_str()), section == SidebarSection::ItemSeries));
            let calendar = section_href(SidebarSection::NoSection, pid.as_str());
            let activity = String::from_str("/web/projects/").concat(pid.as_str()).concat("/activity");
            NavModel {
                project_pills: pills,
                section_links: links,
                calendar_href: Some(calendar),
                activity_href: Some(activity),
            }
        },
        ActiveContext::AllProjects => {
            let mut links: Vec<SectionLink> = Vec::new();
            links.push(link("Tasks", String::from_str("/web/tasks"), section == SidebarSection::Tasks));
            links.push(link("Events", String::from_str("/web/events"), section == SidebarSection::Events));
            NavModel {
                project_pills: pills,
                section_links: links,
                calendar_href: Some(String::from_str("/web/calendar")),
                activity_href: None,
            }
        },
        ActiveContext::NoProject => NavModel {
            project_pills: pills,
            section_links: Vec::new(),
            calendar_href: None,
            activity_href: None,
        },
    }
}

} // verus!
