//! The shared list-filter vocabulary: a raw single-valued query, its normalized
//! `ListFilters`, the predicates every filterable list screen applies to real items and to
//! still-virtual series occurrences, and the canonical query-string form of the filters.
use vstd::prelude::*;
use vstd::string::*;
use crate::domain::{Item, ProjectOccurrence, opt_view, opt_str_is, copy_str};
use crate::text::{
    str_eq, parse_i32, parse_i32_spec, i64_to_string, int_to_dec, join, join_spec,
    strings_view, concat2, nat_digits, digit_char, split_spec, strip_prefix_spec,
    lemma_split_join,
};

verus! {

/// Raw query-string shape for a filterable list screen; every field is single-valued.
/// `show_complete`: `"1"` shows completed items. `assigned_to`: `"me"` (default),
/// `"unassigned"`, `"all"` or a user id. `due_date`: `"overdue"` | `"none"`. `schedule`:
/// `"past"` | `"none"`. `recurring`: `"no"` hides series-linked items. `priority`: `"1"`-`"4"`.
#[derive(Default, Debug, Clone)]
pub struct ListFilterQuery {
    pub show_complete: Option<String>,
    pub assigned_to: Option<String>,
    pub due_date: Option<String>,
    pub schedule: Option<String>,
    pub recurring: Option<String>,
    pub priority: Option<String>,
}

/// The characters of a `ListFilterQuery`.
pub struct QueryView {
    pub show_complete: Option<Seq<char>>,
    pub assigned_to: Option<Seq<char>>,
    pub due_date: Option<Seq<char>>,
    pub schedule: Option<Seq<char>>,
    pub recurring: Option<Seq<char>>,
    pub priority: Option<Seq<char>>,
}

impl View for ListFilterQuery {
    type V = QueryView;

    open spec fn view(&self) -> QueryView {
        QueryView {
            show_complete: opt_view(self.show_complete),
            assigned_to: opt_view(self.assigned_to),
            due_date: opt_view(self.due_date),
            schedule: opt_view(self.schedule),
            recurring: opt_view(self.recurring),
            priority: opt_view(self.priority),
        }
    }
}

#[derive(Debug, Clone, PartialEq, Eq)]
pub enum AssignedToFilter {
    Me,
    Unassigned,
    All,
    User(String),
}

/// The characters of an `AssignedToFilter`.
pub enum AssignedToView {
    Me,
    Unassigned,
    All,
    User(Seq<char>),
}

impl View for AssignedToFilter {
    type V = AssignedToView;

    open spec fn view(&self) -> AssignedToView {
        match self {
            AssignedToFilter::Me => AssignedToView::Me,
            AssignedToFilter::Unassigned => AssignedToView::Unassigned,
            AssignedToFilter::All => AssignedToView::All,
            AssignedToFilter::User(id) => AssignedToView::User(id@),
        }
    }
}

/// The canonical value of an assigned-to filter, as the `assignedTo` query field spells it.
pub open spec fn assigned_value_spec(a: AssignedToView) -> Seq<char> {
    match a {
        AssignedToView::Me => "me"@,
        AssignedToView::Unassigned => "unassigned"@,
        AssignedToView::All => "all"@,
        AssignedToView::User(id) => id,
    }
}

impl AssignedToFilter {
    /// Canonical string form — the same values `ListFilterQuery::assigned_to` accepts.
    pub fn as_value(&self) -> (r: String)
        ensures
            r@ == assigned_value_spec(self@),
    {
        match self {
            AssignedToFilter::Me => String::from_str("me"),
            AssignedToFilter::Unassigned => String::from_str("unassigned"),
            AssignedToFilter::All => String::from_str("all"),
            AssignedToFilter::User(id) => copy_str(id),
        }
    }
}

#[derive(Debug, Clone, Copy, PartialEq, Eq, Structural)]
pub enum DueDateFilter {
    All,
    Overdue,
    NoDate,
}

pub open spec fn due_value_spec(d: DueDateFilter) -> Seq<char> {
    match d {
        DueDateFilter::All => "all"@,
        DueDateFilter::Overdue => "overdue"@,
        DueDateFilter::NoDate => "none"@,
    }
}

impl DueDateFilter {
    /// Canonical string form, as the `dueDate` query field spells it.
    pub fn as_value(&self) -> (r: &'static str)
        ensures
            r@ == due_value_spec(*self),
    {
        match self {
            DueDateFilter::All => "all",
            DueDateFilter::Overdue => "overdue",
            DueDateFilter::NoDate => "none",
        }
    }
}

#[derive(Debug, Clone, Copy, PartialEq, Eq, Structural)]
pub enum ScheduleFilter {
    All,
    Past,
    Unscheduled,
}

pub open spec fn schedule_value_spec(s: ScheduleFilter) -> Seq<char> {
    match s {
        ScheduleFilter::All => "all"@,
        ScheduleFilter::Past => "past"@,
        ScheduleFilter::Unscheduled => "none"@,
    }
}

impl ScheduleFilter {
    /// Canonical string form, as the `schedule` query field spells it.
    pub fn as_value(&self) -> (r: &'static str)
        ensures
            r@ == schedule_value_spec(*self),
    {
        match self {
            ScheduleFilter::All => "all",
            ScheduleFilter::Past => "past",
            ScheduleFilter::Unscheduled => "none",
        }
    }
}

/// Priority 1 (highest) to 4 (lowest), or every priority including unset.
#[derive(Debug, Clone, Copy, PartialEq, Eq, Structural)]
pub enum PriorityFilter {
    All,
    Exact(i32),
}

pub open spec fn priority_value_spec(p: PriorityFilter) -> Seq<char> {
    match p {
        PriorityFilter::All => Seq::<char>::empty(),
        PriorityFilter::Exact(v) => int_to_dec(v as int),
    }
}

impl PriorityFilter {
    /// Canonical string form: empty for every priority, else the number.
    pub fn as_value(&self) -> (r: String)
        ensures
            r@ == priority_value_spec(*self),
    {
        match self {
            PriorityFilter::All => String::new(),
            PriorityFilter::Exact(p) => i64_to_string(*p as i64),
        }
    }
}

/// Parsed/normalized form of `ListFilterQuery` — what every predicate and URL builder works
/// against. `recurring`: `true` shows recurring items, `false` hides any item with a series.
#[derive(Debug, Clone, PartialEq)]
pub struct ListFilters {
    pub show_complete: bool,
    pub assigned_to: AssignedToFilter,
    pub due_date: DueDateFilter,
    pub schedule: ScheduleFilter,
    pub recurring: bool,
    pub priority: PriorityFilter,
}

/// The abstract content of a `ListFilters`.
pub struct FiltersView {
    pub show_complete: bool,
    pub assigned_to: AssignedToView,
    pub due_date: DueDateFilter,
    pub schedule: ScheduleFilter,
    pub recurring: bool,
    pub priority: PriorityFilter,
}

impl View for ListFilters {
    type V = FiltersView;

    open spec fn view(&self) -> FiltersView {
        FiltersView {
            show_complete: self.show_complete,
            assigned_to: self.assigned_to@,
            due_date: self.due_date,
            schedule: self.schedule,
            recurring: self.recurring,
            priority: self.priority,
        }
    }
}

/// The filters in force when a screen is opened with no filter parameters.
pub open spec fn default_filters() -> FiltersView {
    FiltersView {
        show_complete: false,
        assigned_to: AssignedToView::Me,
        due_date: DueDateFilter::All,
        schedule: ScheduleFilter::All,
        recurring: true,
        priority: PriorityFilter::All,
    }
}

impl Default for ListFilters {
    fn default() -> (r: Self)
        ensures
            r@ == default_filters(),
    {
        Self {
            show_complete: false,
            assigned_to: AssignedToFilter::Me,
            due_date: DueDateFilter::All,
            schedule: ScheduleFilter::All,
            recurring: true,
            priority: PriorityFilter::All,
        }
    }
}

/// How a raw query normalizes: unknown values fall back to the defaults, and a priority
/// that is not an integer from 1 to 4 means every priority.
pub open spec fn from_query_spec(q: QueryView) -> FiltersView {
    FiltersView {
        show_complete: q.show_complete == Some("1"@),
        assigned_to: match q.assigned_to {
            None => AssignedToView::Me,
            Some(s) => if s == "me"@ {
                AssignedToView::Me
            } else if s == "unassigned"@ {
                AssignedToView::Unassigned
            } else if s == "all"@ {
                AssignedToView::All
            } else {
                AssignedToView::User(s)
            },
        },
        due_date: match q.due_date {
            Some(s) => if s == "overdue"@ {
                DueDateFilter::Overdue
            } else if s == "none"@ {
                DueDateFilter::NoDate
            } else {
                DueDateFilter::All
            },
            None => DueDateFilter::All,
        },
        schedule: match q.schedule {
            Some(s) => if s == "past"@ {
                ScheduleFilter::Past
            } else if s == "none"@ {
                ScheduleFilter::Unscheduled
            } else {
                ScheduleFilter::All
            },
            None => ScheduleFilter::All,
        },
        recurring: q.recurring != Some("no"@),
        priority: match q.priority {
            Some(s) => match parse_i32_spec(s) {
                Some(p) => if 1 <= p <= 4 {
                    PriorityFilter::Exact(p)
                } else {
                    PriorityFilter::All
                },
                None => PriorityFilter::All,
            },
            None => PriorityFilter::All,
        },
    }
}

/// Whether an item with assignee `assignee` passes the assigned-to filter `a` for `requester`.
pub open spec fn assignment_ok(
    a: AssignedToView,
    assignee: Option<Seq<char>>,
    requester: Seq<char>,
) -> bool {
    match a {
        AssignedToView::All => true,
        AssignedToView::Me => assignee == Some(requester),
        AssignedToView::Unassigned => assignee is None,
        AssignedToView::User(id) => assignee == Some(id),
    }
}

/// Whether a real item is visible under `f`. Assignment only filters on a team project.
pub open spec fn matches_spec(
    f: FiltersView,
    item: Item,
    requester: Seq<char>,
    is_team_project: bool,
    now: i64,
) -> bool {
    &&& f.show_complete || !item.complete
    &&& is_team_project ==> assignment_ok(
        f.assigned_to,
        opt_view(item.assigned_to_user_id),
        requester,
    )
    &&& match f.due_date {
        DueDateFilter::All => true,
        DueDateFilter::Overdue => item.overdue_at(now),
        DueDateFilter::NoDate => item.due_date is None,
    }
    &&& match f.schedule {
        ScheduleFilter::All => true,
        ScheduleFilter::Past => match item.scheduled_date {
            Some(d) => d < now,
            None => false,
        },
        ScheduleFilter::Unscheduled => item.scheduled_date is None,
    }
    &&& f.recurring || item.series_id is None
    &&& match f.priority {
        PriorityFilter::All => true,
        PriorityFilter::Exact(p) => item.priority == Some(p),
    }
}

/// Whether a still-virtual or skipped series occurrence is visible under `f`. An occurrence
/// carries one date, either its due date or its scheduled date (`is_due_date_basis`).
pub open spec fn matches_occurrence_spec(
    f: FiltersView,
    occ: ProjectOccurrence,
    requester: Seq<char>,
    is_team_project: bool,
    now: i64,
) -> bool {
    &&& is_team_project ==> assignment_ok(
        f.assigned_to,
        opt_view(occ.assigned_to_user_id),
        requester,
    )
    &&& match f.due_date {
        DueDateFilter::All => true,
        DueDateFilter::Overdue => occ.is_due_date_basis && occ.occurrence_date < now,
        DueDateFilter::NoDate => !occ.is_due_date_basis,
    }
    &&& match f.schedule {
        ScheduleFilter::All => true,
        ScheduleFilter::Past => !occ.is_due_date_basis && occ.occurrence_date < now,
        ScheduleFilter::Unscheduled => occ.is_due_date_basis,
    }
    &&& match f.priority {
        PriorityFilter::All => true,
        PriorityFilter::Exact(p) => occ.priority == Some(p),
    }
}

pub open spec fn show_complete_part(f: FiltersView) -> Seq<Seq<char>> {
    if f.show_complete {
        seq!["showComplete=1"@]
    } else {
        Seq::<Seq<char>>::empty()
    }
}

pub open spec fn assigned_part(f: FiltersView) -> Seq<Seq<char>> {
    match f.assigned_to {
        AssignedToView::Me => Seq::<Seq<char>>::empty(),
        AssignedToView::Unassigned => seq!["assignedTo=unassigned"@],
        AssignedToView::All => seq!["assignedTo=all"@],
        AssignedToView::User(id) => seq!["assignedTo="@ + id],
    }
}

pub open spec fn due_part(f: FiltersView) -> Seq<Seq<char>> {
    match f.due_date {
        DueDateFilter::All => Seq::<Seq<char>>::empty(),
        DueDateFilter::Overdue => seq!["dueDate=overdue"@],
        DueDateFilter::NoDate => seq!["dueDate=none"@],
    }
}

pub open spec fn schedule_part(f: FiltersView) -> Seq<Seq<char>> {
    match f.schedule {
        ScheduleFilter::All => Seq::<Seq<char>>::empty(),
        ScheduleFilter::Past => seq!["schedule=past"@],
        ScheduleFilter::Unscheduled => seq!["schedule=none"@],
    }
}

pub open spec fn recurring_part(f: FiltersView) -> Seq<Seq<char>> {
    if !f.recurring {
        seq!["recurring=no"@]
    } else {
        Seq::<Seq<char>>::empty()
    }
}

pub open spec fn priority_part(f: FiltersView) -> Seq<Seq<char>> {
    match f.priority {
        PriorityFilter::All => Seq::<Seq<char>>::empty(),
        PriorityFilter::Exact(p) => seq!["priority="@ + int_to_dec(p as int)],
    }
}

/// The non-default filter parameters, in a fixed order.
pub open spec fn query_parts_spec(f: FiltersView) -> Seq<Seq<char>> {
    show_complete_part(f) + assigned_part(f) + due_part(f) + schedule_part(f) + recurring_part(f)
        + priority_part(f)
}

/// Non-default filter params as a `key=value&key2=value2` fragment, empty at the defaults.
pub open spec fn query_string_spec(f: FiltersView) -> Seq<char> {
    join_spec(query_parts_spec(f), "&"@)
}

fn push_lit(parts: &mut Vec<String>, s: &str)
    ensures
        strings_view(final(parts)@) == strings_view(old(parts)@).push(s@),
{
    parts.push(String::from_str(s));
    assert(strings_view(parts@) =~= strings_view(old(parts)@).push(s@));
}

impl ListFilters {
    pub fn from_query(q: ListFilterQuery) -> (r: Self)
        ensures
            r@ == from_query_spec(q@),
    {
        let show_complete = opt_str_is(&q.show_complete, "1");
        let assigned_to = match &q.assigned_to {
            None => AssignedToFilter::Me,
            Some(s) => if str_eq(s.as_str(), "me") {
                AssignedToFilter::Me
            } else if str_eq(s.as_str(), "unassigned") {
                AssignedToFilter::Unassigned
            } else if str_eq(s.as_str(), "all") {
                AssignedToFilter::All
            } else {
                AssignedToFilter::User(copy_str(s))
            },
        };
        let due_date = if opt_str_is(&q.due_date, "overdue") {
            DueDateFilter::Overdue
        } else if opt_str_is(&q.due_date, "none") {
            DueDateFilter::NoDate
        } else {
            DueDateFilter::All
        };
        let schedule = if opt_str_is(&q.schedule, "past") {
            ScheduleFilter::Past
        } else if opt_str_is(&q.schedule, "none") {
            ScheduleFilter::Unscheduled
        } else {
            ScheduleFilter::All
        };
        let recurring = !opt_str_is(&q.recurring, "no");
        let priority = match &q.priority {
            Some(s) => match parse_i32(s.as_str()) {
                Some(p) => if 1 <= p && p <= 4 {
                    PriorityFilter::Exact(p)
                } else {
                    PriorityFilter::All
                },
                None => PriorityFilter::All,
            },
            None => PriorityFilter::All,
        };
        Self { show_complete, assigned_to, due_date, schedule, recurring, priority }
    }

    fn assignment_matches(&self, assignee: &Option<String>, requester_user_id: &str) -> (r: bool)
        ensures
            r == assignment_ok(self.assigned_to@, opt_view(*assignee), requester_user_id@),
    {
        match &self.assigned_to {
            AssignedToFilter::All => true,
            AssignedToFilter::Me => opt_str_is(assignee, requester_user_id),
            AssignedToFilter::Unassigned => assignee.is_none(),
            AssignedToFilter::User(id) => opt_str_is(assignee, id.as_str()),
        }
    }

    /// Whether `item` should be visible under these filters. `is_team_project` gates
    /// `assigned_to` only; `now` is the instant "overdue" and "past" are judged against.
    pub fn matches(
        &self,
        item: &Item,
        requester_user_id: &str,
        is_team_project: bool,
        now: i64,
    ) -> (r: bool)
        ensures
            r == matches_spec(self@, *item, requester_user_id@, is_team_project, now),
    {
        if !self.show_complete && item.complete {
            return false;
        }
        if is_team_project {
            if !self.assignment_matches(&item.assigned_to_user_id, requester_user_id) {
                return false;
            }
        }
        let matches_due = match self.due_date {
            DueDateFilter::All => true,
            DueDateFilter::Overdue => item.is_overdue(now),
            DueDateFilter::NoDate => item.due_date.is_none(),
        };
        if !matches_due {
            return false;
        }
        let matches_schedule = match self.schedule {
            ScheduleFilter::All => true,
            ScheduleFilter::Past => match item.scheduled_date {
                Some(d) => d < now,
                None => false,
            },
            ScheduleFilter::Unscheduled => item.scheduled_date.is_none(),
        };
        if !matches_schedule {
            return false;
        }
        if !self.recurring && item.series_id.is_some() {
            return false;
        }
        if let PriorityFilter::Exact(p) = self.priority {
            match item.priority {
                Some(ip) => {
                    if ip != p {
                        return false;
                    }
                },
                None => {
                    return false;
                },
            }
        }
        true
    }

    /// `matches`' counterpart for a still-virtual or skipped series occurrence: there is no
    /// completion or recurrence dimension, and the one date counts as a due date or a
    /// scheduled date according to `is_due_date_basis`.
    pub fn matches_occurrence(
        &self,
        occ: &ProjectOccurrence,
        requester_user_id: &str,
        is_team_project: bool,
        now: i64,
    ) -> (r: bool)
        ensures
            r == matches_occurrence_spec(self@, *occ, requester_user_id@, is_team_project, now),
    {
        if is_team_project {
            if !self.assignment_matches(&occ.assigned_to_user_id, requester_user_id) {
                return false;
            }
        }
        let matches_due = match self.due_date {
            DueDateFilter::All => true,
            DueDateFilter::Overdue => occ.is_due_date_basis && occ.occurrence_date < now,
            DueDateFilter::NoDate => !occ.is_due_date_basis,
        };
        if !matches_due {
            return false;
        }
        let matches_schedule = match self.schedule {
            ScheduleFilter::All => true,
            ScheduleFilter::Past => !occ.is_due_date_basis && occ.occurrence_date < now,
            ScheduleFilter::Unscheduled => occ.is_due_date_basis,
        };
        if !matches_schedule {
            return false;
        }
        if let PriorityFilter::Exact(p) = self.priority {
            match occ.priority {
                Some(op) => {
                    if op != p {
                        return false;
                    }
                },
                None => {
                    return false;
                },
            }
        }
        true
    }

    /// Non-default filter params as a `key=value&key2=value2` fragment — no leading `?`/`&`,
    /// empty when every filter is at its default.
    pub fn query_string(&self) -> (r: String)
        ensures
            r@ == query_string_spec(self@),
    {
        let mut parts: Vec<String> = Vec::new();
        let ghost f = self@;
        assert(strings_view(parts@) =~= Seq::<Seq<char>>::empty());
        if self.show_complete {
            push_lit(&mut parts, "showComplete=1");
        }
        assert(strings_view(parts@) =~= show_complete_part(f));
        let ghost v1 = strings_view(parts@);
        match &self.assigned_to {
            AssignedToFilter::Me => {},
            AssignedToFilter::Unassigned => push_lit(&mut parts, "assignedTo=unassigned"),
            AssignedToFilter::All => push_lit(&mut parts, "assignedTo=all"),
            AssignedToFilter::User(id) => {
                let s = concat2("assignedTo=", id.as_str());
                push_lit(&mut parts, s.as_str());
            },
        }
        assert(strings_view(parts@) =~= v1 + assigned_part(f));
        let ghost v2 = strings_view(parts@);
        match self.due_date {
            DueDateFilter::All => {},
            DueDateFilter::Overdue => push_lit(&mut parts, "dueDate=overdue"),
            DueDateFilter::NoDate => push_lit(&mut parts, "dueDate=none"),
        }
        assert(strings_view(parts@) =~= v2 + due_part(f));
        let ghost v3 = strings_view(parts@);
        match self.schedule {
            ScheduleFilter::All => {},
            ScheduleFilter::Past => push_lit(&mut parts, "schedule=past"),
            ScheduleFilter::Unscheduled => push_lit(&mut parts, "schedule=none"),
        }
        assert(strings_view(parts@) =~= v3 + schedule_part(f));
        let ghost v4 = strings_view(parts@);
        if !self.recurring {
            push_lit(&mut parts, "recurring=no");
        }
        assert(strings_view(parts@) =~= v4 + recurring_part(f));
        let ghost v5 = strings_view(parts@);
        if let PriorityFilter::Exact(p) = self.priority {
            let digits = i64_to_string(p as i64);
            let s = concat2("priority=", digits.as_str());
            push_lit(&mut parts, s.as_str());
        }
        assert(strings_view(parts@) =~= v5 + priority_part(f));
        assert(strings_view(parts@) =~= query_parts_spec(f));
        join(&parts, "&")
    }
}

// ---- laws -------------------------------------------------------------------

/// The query that spells the filters `f` with their canonical values.
pub open spec fn canonical_query(f: FiltersView) -> QueryView {
    QueryView {
        show_complete: if f.show_complete {
            Some("1"@)
        } else {
            None
        },
        assigned_to: Some(assigned_value_spec(f.assigned_to)),
        due_date: Some(due_value_spec(f.due_date)),
        schedule: Some(schedule_value_spec(f.schedule)),
        recurring: if f.recurring {
            None
        } else {
            Some("no"@)
        },
        priority: Some(priority_value_spec(f.priority)),
    }
}

/// Filters that some query normalizes to: a specific user is not spelled like one of the
/// reserved values, and an exact priority lies between 1 and 4.
pub open spec fn canonical(f: FiltersView) -> bool {
    &&& match f.assigned_to {
        AssignedToView::User(id) => id != "me"@ && id != "unassigned"@ && id != "all"@,
        _ => true,
    }
    &&& match f.priority {
        PriorityFilter::Exact(p) => 1 <= p <= 4,
        PriorityFilter::All => true,
    }
}

/// Every filters value is its own canonical query read back: the values `as_value` writes
/// round-trip through `from_query`.
pub proof fn lemma_as_value_round_trip(f: FiltersView)
    requires
        canonical(f),
    ensures
        from_query_spec(canonical_query(f)) == f,
{
    reveal_strlit("1");
    reveal_strlit("me");
    reveal_strlit("unassigned");
    reveal_strlit("all");
    reveal_strlit("overdue");
    reveal_strlit("none");
    reveal_strlit("past");
    reveal_strlit("no");
    assert("me"@.len() == 2 && "all"@.len() == 3 && "unassigned"@.len() == 10);
    assert("past"@.len() == 4 && "none"@.len() == 4 && "overdue"@.len() == 7);
    assert("past"@[0] != "none"@[0]);
    assert("me"@ != "unassigned"@ && "me"@ != "all"@ && "unassigned"@ != "all"@);
    assert("all"@ != "past"@ && "all"@ != "none"@ && "past"@ != "none"@);
    assert("all"@ != "overdue"@ && "overdue"@ != "none"@);
    let g = from_query_spec(canonical_query(f));
    match f.priority {
        PriorityFilter::Exact(p) => {
            let s = int_to_dec(p as int);
            assert(nat_digits(p as nat) == seq![digit_char(p as nat)]);
            assert(s.len() == 1);
            assert(crate::text::all_digits(s));
            assert(s.drop_last() =~= Seq::<char>::empty());
            assert(crate::text::digits_value(s.drop_last()) == 0);
            assert(crate::text::digits_value(s) == p as int);
            assert(parse_i32_spec(s) == Some(p));
        },
        PriorityFilter::All => {
            assert(parse_i32_spec(Seq::<char>::empty()) is None);
        },
    }
    assert(g.show_complete == f.show_complete);
    assert(g.assigned_to == f.assigned_to);
    assert(g.due_date == f.due_date);
    assert(g.schedule == f.schedule);
    assert(g.recurring == f.recurring);
    assert(g.priority == f.priority);
}

proof fn lemma_join_nonempty(parts: Seq<Seq<char>>, sep: Seq<char>)
    requires
        parts.len() > 0,
        parts.last().len() > 0,
    ensures
        join_spec(parts, sep).len() > 0,
{
}

/// The query string is empty exactly at the default filters.
pub proof fn lemma_query_string_empty_iff_default(f: FiltersView)
    ensures
        (query_string_spec(f).len() == 0) <==> f == default_filters(),
{
    reveal_strlit("showComplete=1");
    reveal_strlit("assignedTo=unassigned");
    reveal_strlit("assignedTo=all");
    reveal_strlit("assignedTo=");
    reveal_strlit("dueDate=overdue");
    reveal_strlit("dueDate=none");
    reveal_strlit("schedule=past");
    reveal_strlit("schedule=none");
    reveal_strlit("recurring=no");
    reveal_strlit("priority=");
    let parts = query_parts_spec(f);
    if f == default_filters() {
        assert(parts =~= Seq::<Seq<char>>::empty());
    } else {
        assert(parts.len() > 0);
        assert(parts.last().len() > 0);
        lemma_join_nonempty(parts, "&"@);
    }
}

/// On a personal project the default filters show exactly the incomplete items.
pub proof fn lemma_default_matches_incomplete(item: Item, requester: Seq<char>, now: i64)
    ensures
        matches_spec(default_filters(), item, requester, false, now) == !item.complete,
{
}

/// Showing completed items never hides an item that was visible before.
pub proof fn lemma_show_complete_only_widens(
    f: FiltersView,
    item: Item,
    requester: Seq<char>,
    is_team_project: bool,
    now: i64,
)
    requires
        matches_spec(f, item, requester, is_team_project, now),
    ensures
        matches_spec(
            FiltersView { show_complete: true, ..f },
            item,
            requester,
            is_team_project,
            now,
        ),
{
}

/// On a personal project the assigned-to filter has no effect.
pub proof fn lemma_assignment_ignored_on_personal_projects(
    f: FiltersView,
    a: AssignedToView,
    item: Item,
    occ: ProjectOccurrence,
    requester: Seq<char>,
    now: i64,
)
    ensures
        matches_spec(f, item, requester, false, now) == matches_spec(
            FiltersView { assigned_to: a, ..f },
            item,
            requester,
            false,
            now,
        ),
        matches_occurrence_spec(
            f,
            occ,
            requester,
            false,
            now,
        ) == matches_occurrence_spec(
            FiltersView { assigned_to: a, ..f },
            occ,
            requester,
            false,
            now,
        ),
{
}

/// An occurrence carries a due date or a scheduled date, never both, so the overdue and
/// scheduled-in-the-past filters together exclude every occurrence.
pub proof fn lemma_overdue_and_past_exclude_every_occurrence(
    f: FiltersView,
    occ: ProjectOccurrence,
    requester: Seq<char>,
    is_team_project: bool,
    now: i64,
)
    requires
        f.due_date == DueDateFilter::Overdue,
        f.schedule == ScheduleFilter::Past,
    ensures
        !matches_occurrence_spec(f, occ, requester, is_team_project, now),
{
}

// ---- reading a query string back --------------------------------------------------

/// The value of the first piece that starts with `key` (a name followed by `=`).
pub open spec fn first_value(parts: Seq<Seq<char>>, key: Seq<char>) -> Option<Seq<char>>
    decreases parts.len(),
{
    if parts.len() == 0 {
        None
    } else {
        match strip_prefix_spec(parts[0], key) {
            Some(v) => Some(v),
            None => first_value(parts.drop_first(), key),
        }
    }
}

/// The value a `&`-separated query string gives the parameter `key`.
pub open spec fn query_value(s: Seq<char>, key: Seq<char>) -> Option<Seq<char>> {
    first_value(split_spec(s, '&'), key)
}

/// The raw query a query string holds: each parameter's first value.
pub open spec fn parse_query(s: Seq<char>) -> QueryView {
    QueryView {
        show_complete: query_value(s, "showComplete="@),
        assigned_to: query_value(s, "assignedTo="@),
        due_date: query_value(s, "dueDate="@),
        schedule: query_value(s, "schedule="@),
        recurring: query_value(s, "recurring="@),
        priority: query_value(s, "priority="@),
    }
}

proof fn lemma_first_value_concat(a: Seq<Seq<char>>, b: Seq<Seq<char>>, key: Seq<char>)
    ensures
        first_value(a + b, key) == (match first_value(a, key) {
            Some(v) => Some(v),
            None => first_value(b, key),
        }),
    decreases a.len(),
{
    if a.len() == 0 {
        assert(a + b =~= b);
    } else {
        lemma_first_value_concat(a.drop_first(), b, key);
        assert((a + b).drop_first() =~= a.drop_first() + b);
        assert((a + b)[0] == a[0]);
    }
}

/// A parameter piece: `key` and its value, or nothing.
pub open spec fn kv(key: Seq<char>, v: Option<Seq<char>>) -> Seq<Seq<char>> {
    match v {
        Some(x) => seq![key + x],
        None => Seq::empty(),
    }
}

/// Two keys that differ in their first two characters.
pub open spec fn keys_apart(a: Seq<char>, b: Seq<char>) -> bool {
    a.len() >= 2 && b.len() >= 2 && (a[0] != b[0] || a[1] != b[1])
}

proof fn lemma_first_value_kv(k: Seq<char>, v: Option<Seq<char>>, key: Seq<char>)
    requires
        k == key || keys_apart(k, key),
        key.len() > 0,
    ensures
        first_value(kv(k, v), key) == (if k == key { v } else { None }),
{
    reveal_with_fuel(first_value, 2);
    match v {
        Some(x) => {
            let part = k + x;
            let one = kv(k, v);
            assert(one =~= seq![part]);
            assert(one.drop_first() =~= Seq::<Seq<char>>::empty());
            if k == key {
                assert(part.take(key.len() as int) =~= key);
                assert(part.skip(key.len() as int) =~= x);
                assert(strip_prefix_spec(part, key) == Some(x));
            } else {
                if key.len() <= part.len() {
                    let t = part.take(key.len() as int);
                    assert(t[0] == k[0] && t[1] == k[1]);
                    assert(t != key) by {
                        if t == key {
                            assert(key[0] == k[0] && key[1] == k[1]);
                        }
                    }
                }
                assert(strip_prefix_spec(part, key) is None);
            }
        },
        None => {},
    }
}

/// The six parameter values of a filters value, as its query string carries them.
pub open spec fn query_values(f: FiltersView) -> QueryView {
    QueryView {
        show_complete: if f.show_complete { Some("1"@) } else { None },
        assigned_to: match f.assigned_to {
            AssignedToView::Me => None,
            AssignedToView::Unassigned => Some("unassigned"@),
            AssignedToView::All => Some("all"@),
            AssignedToView::User(id) => Some(id),
        },
        due_date: match f.due_date {
            DueDateFilter::All => None,
            DueDateFilter::Overdue => Some("overdue"@),
            DueDateFilter::NoDate => Some("none"@),
        },
        schedule: match f.schedule {
            ScheduleFilter::All => None,
            ScheduleFilter::Past => Some("past"@),
            ScheduleFilter::Unscheduled => Some("none"@),
        },
        recurring: if f.recurring { None } else { Some("no"@) },
        priority: match f.priority {
            PriorityFilter::All => None,
            PriorityFilter::Exact(p) => Some(int_to_dec(p as int)),
        },
    }
}

proof fn lemma_parts_as_kv(f: FiltersView)
    ensures
        query_parts_spec(f) == kv("showComplete="@, query_values(f).show_complete) + kv("assignedTo="@, query_values(f).assigned_to)
            + kv("dueDate="@, query_values(f).due_date) + kv("schedule="@, query_values(f).schedule)
            + kv("recurring="@, query_values(f).recurring) + kv("priority="@, query_values(f).priority),
{
    reveal_strlit("showComplete=1");
    reveal_strlit("showComplete=");
    reveal_strlit("1");
    reveal_strlit("assignedTo=unassigned");
    reveal_strlit("assignedTo=all");
    reveal_strlit("assignedTo=");
    reveal_strlit("unassigned");
    reveal_strlit("all");
    reveal_strlit("dueDate=overdue");
    reveal_strlit("dueDate=none");
    reveal_strlit("dueDate=");
    reveal_strlit("overdue");
    reveal_strlit("none");
    reveal_strlit("schedule=past");
    reveal_strlit("schedule=none");
    reveal_strlit("schedule=");
    reveal_strlit("past");
    reveal_strlit("recurring=no");
    reveal_strlit("recurring=");
    reveal_strlit("no");
    reveal_strlit("priority=");
    let q = query_values(f);
    if f.show_complete {
        assert("showComplete=1"@ =~= "showComplete="@ + "1"@);
    }
    assert(show_complete_part(f) =~= kv("showComplete="@, q.show_complete));
    match f.assigned_to {
        AssignedToView::Unassigned => {
            assert("assignedTo=unassigned"@ =~= "assignedTo="@ + "unassigned"@);
        },
        AssignedToView::All => {
            assert("assignedTo=all"@ =~= "assignedTo="@ + "all"@);
        },
        _ => {},
    }
    assert(assigned_part(f) =~= kv("assignedTo="@, q.assigned_to));
    match f.due_date {
        DueDateFilter::Overdue => {
            assert("dueDate=overdue"@ =~= "dueDate="@ + "overdue"@);
        },
        DueDateFilter::NoDate => {
            assert("dueDate=none"@ =~= "dueDate="@ + "none"@);
        },
        _ => {},
    }
    assert(due_part(f) =~= kv("dueDate="@, q.due_date));
    match f.schedule {
        ScheduleFilter::Past => {
            assert("schedule=past"@ =~= "schedule="@ + "past"@);
        },
        ScheduleFilter::Unscheduled => {
            assert("schedule=none"@ =~= "schedule="@ + "none"@);
        },
        _ => {},
    }
    assert(schedule_part(f) =~= kv("schedule="@, q.schedule));
    if !f.recurring {
        assert("recurring=no"@ =~= "recurring="@ + "no"@);
    }
    assert(recurring_part(f) =~= kv("recurring="@, q.recurring));
    assert(priority_part(f) =~= kv("priority="@, q.priority));
}

proof fn lemma_no_char_concat(a: Seq<char>, b: Seq<char>, c: char)
    requires
        !a.contains(c),
        !b.contains(c),
    ensures
        !(a + b).contains(c),
{
    if (a + b).contains(c) {
        let k = choose|k: int| 0 <= k < (a + b).len() && (a + b)[k] == c;
        if k < a.len() {
            assert(a[k] == c);
        } else {
            assert(b[k - a.len()] == c);
        }
    }
}

/// The separator appears in no piece of a query string: every piece is a key and a value,
/// neither of which holds `&`.
proof fn lemma_parts_hold_no_separator(f: FiltersView)
    requires
        f.assigned_to matches AssignedToView::User(id) ==> !id.contains('&'),
        f.priority matches PriorityFilter::Exact(p) ==> 1 <= p <= 4,
    ensures
        forall|i: int|
            0 <= i < query_parts_spec(f).len() ==> !(#[trigger] query_parts_spec(f)[i]).contains(
                '&',
            ),
{
    let q = query_values(f);
    let k1 = "showComplete="@;
    let k2 = "assignedTo="@;
    let k3 = "dueDate="@;
    let k4 = "schedule="@;
    let k5 = "recurring="@;
    let k6 = "priority="@;
    reveal_strlit("showComplete=");
    reveal_strlit("assignedTo=");
    reveal_strlit("dueDate=");
    reveal_strlit("schedule=");
    reveal_strlit("recurring=");
    reveal_strlit("priority=");
    reveal_strlit("1");
    reveal_strlit("unassigned");
    reveal_strlit("all");
    reveal_strlit("overdue");
    reveal_strlit("none");
    reveal_strlit("past");
    reveal_strlit("no");
    lemma_parts_as_kv(f);
    let (a1, a2, a3, a4, a5, a6) = (
        kv(k1, q.show_complete),
        kv(k2, q.assigned_to),
        kv(k3, q.due_date),
        kv(k4, q.schedule),
        kv(k5, q.recurring),
        kv(k6, q.priority),
    );
    let parts = query_parts_spec(f);
    if let PriorityFilter::Exact(p) = f.priority {
        assert(nat_digits(p as nat) == seq![digit_char(p as nat)]);
        assert(int_to_dec(p as int) =~= seq![digit_char(p as nat)]);
    }
    let vals = seq![q.show_complete, q.assigned_to, q.due_date, q.schedule, q.recurring, q.priority];
    let keys = seq![k1, k2, k3, k4, k5, k6];
    assert forall|j: int| 0 <= j < 6 implies ((#[trigger] vals[j]) matches Some(x) ==> !x.contains(
        '&',
    )) by {
        if j == 5 {
            if let PriorityFilter::Exact(p) = f.priority {
                assert(int_to_dec(p as int)[0] != '&');
            }
        }
    }
    assert(!k1.contains('&') && !k2.contains('&') && !k3.contains('&'));
    assert(!k4.contains('&') && !k5.contains('&') && !k6.contains('&'));
    assert forall|j: int| 0 <= j < 6 implies !(#[trigger] keys[j]).contains('&') by {}
    assert forall|i: int| 0 <= i < parts.len() implies !(#[trigger] parts[i]).contains('&') by {
        lemma_part_origin(a1, a2, a3, a4, a5, a6, i, vals, keys);
        let (key, v) = choose|key: Seq<char>, v: Seq<char>|
            parts[i] == key + v && !key.contains('&') && !v.contains('&');
        lemma_no_char_concat(key, v, '&');
    }
}

/// Reading a query string's pieces back: the first value of each key is the one the
/// filters value carries.
proof fn lemma_first_values(f: FiltersView, key: Seq<char>)
    requires
        key == "showComplete="@ || key == "assignedTo="@ || key == "dueDate="@ || key
            == "schedule="@ || key == "recurring="@ || key == "priority="@,
    ensures
        first_value(query_parts_spec(f), key) == (if key == "showComplete="@ {
            query_values(f).show_complete
        } else if key == "assignedTo="@ {
            query_values(f).assigned_to
        } else if key == "dueDate="@ {
            query_values(f).due_date
        } else if key == "schedule="@ {
            query_values(f).schedule
        } else if key == "recurring="@ {
            query_values(f).recurring
        } else {
            query_values(f).priority
        }),
{
    let q = query_values(f);
    let k1 = "showComplete="@;
    let k2 = "assignedTo="@;
    let k3 = "dueDate="@;
    let k4 = "schedule="@;
    let k5 = "recurring="@;
    let k6 = "priority="@;
    reveal_strlit("showComplete=");
    reveal_strlit("assignedTo=");
    reveal_strlit("dueDate=");
    reveal_strlit("schedule=");
    reveal_strlit("recurring=");
    reveal_strlit("priority=");
    lemma_parts_as_kv(f);
    let (a1, a2, a3, a4, a5, a6) = (
        kv(k1, q.show_complete),
        kv(k2, q.assigned_to),
        kv(k3, q.due_date),
        kv(k4, q.schedule),
        kv(k5, q.recurring),
        kv(k6, q.priority),
    );
    lemma_first_value_concat(a1 + a2 + a3 + a4 + a5, a6, key);
    lemma_first_value_concat(a1 + a2 + a3 + a4, a5, key);
    lemma_first_value_concat(a1 + a2 + a3, a4, key);
    lemma_first_value_concat(a1 + a2, a3, key);
    lemma_first_value_concat(a1, a2, key);
    lemma_first_value_kv(k1, q.show_complete, key);
    lemma_first_value_kv(k2, q.assigned_to, key);
    lemma_first_value_kv(k3, q.due_date, key);
    lemma_first_value_kv(k4, q.schedule, key);
    lemma_first_value_kv(k5, q.recurring, key);
    lemma_first_value_kv(k6, q.priority, key);
}

/// A query string splits at `&` back into its pieces.
proof fn lemma_query_string_splits(f: FiltersView)
    requires
        f.assigned_to matches AssignedToView::User(id) ==> !id.contains('&'),
        f.priority matches PriorityFilter::Exact(p) ==> 1 <= p <= 4,
    ensures
        split_spec(query_string_spec(f), '&') == (if query_parts_spec(f).len() == 0 {
            seq![Seq::<char>::empty()]
        } else {
            query_parts_spec(f)
        }),
{
    reveal_strlit("&");
    let parts = query_parts_spec(f);
    let s = query_string_spec(f);
    assert("&"@ =~= seq!['&']);
    if parts.len() == 0 {
        assert(s =~= Seq::<char>::empty());
        assert(split_spec(s, '&') =~= seq![Seq::<char>::empty()]);
    } else {
        lemma_parts_hold_no_separator(f);
        lemma_split_join(parts, '&');
    }
}

/// The six parameter keys are pairwise different.
proof fn lemma_query_keys_distinct()
    ensures
        "showComplete="@ != "assignedTo="@,
        "showComplete="@ != "dueDate="@,
        "showComplete="@ != "schedule="@,
        "showComplete="@ != "recurring="@,
        "showComplete="@ != "priority="@,
        "assignedTo="@ != "dueDate="@,
        "assignedTo="@ != "schedule="@,
        "assignedTo="@ != "recurring="@,
        "assignedTo="@ != "priority="@,
        "dueDate="@ != "schedule="@,
        "dueDate="@ != "recurring="@,
        "dueDate="@ != "priority="@,
        "schedule="@ != "recurring="@,
        "schedule="@ != "priority="@,
        "recurring="@ != "priority="@,
{
    reveal_strlit("showComplete=");
    reveal_strlit("assignedTo=");
    reveal_strlit("dueDate=");
    reveal_strlit("schedule=");
    reveal_strlit("recurring=");
    reveal_strlit("priority=");
    assert("showComplete="@.len() == 13 && "assignedTo="@.len() == 11);
    assert("dueDate="@.len() == 8 && "schedule="@.len() == 9);
    assert("recurring="@.len() == 10 && "priority="@.len() == 9);
    assert("schedule="@[0] != "priority="@[0]);
}

/// Reading a filters value's query string back gives the same filters, for every filters
/// value some query selects whose assignee id holds no `&`.
pub proof fn lemma_query_string_round_trip(f: FiltersView)
    requires
        canonical(f),
        f.assigned_to matches AssignedToView::User(id) ==> !id.contains('&'),
    ensures
        from_query_spec(parse_query(query_string_spec(f))) == f,
{
    let q = query_values(f);
    let s = query_string_spec(f);
    let parts = query_parts_spec(f);
    lemma_query_string_splits(f);
    lemma_query_keys_distinct();
    if parts.len() == 0 {
        reveal_with_fuel(first_value, 2);
        lemma_parts_as_kv(f);
        assert(seq![Seq::<char>::empty()].drop_first() =~= Seq::<Seq<char>>::empty());
        reveal_strlit("showComplete=");
        reveal_strlit("assignedTo=");
        reveal_strlit("dueDate=");
        reveal_strlit("schedule=");
        reveal_strlit("recurring=");
        reveal_strlit("priority=");
        assert(q.show_complete is None && q.assigned_to is None && q.due_date is None);
        assert(q.schedule is None && q.recurring is None && q.priority is None);
    } else {
        lemma_first_values(f, "showComplete="@);
        lemma_first_values(f, "assignedTo="@);
        lemma_first_values(f, "dueDate="@);
        lemma_first_values(f, "schedule="@);
        lemma_first_values(f, "recurring="@);
        lemma_first_values(f, "priority="@);
    }
    let parsed = parse_query(s);
    assert(parsed.show_complete == q.show_complete);
    assert(parsed.assigned_to == q.assigned_to);
    assert(parsed.due_date == q.due_date);
    assert(parsed.schedule == q.schedule);
    assert(parsed.recurring == q.recurring);
    assert(parsed.priority == q.priority);
    lemma_as_value_round_trip(f);
    reveal_strlit("1");
    reveal_strlit("me");
    reveal_strlit("unassigned");
    reveal_strlit("all");
    reveal_strlit("overdue");
    reveal_strlit("none");
    reveal_strlit("past");
    reveal_strlit("no");
    let c = canonical_query(f);
    assert(from_query_spec(parsed).show_complete == from_query_spec(c).show_complete);
    assert(from_query_spec(parsed).assigned_to == from_query_spec(c).assigned_to);
    assert(from_query_spec(parsed).due_date == from_query_spec(c).due_date);
    assert(from_query_spec(parsed).schedule == from_query_spec(c).schedule);
    assert(from_query_spec(parsed).recurring == from_query_spec(c).recurring);
    assert(from_query_spec(parsed).priority == from_query_spec(c).priority) by {
        assert(parse_i32_spec(Seq::<char>::empty()) is None);
    }
}

proof fn lemma_part_origin(
    a1: Seq<Seq<char>>, a2: Seq<Seq<char>>, a3: Seq<Seq<char>>,
    a4: Seq<Seq<char>>, a5: Seq<Seq<char>>, a6: Seq<Seq<char>>,
    i: int,
    vals: Seq<Option<Seq<char>>>,
    keys: Seq<Seq<char>>,
)
    requires
        vals.len() == 6,
        keys.len() == 6,
        a1 == kv(keys[0], vals[0]),
        a2 == kv(keys[1], vals[1]),
        a3 == kv(keys[2], vals[2]),
        a4 == kv(keys[3], vals[3]),
        a5 == kv(keys[4], vals[4]),
        a6 == kv(keys[5], vals[5]),
        forall|j: int| 0 <= j < 6 ==> !(#[trigger] keys[j]).contains('&'),
        forall|j: int| 0 <= j < 6 ==> ((#[trigger] vals[j]) matches Some(x) ==> !x.contains('&')),
        0 <= i < (a1 + a2 + a3 + a4 + a5 + a6).len(),
    ensures
        exists|key: Seq<char>, v: Seq<char>|
            (a1 + a2 + a3 + a4 + a5 + a6)[i] == key + v && !key.contains('&') && !v.contains('&'),
{
    let all = a1 + a2 + a3 + a4 + a5 + a6;
    let segs = seq![a1, a2, a3, a4, a5, a6];
    // Every piece comes from one of the six segments.
    assert forall|j: int| 0 <= j < 6 implies (#[trigger] segs[j]).len() <= 1 && (segs[j].len() == 1 ==> (vals[j] matches Some(x) && segs[j][0] == keys[j] + x)) by {}
    let b1 = a1.len();
    let b2 = b1 + a2.len();
    let b3 = b2 + a3.len();
    let b4 = b3 + a4.len();
    let b5 = b4 + a5.len();
    let j = if i < b1 { 0 } else if i < b2 { 1 } else if i < b3 { 2 } else if i < b4 { 3 } else if i < b5 { 4 } else { 5 };
    let off = if j == 0 { 0 } else if j == 1 { b1 } else if j == 2 { b2 } else if j == 3 { b3 } else if j == 4 { b4 } else { b5 };
    assert(all[i] == segs[j][i - off]);
    assert(segs[j].len() == 1);
    let x = vals[j]->0;
    assert(all[i] == keys[j] + x);
}

} // verus!
