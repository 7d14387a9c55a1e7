//! Values the repositories hand back, their error, how a stored item row reads back as an
//! item, and the decision part of the storage writes that are more than one statement:
//! which rows an auto-reminder sync touches.
use vstd::prelude::*;
use crate::domain::{Item, ItemKind, opt_view, copy_str, clone_opt};
use crate::dates::{MIN_DAY, MAX_DAY, UNIX_EPOCH_DAY, SECS_PER_DAY};
use crate::text::str_eq;

verus! {

/// A user account.
#[derive(Clone, Debug)]
pub struct User {
    pub id: String,
    pub email: String,
    pub first_name: String,
    pub last_name: String,
    pub personal_project_id: Option<String>,
}

/// A team.
#[derive(Clone, Debug)]
pub struct Team {
    pub id: String,
    pub name: String,
}

/// A member's role in a team or project.
#[derive(Clone, Copy, Debug, PartialEq, Eq, Structural)]
pub enum TeamRole {
    Admin,
    Member,
}

/// An item with a date, together with its parent's name (empty for a top-level item).
pub struct DueItem {
    pub item: Item,
    pub parent_name: String,
}

pub struct TeamWithStatus {
    pub team: Team,
    pub status: String,
    pub invited_by_name: Option<String>,
}

pub struct TeamMemberInfo {
    pub user: User,
    pub status: String,
    pub role: TeamRole,
    pub points: i32,
}

/// A project member: the owner, or an active member synced in from an attached team.
pub struct ProjectMemberInfo {
    pub user: User,
    pub role: TeamRole,
    pub points: i32,
}

#[derive(Debug)]
pub enum RepoError {
    NotFound,
    Internal(String),
}

pub fn not_found() -> (r: RepoError)
    ensures
        r is NotFound,
{
    RepoError::NotFound
}

// ---- auto-reminder sync -------------------------------------------------------

/// An existing automatic reminder row of an item: its id, kind and when it fires.
pub struct AutoReminderRow {
    pub id: String,
    pub kind: String,
    pub remind_at: i64,
}

/// One write of an auto-reminder sync. A row whose firing time is unchanged gets no write
/// at all, so its `sent_at` (a dismissal) survives an unrelated edit of the item.
pub enum ReminderSyncStep {
    /// Move the row to a new firing time and clear its `sent_at`.
    Reschedule { id: String, remind_at: i64 },
    /// Add a new automatic reminder of this kind.
    Insert { kind: String, remind_at: i64 },
    /// Remove the row: its kind is no longer wanted.
    Delete { id: String },
}

pub enum StepView {
    Reschedule { id: Seq<char>, remind_at: i64 },
    Insert { kind: Seq<char>, remind_at: i64 },
    Delete { id: Seq<char> },
}

impl View for ReminderSyncStep {
    type V = StepView;

    open spec fn view(&self) -> StepView {
        match self {
            ReminderSyncStep::Reschedule { id, remind_at } => StepView::Reschedule {
                id: id@,
                remind_at: *remind_at,
            },
            ReminderSyncStep::Insert { kind, remind_at } => StepView::Insert {
                kind: kind@,
                remind_at: *remind_at,
            },
            ReminderSyncStep::Delete { id } => StepView::Delete { id: id@ },
        }
    }
}

pub open spec fn steps_view(s: Seq<ReminderSyncStep>) -> Seq<StepView> {
    s.map_values(|x: ReminderSyncStep| x@)
}

/// The index of the first row of kind `kind`.
pub open spec fn first_of_kind(rows: Seq<AutoReminderRow>, kind: Seq<char>) -> Option<int>
    decreases rows.len(),
{
    if rows.len() == 0 {
        None
    } else if rows[0].kind@ == kind {
        Some(0)
    } else {
        match first_of_kind(rows.drop_first(), kind) {
            Some(i) => Some(i + 1),
            None => None,
        }
    }
}

/// The write (if any) that one wanted (kind, firing time) pair calls for.
pub open spec fn wanted_step(rows: Seq<AutoReminderRow>, kind: Seq<char>, at: i64) -> Seq<
    StepView,
> {
    match first_of_kind(rows, kind) {
        Some(i) => if rows[i].remind_at == at {
            Seq::<StepView>::empty()
        } else {
            seq![StepView::Reschedule { id: rows[i].id@, remind_at: at }]
        },
        None => seq![StepView::Insert { kind, remind_at: at }],
    }
}

pub open spec fn wanted_steps(rows: Seq<AutoReminderRow>, wanted: Seq<(String, i64)>) -> Seq<
    StepView,
>
    decreases wanted.len(),
{
    if wanted.len() == 0 {
        Seq::<StepView>::empty()
    } else {
        wanted_steps(rows, wanted.drop_last()) + wanted_step(
            rows,
            wanted.last().0@,
            wanted.last().1,
        )
    }
}

pub open spec fn kind_wanted(wanted: Seq<(String, i64)>, kind: Seq<char>) -> bool {
    exists|j: int| 0 <= j < wanted.len() && wanted[j].0@ == kind
}

pub open spec fn stale_steps(rows: Seq<AutoReminderRow>, wanted: Seq<(String, i64)>) -> Seq<
    StepView,
>
    decreases rows.len(),
{
    if rows.len() == 0 {
        Seq::<StepView>::empty()
    } else {
        let init = stale_steps(rows.drop_last(), wanted);
        if kind_wanted(wanted, rows.last().kind@) {
            init
        } else {
            init.push(StepView::Delete { id: rows.last().id@ })
        }
    }
}

/// The writes of an auto-reminder sync, in order: for each wanted (kind, time) pair, a
/// reschedule of the first existing row of that kind when its time differs, or an insert
/// when there is none; then a delete of every existing row whose kind is not wanted.
pub open spec fn sync_plan_spec(rows: Seq<AutoReminderRow>, wanted: Seq<(String, i64)>) -> Seq<
    StepView,
> {
    wanted_steps(rows, wanted) + stale_steps(rows, wanted)
}

fn find_kind(rows: &Vec<AutoReminderRow>, kind: &str) -> (r: Option<usize>)
    ensures
        match r {
            Some(i) => first_of_kind(rows@, kind@) == Some(i as int) && i < rows@.len(),
            None => first_of_kind(rows@, kind@) is None,
        },
{
    let mut i: usize = 0;
    assert(rows@.skip(0) =~= rows@);
    while i < rows.len()
        invariant
            i <= rows@.len(),
            first_of_kind(rows@, kind@) == (match first_of_kind(rows@.skip(i as int), kind@) {
                Some(k) => Some(k + i),
                None => None,
            }),
        decreases rows@.len() - i,
    {
        let ghost rest = rows@.skip(i as int);
        assert(rest.drop_first() =~= rows@.skip(i + 1));
        if str_eq(rows[i].kind.as_str(), kind) {
            assert(rest[0] == rows@[i as int]);
            return Some(i);
        }
        i = i + 1;
    }
    assert(rows@.skip(i as int) =~= Seq::<AutoReminderRow>::empty());
    None
}

fn wanted_has_kind(wanted: &Vec<(String, i64)>, kind: &str) -> (r: bool)
    ensures
        r == kind_wanted(wanted@, kind@),
{
    let mut j: usize = 0;
    while j < wanted.len()
        invariant
            j <= wanted@.len(),
            forall|q: int| 0 <= q < j ==> wanted@[q].0@ != kind@,
        decreases wanted@.len() - j,
    {
        if str_eq(wanted[j].0.as_str(), kind) {
            return true;
        }
        j = j + 1;
    }
    false
}

/// Decides the writes that bring an item's automatic reminders (`existing`) in line with
/// the wanted (kind, firing time) pairs.
pub fn plan_auto_reminder_sync(existing: &Vec<AutoReminderRow>, wanted: &Vec<(String, i64)>) -> (r:
    Vec<ReminderSyncStep>)
    ensures
        steps_view(r@) == sync_plan_spec(existing@, wanted@),
{
    let mut steps: Vec<ReminderSyncStep> = Vec::new();
    let mut j: usize = 0;
    assert(wanted@.take(0) =~= Seq::<(String, i64)>::empty());
    assert(steps_view(steps@) =~= Seq::<StepView>::empty());
    while j < wanted.len()
        invariant
            j <= wanted@.len(),
            steps_view(steps@) == wanted_steps(existing@, wanted@.take(j as int)),
        decreases wanted@.len() - j,
    {
        let ghost before = steps_view(steps@);
        let kind = &wanted[j].0;
        let at = wanted[j].1;
        assert(wanted@.take(j + 1).drop_last() =~= wanted@.take(j as int));
        assert(wanted@.take(j + 1).last() == wanted@[j as int]);
        match find_kind(existing, kind.as_str()) {
            Some(i) => {
                if existing[i].remind_at != at {
                    steps.push(
                        ReminderSyncStep::Reschedule { id: copy_str(&existing[i].id), remind_at: at },
                    );
                    assert(steps_view(steps@) =~= before + wanted_step(existing@, kind@, at));
                } else {
                    assert(steps_view(steps@) =~= before + wanted_step(existing@, kind@, at));
                }
            },
            None => {
                steps.push(ReminderSyncStep::Insert { kind: copy_str(kind), remind_at: at });
                assert(steps_view(steps@) =~= before + wanted_step(existing@, kind@, at));
            },
        }
        j = j + 1;
    }
    assert(wanted@.take(wanted@.len() as int) =~= wanted@);
    let ghost head = steps_view(steps@);
    let mut i: usize = 0;
    assert(existing@.take(0) =~= Seq::<AutoReminderRow>::empty());
    assert(steps_view(steps@) =~= head + stale_steps(existing@.take(0), wanted@));
    while i < existing.len()
        invariant
            i <= existing@.len(),
            head == wanted_steps(existing@, wanted@),
            steps_view(steps@) == head + stale_steps(existing@.take(i as int), wanted@),
        decreases existing@.len() - i,
    {
        let ghost before = steps_view(steps@);
        assert(existing@.take(i + 1).drop_last() =~= existing@.take(i as int));
        assert(existing@.take(i + 1).last() == existing@[i as int]);
        if !wanted_has_kind(wanted, existing[i].kind.as_str()) {
            steps.push(ReminderSyncStep::Delete { id: copy_str(&existing[i].id) });
            assert(steps_view(steps@) =~= before.push(StepView::Delete { id: existing@[i as int].id@ }));
            assert(steps_view(steps@) =~= head + stale_steps(existing@.take(i + 1), wanted@));
        } else {
            assert(steps_view(steps@) =~= head + stale_steps(existing@.take(i + 1), wanted@));
        }
        i = i + 1;
    }
    assert(existing@.take(existing@.len() as int) =~= existing@);
    steps
}

// ---- laws -------------------------------------------------------------------

pub open spec fn step_touches(s: StepView, id: Seq<char>) -> bool {
    match s {
        StepView::Reschedule { id: x, .. } => x == id,
        StepView::Delete { id: x } => x == id,
        StepView::Insert { .. } => false,
    }
}

proof fn lemma_first_of_kind_is_first(rows: Seq<AutoReminderRow>, kind: Seq<char>)
    ensures
        match first_of_kind(rows, kind) {
            Some(i) => 0 <= i < rows.len() && rows[i].kind@ == kind && forall|k: int|
                0 <= k < i ==> rows[k].kind@ != kind,
            None => forall|k: int| 0 <= k < rows.len() ==> rows[k].kind@ != kind,
        },
    decreases rows.len(),
{
    if rows.len() > 0 {
        lemma_first_of_kind_is_first(rows.drop_first(), kind);
        if rows[0].kind@ != kind {
            match first_of_kind(rows.drop_first(), kind) {
                Some(i) => {
                    assert forall|k: int| 0 <= k < i + 1 implies rows[k].kind@ != kind by {
                        if k > 0 {
                            assert(rows[k] == rows.drop_first()[k - 1]);
                        }
                    }
                },
                None => {
                    assert forall|k: int| 0 <= k < rows.len() implies rows[k].kind@ != kind by {
                        if k > 0 {
                            assert(rows[k] == rows.drop_first()[k - 1]);
                        }
                    }
                },
            }
        }
    }
}

/// A row kept at its firing time — the first row of a wanted kind whose every wanted time
/// equals its own — is never written, so its `sent_at` survives the sync.
pub proof fn lemma_sync_keeps_unchanged_rows(
    rows: Seq<AutoReminderRow>,
    wanted: Seq<(String, i64)>,
    i: int,
)
    requires
        0 <= i < rows.len(),
        forall|k: int| 0 <= k < i ==> rows[k].kind@ != rows[i].kind@,
        forall|k: int| 0 <= k < rows.len() && k != i ==> rows[k].id@ != rows[i].id@,
        kind_wanted(wanted, rows[i].kind@),
        forall|j: int|
            0 <= j < wanted.len() && wanted[j].0@ == rows[i].kind@ ==> wanted[j].1
                == rows[i].remind_at,
    ensures
        forall|s: int|
            0 <= s < sync_plan_spec(rows, wanted).len() ==> !step_touches(
                #[trigger] sync_plan_spec(rows, wanted)[s],
                rows[i].id@,
            ),
    decreases wanted.len(),
{
    lemma_first_of_kind_is_first(rows, rows[i].kind@);
    lemma_wanted_steps_skip_row(rows, wanted, i);
    lemma_stale_steps_skip_row(rows, wanted, i, rows.len() as int);
    let plan = sync_plan_spec(rows, wanted);
    let a = wanted_steps(rows, wanted);
    let b = stale_steps(rows, wanted);
    assert(rows.take(rows.len() as int) =~= rows);
    assert forall|s: int| 0 <= s < plan.len() implies !step_touches(
        #[trigger] plan[s],
        rows[i].id@,
    ) by {
        if s < a.len() {
            assert(plan[s] == a[s]);
        } else {
            assert(plan[s] == b[s - a.len()]);
        }
    }
}

proof fn lemma_wanted_steps_skip_row(rows: Seq<AutoReminderRow>, wanted: Seq<(String, i64)>, i: int)
    requires
        0 <= i < rows.len(),
        first_of_kind(rows, rows[i].kind@) == Some(i),
        forall|k: int| 0 <= k < rows.len() && k != i ==> rows[k].id@ != rows[i].id@,
        forall|j: int|
            0 <= j < wanted.len() && wanted[j].0@ == rows[i].kind@ ==> wanted[j].1
                == rows[i].remind_at,
    ensures
        forall|s: int|
            0 <= s < wanted_steps(rows, wanted).len() ==> !step_touches(
                #[trigger] wanted_steps(rows, wanted)[s],
                rows[i].id@,
            ),
    decreases wanted.len(),
{
    if wanted.len() > 0 {
        let init = wanted.drop_last();
        assert forall|j: int|
            0 <= j < init.len() && init[j].0@ == rows[i].kind@ implies init[j].1
            == rows[i].remind_at by {
            assert(init[j] == wanted[j]);
        }
        lemma_wanted_steps_skip_row(rows, init, i);
        let kind = wanted.last().0@;
        lemma_first_of_kind_is_first(rows, kind);
        let a = wanted_steps(rows, init);
        let b = wanted_step(rows, kind, wanted.last().1);
        let all = wanted_steps(rows, wanted);
        assert(all == a + b);
        assert forall|s: int| 0 <= s < all.len() implies !step_touches(
            #[trigger] all[s],
            rows[i].id@,
        ) by {
            if s < a.len() {
                assert(all[s] == a[s]);
            } else {
                assert(all[s] == b[s - a.len()]);
                match first_of_kind(rows, kind) {
                    Some(k) => {
                        if k == i {
                            assert(wanted[wanted.len() - 1].0@ == rows[i].kind@);
                        }
                    },
                    None => {},
                }
            }
        }
    }
}

proof fn lemma_stale_steps_skip_row(
    rows: Seq<AutoReminderRow>,
    wanted: Seq<(String, i64)>,
    i: int,
    n: int,
)
    requires
        0 <= i < rows.len(),
        0 <= n <= rows.len(),
        forall|k: int| 0 <= k < rows.len() && k != i ==> rows[k].id@ != rows[i].id@,
        kind_wanted(wanted, rows[i].kind@),
    ensures
        forall|s: int|
            0 <= s < stale_steps(rows.take(n), wanted).len() ==> !step_touches(
                #[trigger] stale_steps(rows.take(n), wanted)[s],
                rows[i].id@,
            ),
    decreases n,
{
    if n > 0 {
        lemma_stale_steps_skip_row(rows, wanted, i, n - 1);
        assert(rows.take(n).drop_last() =~= rows.take(n - 1));
        assert(rows.take(n).last() == rows[n - 1]);
        let init = stale_steps(rows.take(n - 1), wanted);
        let full = stale_steps(rows.take(n), wanted);
        if !kind_wanted(wanted, rows[n - 1].kind@) {
            assert(n - 1 != i);
            assert(full == init.push(StepView::Delete { id: rows[n - 1].id@ }));
            assert forall|s: int| 0 <= s < full.len() implies !step_touches(
                #[trigger] full[s],
                rows[i].id@,
            ) by {
                if s < init.len() {
                    assert(full[s] == init[s]);
                }
            }
        } else {
            assert(full == init);
        }
    }
}

/// A row whose kind is no longer wanted is deleted.
pub proof fn lemma_sync_deletes_unwanted_kinds(
    rows: Seq<AutoReminderRow>,
    wanted: Seq<(String, i64)>,
    i: int,
)
    requires
        0 <= i < rows.len(),
        !kind_wanted(wanted, rows[i].kind@),
    ensures
        sync_plan_spec(rows, wanted).contains(StepView::Delete { id: rows[i].id@ }),
{
    lemma_stale_contains(rows, wanted, i, rows.len() as int);
    assert(rows.take(rows.len() as int) =~= rows);
    let a = wanted_steps(rows, wanted);
    let b = stale_steps(rows, wanted);
    let k = choose|k: int| 0 <= k < b.len() && b[k] == StepView::Delete { id: rows[i].id@ };
    assert(sync_plan_spec(rows, wanted)[a.len() + k] == b[k]);
}

proof fn lemma_stale_contains(rows: Seq<AutoReminderRow>, wanted: Seq<(String, i64)>, i: int, n: int)
    requires
        0 <= i < n <= rows.len(),
        !kind_wanted(wanted, rows[i].kind@),
    ensures
        stale_steps(rows.take(n), wanted).contains(StepView::Delete { id: rows[i].id@ }),
    decreases n,
{
    assert(rows.take(n).drop_last() =~= rows.take(n - 1));
    assert(rows.take(n).last() == rows[n - 1]);
    let init = stale_steps(rows.take(n - 1), wanted);
    if i < n - 1 {
        lemma_stale_contains(rows, wanted, i, n - 1);
        let k = choose|k: int| 0 <= k < init.len() && init[k] == StepView::Delete { id: rows[i].id@ };
        if !kind_wanted(wanted, rows[n - 1].kind@) {
            assert(init.push(StepView::Delete { id: rows[n - 1].id@ })[k] == init[k]);
        }
    } else {
        let full = init.push(StepView::Delete { id: rows[i].id@ });
        assert(full[init.len() as int] == StepView::Delete { id: rows[i].id@ });
    }
}

/// A wanted kind whose first row fires at another time is rescheduled (clearing `sent_at`).
pub proof fn lemma_sync_reschedules_moved_rows(
    rows: Seq<AutoReminderRow>,
    wanted: Seq<(String, i64)>,
    j: int,
    i: int,
)
    requires
        0 <= j < wanted.len(),
        first_of_kind(rows, wanted[j].0@) == Some(i),
        rows[i].remind_at != wanted[j].1,
    ensures
        sync_plan_spec(rows, wanted).contains(
            StepView::Reschedule { id: rows[i].id@, remind_at: wanted[j].1 },
        ),
{
    lemma_wanted_contains(rows, wanted, j, i, wanted.len() as int);
    assert(wanted.take(wanted.len() as int) =~= wanted);
    let a = wanted_steps(rows, wanted);
    let step = StepView::Reschedule { id: rows[i].id@, remind_at: wanted[j].1 };
    let k = choose|k: int| 0 <= k < a.len() && a[k] == step;
    assert(sync_plan_spec(rows, wanted)[k] == a[k]);
}

proof fn lemma_wanted_contains(
    rows: Seq<AutoReminderRow>,
    wanted: Seq<(String, i64)>,
    j: int,
    i: int,
    n: int,
)
    requires
        0 <= j < n <= wanted.len(),
        first_of_kind(rows, wanted[j].0@) == Some(i),
        rows[i].remind_at != wanted[j].1,
    ensures
        wanted_steps(rows, wanted.take(n)).contains(
            StepView::Reschedule { id: rows[i].id@, remind_at: wanted[j].1 },
        ),
    decreases n,
{
    let w = wanted.take(n);
    assert(w.drop_last() =~= wanted.take(n - 1));
    assert(w.last() == wanted[n - 1]);
    let step = StepView::Reschedule { id: rows[i].id@, remind_at: wanted[j].1 };
    let init = wanted_steps(rows, wanted.take(n - 1));
    let tail = wanted_step(rows, wanted[n - 1].0@, wanted[n - 1].1);
    assert(wanted_steps(rows, w) == init + tail);
    if j < n - 1 {
        lemma_wanted_contains(rows, wanted, j, i, n - 1);
        let k = choose|k: int| 0 <= k < init.len() && init[k] == step;
        assert((init + tail)[k] == init[k]);
    } else {
        assert(tail == seq![step]);
        assert((init + tail)[init.len() as int] == step);
    }
}

// ---- reading an item row ------------------------------------------------------

/// The columns of an `items` row, as stored.
#[derive(Debug, Clone, Default)]
pub struct ItemRow {
    pub id: String,
    pub parent_item_id: Option<String>,
    pub name: String,
    pub description: Option<String>,
    pub due_date: Option<i64>,
    pub scheduled_date: Option<i64>,
    pub scheduled_end_date: Option<i64>,
    pub complete: Option<i64>,
    pub has_due_time: Option<i64>,
    pub has_scheduled_time: Option<i64>,
    pub has_end_time: Option<i64>,
    pub item_type: Option<String>,
    pub event_type: Option<String>,
    pub due_offset_days: Option<i32>,
    pub assigned_to_user_id: Option<String>,
    pub points: Option<i32>,
    pub source_event_id: Option<String>,
    pub series_id: Option<String>,
    pub google_event_id: Option<String>,
    pub has_children: Option<i64>,
}

/// Whether chrono represents the instant `secs` (its day lies in chrono's date range).
pub open spec fn timestamp_in_range(secs: int) -> bool {
    MIN_DAY <= secs / (SECS_PER_DAY as int) + UNIX_EPOCH_DAY <= MAX_DAY
}

/// `DateTime::from_timestamp(secs, 0).is_some()`: it gives a value exactly when the day
/// `secs.div_euclid(86_400) + 719_163` is a day `NaiveDate` represents.
#[verifier::external_body]
pub(crate) fn representable(secs: i64) -> (r: bool)
    ensures
        r == timestamp_in_range(secs as int),
{
    chrono::DateTime::from_timestamp(secs, 0).is_some()
}

/// A stored instant column: unset, or out of chrono's range, reads as no date.
pub open spec fn instant_column(c: Option<i64>) -> Option<i64> {
    match c {
        Some(s) => if timestamp_in_range(s as int) {
            Some(s)
        } else {
            None
        },
        None => None,
    }
}

fn read_instant(c: Option<i64>) -> (r: Option<i64>)
    ensures
        r == instant_column(c),
{
    match c {
        Some(s) => if representable(s) {
            Some(s)
        } else {
            None
        },
        None => None,
    }
}

/// A stored flag: set and non-zero.
pub open spec fn flag_column(c: Option<i64>) -> bool {
    match c {
        Some(v) => v != 0,
        None => false,
    }
}

/// The stored type: `TASK`, `EVENT`, `SIMPLE` or `TEMPLATE`; anything else reads as a Task
/// (the column's default).
pub open spec fn kind_column(c: Option<Seq<char>>) -> ItemKind {
    if c == Some("EVENT"@) {
        ItemKind::Event
    } else if c == Some("SIMPLE"@) {
        ItemKind::Simple
    } else if c == Some("TEMPLATE"@) {
        ItemKind::Template
    } else {
        ItemKind::Task
    }
}

fn read_kind(c: &Option<String>) -> (r: ItemKind)
    ensures
        r == kind_column(opt_view(*c)),
{
    if crate::domain::opt_str_is(c, "EVENT") {
        ItemKind::Event
    } else if crate::domain::opt_str_is(c, "SIMPLE") {
        ItemKind::Simple
    } else if crate::domain::opt_str_is(c, "TEMPLATE") {
        ItemKind::Template
    } else {
        ItemKind::Task
    }
}

/// The item a row stores. What an item carries depends on its kind: a Simple item has no
/// dates and no recurrence offset; only an Event or Template has an event type; only a
/// Task carries an assignee, points and a referenced Event.
pub fn item_from_row(row: &ItemRow) -> (r: Item)
    ensures
        r.id@ == row.id@,
        opt_view(r.parent_item_id) == opt_view(row.parent_item_id),
        r.name@ == row.name@,
        opt_view(r.description) == opt_view(row.description),
        r.kind == kind_column(opt_view(row.item_type)),
        r.complete == flag_column(row.complete),
        r.has_children == flag_column(row.has_children),
        opt_view(r.series_id) == opt_view(row.series_id),
        opt_view(r.google_event_id) == opt_view(row.google_event_id),
        r.priority is None,
        r.kind == ItemKind::Simple ==> {
            &&& r.due_date is None && r.scheduled_date is None && r.scheduled_end_date is None
            &&& !r.has_due_time && !r.has_scheduled_time && !r.has_end_time
            &&& r.due_offset_days is None
        },
        r.kind != ItemKind::Simple ==> {
            &&& r.due_date == instant_column(row.due_date)
            &&& r.scheduled_date == instant_column(row.scheduled_date)
            &&& r.scheduled_end_date == instant_column(row.scheduled_end_date)
            &&& r.has_due_time == flag_column(row.has_due_time)
            &&& r.has_scheduled_time == flag_column(row.has_scheduled_time)
            &&& r.has_end_time == flag_column(row.has_end_time)
            &&& r.due_offset_days == row.due_offset_days
        },
        opt_view(r.event_type) == (if r.kind == ItemKind::Event || r.kind == ItemKind::Template {
            opt_view(row.event_type)
        } else {
            None
        }),
        r.kind == ItemKind::Task ==> {
            &&& opt_view(r.assigned_to_user_id) == opt_view(row.assigned_to_user_id)
            &&& r.points == row.points
            &&& opt_view(r.source_event_id) == opt_view(row.source_event_id)
        },
        r.kind != ItemKind::Task ==> r.assigned_to_user_id is None && r.points is None && r.source_event_id is None,
{
    let kind = read_kind(&row.item_type);
    let dated = kind != ItemKind::Simple;
    let is_task = kind == ItemKind::Task;
    let typed = kind == ItemKind::Event || kind == ItemKind::Template;
    Item {
        id: copy_str(&row.id),
        name: copy_str(&row.name),
        description: clone_opt(&row.description),
        kind,
        complete: match row.complete {
            Some(v) => v != 0,
            None => false,
        },
        due_date: if dated { read_instant(row.due_date) } else { None },
        scheduled_date: if dated { read_instant(row.scheduled_date) } else { None },
        scheduled_end_date: if dated { read_instant(row.scheduled_end_date) } else { None },
        has_due_time: dated && match row.has_due_time {
            Some(v) => v != 0,
            None => false,
        },
        has_scheduled_time: dated && match row.has_scheduled_time {
            Some(v) => v != 0,
            None => false,
        },
        has_end_time: dated && match row.has_end_time {
            Some(v) => v != 0,
            None => false,
        },
        assigned_to_user_id: if is_task { clone_opt(&row.assigned_to_user_id) } else { None },
        priority: None,
        series_id: clone_opt(&row.series_id),
        parent_item_id: clone_opt(&row.parent_item_id),
        has_children: match row.has_children {
            Some(v) => v != 0,
            None => false,
        },
        event_type: if typed { clone_opt(&row.event_type) } else { None },
        google_event_id: clone_opt(&row.google_event_id),
        due_offset_days: if dated { row.due_offset_days } else { None },
        source_event_id: if is_task { clone_opt(&row.source_event_id) } else { None },
        points: if is_task { row.points } else { None },
    }
}

// ---- the table an auto-reminder sync leaves ----------------------------------------

/// A reminder row of the table as the sync sees it: its id (`None` for a row the sync
/// inserts, whose id is freshly made), its kind and its firing time.
pub type TableRow = (Option<Seq<char>>, Seq<char>, i64);

/// The automatic reminder rows of an item, as table rows.
pub open spec fn auto_table(rows: Seq<AutoReminderRow>) -> Seq<TableRow> {
    rows.map_values(|r: AutoReminderRow| (Some(r.id@), r.kind@, r.remind_at))
}

/// The table with the row `id` moved to `at`.
pub open spec fn rescheduled(t: Seq<TableRow>, id: Seq<char>, at: i64) -> Seq<TableRow> {
    t.map_values(|r: TableRow| if r.0 == Some(id) { (r.0, r.1, at) } else { r })
}

/// The table without the row `id`.
pub open spec fn without_id(t: Seq<TableRow>, id: Seq<char>) -> Seq<TableRow>
    decreases t.len(),
{
    if t.len() == 0 {
        t
    } else {
        let init = without_id(t.drop_last(), id);
        if t.last().0 == Some(id) {
            init
        } else {
            init.push(t.last())
        }
    }
}

/// What one write does to the table.
pub open spec fn apply_step(t: Seq<TableRow>, s: StepView) -> Seq<TableRow> {
    match s {
        StepView::Reschedule { id, remind_at } => rescheduled(t, id, remind_at),
        StepView::Insert { kind, remind_at } => t.push((None, kind, remind_at)),
        StepView::Delete { id } => without_id(t, id),
    }
}

/// What the writes, in order, do to the table.
pub open spec fn apply_steps(t: Seq<TableRow>, steps: Seq<StepView>) -> Seq<TableRow>
    decreases steps.len(),
{
    if steps.len() == 0 {
        t
    } else {
        apply_step(apply_steps(t, steps.drop_last()), steps.last())
    }
}

/// The (id, firing time) of each row of kind `k`, in table order.
pub open spec fn kind_rows(t: Seq<TableRow>, k: Seq<char>) -> Seq<(Option<Seq<char>>, i64)>
    decreases t.len(),
{
    if t.len() == 0 {
        Seq::empty()
    } else {
        let init = kind_rows(t.drop_last(), k);
        if t.last().1 == k {
            init.push((t.last().0, t.last().2))
        } else {
            init
        }
    }
}

/// The time the last wanted pair of kind `k` asks for.
pub open spec fn wanted_at(wanted: Seq<(String, i64)>, k: Seq<char>) -> Option<i64>
    decreases wanted.len(),
{
    if wanted.len() == 0 {
        None
    } else if wanted.last().0@ == k {
        Some(wanted.last().1)
    } else {
        wanted_at(wanted.drop_last(), k)
    }
}

/// No two rows share an id, and no two share a kind.
pub open spec fn rows_distinct(rows: Seq<AutoReminderRow>) -> bool {
    &&& forall|a: int, b: int| 0 <= a < b < rows.len() ==> (#[trigger] rows[a]).id@ != (#[trigger] rows[b]).id@
    &&& forall|a: int, b: int| 0 <= a < b < rows.len() ==> (#[trigger] rows[a]).kind@ != (#[trigger] rows[b]).kind@
}

/// No kind is wanted twice.
pub open spec fn wanted_distinct(wanted: Seq<(String, i64)>) -> bool {
    forall|a: int, b: int| 0 <= a < b < wanted.len() ==> (#[trigger] wanted[a]).0@ != (#[trigger] wanted[b]).0@
}

/// The rows of kind `k` a table holds after a sync: none when `k` is not wanted; when it
/// is, one row at the wanted time, which is the item's existing row of that kind if there
/// was one and a new row otherwise.
pub open spec fn synced_kind_rows(rows: Seq<AutoReminderRow>, wanted: Seq<(String, i64)>, k: Seq<char>) -> Seq<
    (Option<Seq<char>>, i64),
> {
    match wanted_at(wanted, k) {
        None => Seq::empty(),
        Some(a) => match first_of_kind(rows, k) {
            Some(i) => seq![(Some(rows[i].id@), a)],
            None => seq![(None, a)],
        },
    }
}

proof fn lemma_apply_steps_concat(t: Seq<TableRow>, a: Seq<StepView>, b: Seq<StepView>)
    ensures
        apply_steps(t, a + b) == apply_steps(apply_steps(t, a), b),
    decreases b.len(),
{
    if b.len() == 0 {
        assert(a + b =~= a);
    } else {
        assert((a + b).drop_last() =~= a + b.drop_last());
        assert((a + b).last() == b.last());
        lemma_apply_steps_concat(t, a, b.drop_last());
    }
}

proof fn lemma_kind_rows_rescheduled(t: Seq<TableRow>, id: Seq<char>, at: i64, k: Seq<char>)
    ensures
        kind_rows(rescheduled(t, id, at), k) == kind_rows(t, k).map_values(
            |e: (Option<Seq<char>>, i64)| if e.0 == Some(id) { (e.0, at) } else { e },
        ),
    decreases t.len(),
{
    if t.len() > 0 {
        lemma_kind_rows_rescheduled(t.drop_last(), id, at, k);
        assert(rescheduled(t, id, at).drop_last() =~= rescheduled(t.drop_last(), id, at));
        let r = kind_rows(t, k).map_values(
            |e: (Option<Seq<char>>, i64)| if e.0 == Some(id) { (e.0, at) } else { e },
        );
        let r0 = kind_rows(t.drop_last(), k).map_values(
            |e: (Option<Seq<char>>, i64)| if e.0 == Some(id) { (e.0, at) } else { e },
        );
        if t.last().1 == k {
            assert(r =~= r0.push(if t.last().0 == Some(id) { (t.last().0, at) } else { (t.last().0, t.last().2) }));
        } else {
            assert(r =~= r0);
        }
    } else {
        assert(kind_rows(rescheduled(t, id, at), k) =~= Seq::<(Option<Seq<char>>, i64)>::empty());
    }
}

/// The (id, time) entries without the id `id`.
pub open spec fn entries_without(es: Seq<(Option<Seq<char>>, i64)>, id: Seq<char>) -> Seq<(Option<Seq<char>>, i64)>
    decreases es.len(),
{
    if es.len() == 0 {
        es
    } else {
        let init = entries_without(es.drop_last(), id);
        if es.last().0 == Some(id) {
            init
        } else {
            init.push(es.last())
        }
    }
}

proof fn lemma_kind_rows_without(t: Seq<TableRow>, id: Seq<char>, k: Seq<char>)
    ensures
        kind_rows(without_id(t, id), k) == entries_without(kind_rows(t, k), id),
    decreases t.len(),
{
    if t.len() > 0 {
        lemma_kind_rows_without(t.drop_last(), id, k);
        let init = without_id(t.drop_last(), id);
        let kr0 = kind_rows(t.drop_last(), k);
        let e = (t.last().0, t.last().2);
        if t.last().1 == k {
            assert(kind_rows(t, k) == kr0.push(e));
            assert(kr0.push(e).drop_last() =~= kr0);
            assert(kr0.push(e).last() == e);
        } else {
            assert(kind_rows(t, k) == kr0);
        }
        if t.last().0 != Some(id) {
            assert(without_id(t, id) == init.push(t.last()));
            assert(init.push(t.last()).drop_last() =~= init);
            assert(init.push(t.last()).last() == t.last());
        } else {
            assert(without_id(t, id) == init);
        }
    }
}

/// With exactly one row of kind `k` at index `i`, the kind's rows are that one; with none,
/// there are none.
proof fn lemma_kind_rows_of_table(rows: Seq<AutoReminderRow>, k: Seq<char>)
    requires
        rows_distinct(rows),
    ensures
        kind_rows(auto_table(rows), k) == (match first_of_kind(rows, k) {
            Some(i) => seq![(Some(rows[i].id@), rows[i].remind_at)],
            None => Seq::<(Option<Seq<char>>, i64)>::empty(),
        }),
{
    lemma_first_of_kind_is_first(rows, k);
    lemma_kind_rows_prefix(rows, k, rows.len() as int);
    assert(rows.take(rows.len() as int) =~= rows);
}

proof fn lemma_kind_rows_prefix(rows: Seq<AutoReminderRow>, k: Seq<char>, n: int)
    requires
        0 <= n <= rows.len(),
        rows_distinct(rows),
    ensures
        kind_rows(auto_table(rows.take(n)), k) == (match first_of_kind(rows, k) {
            Some(i) => if i < n {
                seq![(Some(rows[i].id@), rows[i].remind_at)]
            } else {
                Seq::<(Option<Seq<char>>, i64)>::empty()
            },
            None => Seq::<(Option<Seq<char>>, i64)>::empty(),
        }),
    decreases n,
{
    lemma_first_of_kind_is_first(rows, k);
    if n == 0 {
        assert(auto_table(rows.take(0)) =~= Seq::<TableRow>::empty());
    } else {
        lemma_kind_rows_prefix(rows, k, n - 1);
        assert(auto_table(rows.take(n)).drop_last() =~= auto_table(rows.take(n - 1)));
        assert(auto_table(rows.take(n)).last() == (Some(rows[n - 1].id@), rows[n - 1].kind@, rows[n - 1].remind_at));
        match first_of_kind(rows, k) {
            Some(i) => {
                if i != n - 1 && rows[n - 1].kind@ == k {
                    if i < n - 1 {
                        assert(rows[i].kind@ != rows[n - 1].kind@);
                    }
                }
            },
            None => {},
        }
    }
}

proof fn lemma_wanted_at_is_some(wanted: Seq<(String, i64)>, k: Seq<char>)
    ensures
        (wanted_at(wanted, k) is Some) == kind_wanted(wanted, k),
    decreases wanted.len(),
{
    if wanted.len() > 0 {
        lemma_wanted_at_is_some(wanted.drop_last(), k);
        if kind_wanted(wanted, k) {
            let j = choose|j: int| 0 <= j < wanted.len() && wanted[j].0@ == k;
            if j < wanted.len() - 1 {
                assert(wanted.drop_last()[j] == wanted[j]);
            }
        }
        if kind_wanted(wanted.drop_last(), k) {
            let j = choose|j: int| 0 <= j < wanted.drop_last().len() && wanted.drop_last()[j].0@ == k;
            assert(wanted[j] == wanted.drop_last()[j]);
        }
    }
}

/// What the table of kind `k` holds once the first `j` wanted pairs are written.
pub open spec fn kind_rows_after_wanted(rows: Seq<AutoReminderRow>, w: Seq<(String, i64)>, k: Seq<char>) -> Seq<
    (Option<Seq<char>>, i64),
> {
    match first_of_kind(rows, k) {
        Some(i) => seq![(Some(rows[i].id@), match wanted_at(w, k) {
            Some(a) => a,
            None => rows[i].remind_at,
        })],
        None => match wanted_at(w, k) {
            Some(a) => seq![(None, a)],
            None => Seq::empty(),
        },
    }
}

proof fn lemma_wanted_phase(rows: Seq<AutoReminderRow>, w: Seq<(String, i64)>, k: Seq<char>)
    requires
        rows_distinct(rows),
        wanted_distinct(w),
    ensures
        kind_rows(apply_steps(auto_table(rows), wanted_steps(rows, w)), k) == kind_rows_after_wanted(rows, w, k),
    decreases w.len(),
{
    if w.len() == 0 {
        lemma_kind_rows_of_table(rows, k);
        assert(wanted_steps(rows, w) =~= Seq::<StepView>::empty());
    } else {
        let w0 = w.drop_last();
        let k0 = w.last().0@;
        let a0 = w.last().1;
        assert(wanted_distinct(w0)) by {
            assert forall|a: int, b: int| 0 <= a < b < w0.len() implies (#[trigger] w0[a]).0@ != (#[trigger] w0[b]).0@ by {
                assert(w0[a] == w[a] && w0[b] == w[b]);
            }
        }
        lemma_wanted_phase(rows, w0, k);
        let t0 = apply_steps(auto_table(rows), wanted_steps(rows, w0));
        let st = wanted_step(rows, k0, a0);
        lemma_apply_steps_concat(auto_table(rows), wanted_steps(rows, w0), st);
        let t1 = apply_steps(t0, st);
        // k0 was not wanted before.
        lemma_wanted_at_is_some(w0, k0);
        assert(!kind_wanted(w0, k0)) by {
            if kind_wanted(w0, k0) {
                let j = choose|j: int| 0 <= j < w0.len() && w0[j].0@ == k0;
                assert(w[j] == w0[j]);
                assert(w[j].0@ != w[w.len() - 1].0@);
            }
        }
        lemma_first_of_kind_is_first(rows, k0);
        lemma_first_of_kind_is_first(rows, k);
        match first_of_kind(rows, k0) {
            Some(i) => {
                if rows[i].remind_at == a0 {
                    assert(st =~= Seq::<StepView>::empty());
                    assert(t1 == t0);
                } else {
                    let id = rows[i].id@;
                    assert(st =~= seq![StepView::Reschedule { id, remind_at: a0 }]);
                    assert(st.drop_last() =~= Seq::<StepView>::empty());
                    assert(apply_steps(t0, st.drop_last()) == t0);
                    assert(st.last() == StepView::Reschedule { id, remind_at: a0 });
                    assert(t1 == rescheduled(t0, id, a0));
                    lemma_kind_rows_rescheduled(t0, id, a0, k);
                    let before = kind_rows(t0, k);
                    let after = kind_rows(t1, k);
                    match first_of_kind(rows, k) {
                        Some(m) => {
                            if m != i {
                                if m < i {
                                    assert(rows[m].id@ != rows[i].id@);
                                } else {
                                    assert(rows[i].id@ != rows[m].id@);
                                }
                            }
                            assert(after =~= kind_rows_after_wanted(rows, w, k));
                        },
                        None => {
                            assert(after =~= kind_rows_after_wanted(rows, w, k));
                        },
                    }
                }
            },
            None => {
                assert(st =~= seq![StepView::Insert { kind: k0, remind_at: a0 }]);
                assert(st.drop_last() =~= Seq::<StepView>::empty());
                assert(apply_steps(t0, st.drop_last()) == t0);
                assert(st.last() == StepView::Insert { kind: k0, remind_at: a0 });
                assert(t1 == t0.push((None, k0, a0)));
                assert(t1.drop_last() =~= t0);
            },
        }
    }
}

proof fn lemma_stale_phase(rows: Seq<AutoReminderRow>, w: Seq<(String, i64)>, t: Seq<TableRow>, n: int, k: Seq<char>)
    requires
        rows_distinct(rows),
        0 <= n <= rows.len(),
        forall|kk: Seq<char>| #[trigger] kind_rows(t, kk) == kind_rows_after_wanted(rows, w, kk),
    ensures
        kind_rows(apply_steps(t, stale_steps(rows.take(n), w)), k) == (match first_of_kind(rows, k) {
            Some(i) => if i < n && !kind_wanted(w, k) {
                Seq::<(Option<Seq<char>>, i64)>::empty()
            } else {
                kind_rows_after_wanted(rows, w, k)
            },
            None => kind_rows_after_wanted(rows, w, k),
        }),
    decreases n,
{
    lemma_first_of_kind_is_first(rows, k);
    if n == 0 {
        assert(stale_steps(rows.take(0), w) =~= Seq::<StepView>::empty());
        assert(kind_rows(t, k) == kind_rows_after_wanted(rows, w, k));
    } else {
        lemma_stale_phase(rows, w, t, n - 1, k);
        let pre = rows.take(n);
        assert(pre.drop_last() =~= rows.take(n - 1));
        assert(pre.last() == rows[n - 1]);
        let u0 = apply_steps(t, stale_steps(rows.take(n - 1), w));
        let km = rows[n - 1].kind@;
        if kind_wanted(w, km) {
            assert(stale_steps(pre, w) == stale_steps(rows.take(n - 1), w));
            match first_of_kind(rows, k) {
                Some(i) => {
                    if i == n - 1 {
                        assert(km == k);
                    }
                },
                None => {},
            }
        } else {
            let id = rows[n - 1].id@;
            let x = stale_steps(rows.take(n - 1), w);
            assert(stale_steps(pre, w) == x.push(StepView::Delete { id }));
            assert(x.push(StepView::Delete { id }).drop_last() =~= x);
            assert(x.push(StepView::Delete { id }).last() == StepView::Delete { id });
            assert(apply_steps(t, stale_steps(pre, w)) == without_id(u0, id));
            lemma_kind_rows_without(u0, id, k);
            lemma_wanted_at_is_some(w, km);
            lemma_wanted_at_is_some(w, k);
            lemma_first_of_kind_is_first(rows, km);
            let before = kind_rows(u0, k);
            // The row n - 1 is the one row of its kind.
            assert(first_of_kind(rows, km) == Some(n - 1)) by {
                match first_of_kind(rows, km) {
                    Some(m) => {
                        if m < n - 1 {
                            assert(rows[m].kind@ != rows[n - 1].kind@);
                        }
                    },
                    None => {},
                }
            }
            match first_of_kind(rows, k) {
                Some(i) => {
                    if i == n - 1 {
                        assert(before =~= seq![(Some(id), rows[i].remind_at)]);
                        let e0 = Seq::<(Option<Seq<char>>, i64)>::empty();
                        assert(before.drop_last() =~= e0);
                        assert(entries_without(e0, id) == e0);
                        assert(before.last().0 == Some(id));
                        assert(entries_without(before, id) =~= e0);
                    } else {
                        if i < n - 1 {
                            assert(rows[i].id@ != rows[n - 1].id@);
                        } else {
                            assert(rows[n - 1].id@ != rows[i].id@);
                        }
                        if before.len() == 1 {
                            let e0 = Seq::<(Option<Seq<char>>, i64)>::empty();
                            assert(before.drop_last() =~= e0);
                            assert(entries_without(e0, id) == e0);
                            assert(before.last().0 != Some(id));
                            assert(e0.push(before.last()) =~= before);
                            assert(entries_without(before, id) =~= before);
                        } else {
                            assert(before =~= Seq::<(Option<Seq<char>>, i64)>::empty());
                        }
                    }
                },
                None => {
                    if before.len() == 1 {
                        let e0 = Seq::<(Option<Seq<char>>, i64)>::empty();
                        assert(before.drop_last() =~= e0);
                        assert(entries_without(e0, id) == e0);
                        assert(before.last().0 != Some(id));
                        assert(e0.push(before.last()) =~= before);
                        assert(entries_without(before, id) =~= before);
                    } else {
                        assert(before =~= Seq::<(Option<Seq<char>>, i64)>::empty());
                    }
                },
            }
        }
    }
}

/// The table an auto-reminder sync leaves: with no two existing rows sharing an id or a
/// kind, and no kind wanted twice, carrying out the plan leaves, of every kind, no row when
/// the kind is not wanted, and exactly one row at the wanted time when it is — the existing
/// row of that kind (same id) when there was one, a new row otherwise.
pub proof fn lemma_sync_leaves_wanted_rows(rows: Seq<AutoReminderRow>, wanted: Seq<(String, i64)>, k: Seq<char>)
    requires
        rows_distinct(rows),
        wanted_distinct(wanted),
    ensures
        kind_rows(apply_steps(auto_table(rows), sync_plan_spec(rows, wanted)), k) == synced_kind_rows(rows, wanted, k),
{
    let t = apply_steps(auto_table(rows), wanted_steps(rows, wanted));
    assert forall|kk: Seq<char>| #[trigger] kind_rows(t, kk) == kind_rows_after_wanted(rows, wanted, kk) by {
        lemma_wanted_phase(rows, wanted, kk);
    }
    lemma_apply_steps_concat(auto_table(rows), wanted_steps(rows, wanted), stale_steps(rows, wanted));
    lemma_stale_phase(rows, wanted, t, rows.len() as int, k);
    assert(rows.take(rows.len() as int) =~= rows);
    lemma_wanted_at_is_some(wanted, k);
    lemma_first_of_kind_is_first(rows, k);
}

} // verus!
