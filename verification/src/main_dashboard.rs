//! The dashboards' date presets: which window of due dates a preset selects, in the
//! user's local day, and the window of virtual occurrences shown beside it.
use vstd::prelude::*;
use crate::dates::{day_of, day_of_spec, to_local, to_local_spec, UNIX_EPOCH_DAY, SECS_PER_DAY};
use crate::domain::ts_ok;
use crate::text::str_eq;

verus! {

/// The dashboard's query: the preset (default "Today") and whether completed items show.
#[derive(Debug, Default, Clone)]
pub struct MainDashboardQuery {
    pub preset: Option<String>,
    pub show_complete: Option<String>,
}

/// The month the dashboard calendar shows.
#[derive(Debug, Default, Clone)]
pub struct CalendarQuery {
    pub year: Option<i32>,
    pub month: Option<u32>,
}

/// A dashboard checkbox's submission.
#[derive(Debug, Default, Clone)]
pub struct ToggleForm {
    pub complete: Option<String>,
}

/// The UTC instant at which the user's local day containing `now` began.
pub open spec fn today_start_spec(now: int, tz: int) -> int {
    (day_of_spec(to_local_spec(now, tz)) - UNIX_EPOCH_DAY) * SECS_PER_DAY + tz * 60
}

/// The (after, before) window a preset selects; `None` leaves that side open.
pub open spec fn preset_range_spec(preset: Seq<char>, now: int, tz: int) -> (Option<int>, Option<int>) {
    let start = today_start_spec(now, tz);
    if preset == "Today"@ {
        (Some(start), Some(start + 86_399))
    } else if preset == "This Week"@ {
        (Some(start), Some(start + 7 * SECS_PER_DAY))
    } else if preset == "Next 30 Days"@ {
        (Some(start), Some(start + 30 * SECS_PER_DAY))
    } else if preset == "Overdue"@ {
        (None, Some(now))
    } else {
        (None, None)
    }
}

pub open spec fn opt_int(o: Option<i64>) -> Option<int> {
    match o {
        Some(v) => Some(v as int),
        None => None,
    }
}

/// "Today" runs from the user's local midnight to 23:59:59; "This Week" and "Next 30 Days"
/// from that midnight on for 7 and 30 days; "Overdue" up to now; anything else is unbounded.
pub fn preset_range(preset: &str, now: i64, tz_offset_minutes: i32) -> (r: (Option<i64>, Option<i64>))
    requires
        ts_ok(now),
    ensures
        (opt_int(r.0), opt_int(r.1)) == preset_range_spec(preset@, now as int, tz_offset_minutes as int),
{
    let local_day = day_of(to_local(now, tz_offset_minutes)) as i64;
    let start: i64 = (local_day - UNIX_EPOCH_DAY) * SECS_PER_DAY + (tz_offset_minutes as i64) * 60;
    if str_eq(preset, "Today") {
        (Some(start), Some(start + 86_399))
    } else if str_eq(preset, "This Week") {
        (Some(start), Some(start + 7 * SECS_PER_DAY))
    } else if str_eq(preset, "Next 30 Days") {
        (Some(start), Some(start + 30 * SECS_PER_DAY))
    } else if str_eq(preset, "Overdue") {
        (None, Some(now))
    } else {
        (None, None)
    }
}

/// The local midnight that begins the preset windows is at most a day before `now`: "Today"
/// always contains the current instant, and so do "This Week" and "Next 30 Days".
pub proof fn lemma_today_contains_now(now: int, tz: int)
    ensures
        today_start_spec(now, tz) <= now,
        now <= today_start_spec(now, tz) + 86_399,
{
    let local = now - tz * 60;
    assert(day_of_spec(local) == local / 86_400 + UNIX_EPOCH_DAY);
    assert((local / 86_400) * 86_400 <= local < (local / 86_400) * 86_400 + 86_400) by (nonlinear_arith);
}

/// The presets the dashboards offer, in display order.
pub open spec fn presets_spec() -> Seq<Seq<char>> {
    seq!["All"@, "All with due date"@, "Today"@, "This Week"@, "Next 30 Days"@, "Overdue"@]
}

/// Each preset with whether it is the one in force.
pub fn preset_pills(preset: &str) -> (r: Vec<(&'static str, bool)>)
    ensures
        r@.len() == 6,
        forall|i: int| 0 <= i < 6 ==> (#[trigger] r@[i]).0@ == presets_spec()[i] && r@[i].1 == (presets_spec()[i] == preset@),
{
    let mut v: Vec<(&'static str, bool)> = Vec::new();
    v.push(("All", str_eq("All", preset)));
    v.push(("All with due date", str_eq("All with due date", preset)));
    v.push(("Today", str_eq("Today", preset)));
    v.push(("This Week", str_eq("This Week", preset)));
    v.push(("Next 30 Days", str_eq("Next 30 Days", preset)));
    v.push(("Overdue", str_eq("Overdue", preset)));
    v
}

/// How far ahead a window left open on the right expands repeating series.
pub const VIRTUAL_OCCURRENCE_DEFAULT_WINDOW_DAYS: i64 = 90;

/// The window virtual occurrences are listed for: the preset's bounds, an open start
/// meaning now and an open end 90 days from now.
pub open spec fn window_spec(after: Option<int>, before: Option<int>, now: int) -> (int, int) {
    (
        match after {
            Some(a) => a,
            None => now,
        },
        match before {
            Some(b) => b,
            None => now + VIRTUAL_OCCURRENCE_DEFAULT_WINDOW_DAYS * SECS_PER_DAY,
        },
    )
}

pub fn virtual_occurrence_window(after: Option<i64>, before: Option<i64>, now: i64) -> (r: (i64, i64))
    requires
        now <= i64::MAX - VIRTUAL_OCCURRENCE_DEFAULT_WINDOW_DAYS * SECS_PER_DAY,
    ensures
        (r.0 as int, r.1 as int) == window_spec(opt_int(after), opt_int(before), now as int),
{
    (
        match after {
            Some(a) => a,
            None => now,
        },
        match before {
            Some(b) => b,
            None => now + VIRTUAL_OCCURRENCE_DEFAULT_WINDOW_DAYS * SECS_PER_DAY,
        },
    )
}

/// Under "Overdue" the virtual-occurrence window collapses to the single instant `now`: a
/// still-virtual occurrence is never listed as overdue.
pub proof fn lemma_overdue_window_is_now(now: int, tz: int)
    ensures
        ({
            let (a, b) = preset_range_spec("Overdue"@, now, tz);
            window_spec(a, b, now) == (now, now)
        }),
{
    reveal_strlit("Overdue");
    reveal_strlit("Today");
    reveal_strlit("This Week");
    reveal_strlit("Next 30 Days");
    assert("Overdue"@ != "Today"@ && "Overdue"@ != "This Week"@ && "Overdue"@ != "Next 30 Days"@) by {
        assert("Overdue"@.len() == 7 && "Today"@.len() == 5 && "This Week"@.len() == 9);
        assert("Overdue"@[0] != "Next 30 Days"@[0]);
    }
}

} // verus!
