//! The cross-project Home calendar's query and checkbox form, and the selected day's list.
use vstd::prelude::*;
use crate::calendar::{calendar_date, calendar_date_spec};
use crate::dates::{local_day, local_day_spec};
use crate::domain::{ItemKind, ProjectOccurrence, ts_ok};
use crate::event_list::{is_stable_order, stable_order};
use crate::project_calendar::{DayEntry, type_allowed};
use crate::storage::DueItem;

verus! {

/// The month shown, the selected day, the drawer's All/Tasks/Events tab (`"all"`, `"task"`
/// or `"event"`) and whether everyone's items show rather than only the viewer's.
#[derive(Debug, Default, Clone)]
pub struct MainCalendarQuery {
    pub year: Option<i32>,
    pub month: Option<u32>,
    pub date: Option<String>,
    pub item_type: Option<String>,
    pub assigned_to_any: Option<String>,
}

/// A calendar row checkbox's submission.
#[derive(Debug, Default, Clone)]
pub struct MainCalendarToggleForm {
    pub complete: Option<String>,
}

// ---- the selected day's list ----------------------------------------------------

/// A tagged item (item, project id, project name) the day's list shows: its kind passes the
/// drawer's tab and its calendar date falls on the day.
pub open spec fn main_day_item_shown(item: (DueItem, String, String), day: int, tz: int, type_filter: Option<ItemKind>) -> bool {
    &&& type_allowed(type_filter, item.0.item.kind)
    &&& match calendar_date_spec(item.0.item) {
        Some(t) => local_day_spec(t as int, tz) == day,
        None => false,
    }
}

/// A tagged occurrence the day's list shows: its kind passes the tab and it falls on the day.
pub open spec fn main_day_occurrence_shown(occ: (ProjectOccurrence, String, String), day: int, tz: int, type_filter: Option<ItemKind>) -> bool {
    type_allowed(type_filter, occ.0.item_type) && local_day_spec(occ.0.occurrence_date as int, tz) == day
}

pub open spec fn main_day_item_entries(
    items: Seq<(DueItem, String, String)>,
    day: int,
    tz: int,
    type_filter: Option<ItemKind>,
) -> Seq<DayEntry>
    decreases items.len(),
{
    if items.len() == 0 {
        Seq::empty()
    } else {
        let init = main_day_item_entries(items.drop_last(), day, tz, type_filter);
        if main_day_item_shown(items.last(), day, tz, type_filter) {
            init.push((false, (items.len() - 1) as usize))
        } else {
            init
        }
    }
}

pub open spec fn main_day_occurrence_entries(
    occs: Seq<(ProjectOccurrence, String, String)>,
    day: int,
    tz: int,
    type_filter: Option<ItemKind>,
) -> Seq<DayEntry>
    decreases occs.len(),
{
    if occs.len() == 0 {
        Seq::empty()
    } else {
        let init = main_day_occurrence_entries(occs.drop_last(), day, tz, type_filter);
        if main_day_occurrence_shown(occs.last(), day, tz, type_filter) {
            init.push((true, (occs.len() - 1) as usize))
        } else {
            init
        }
    }
}

/// The instant an entry sorts by: an item's calendar date, an occurrence's date.
pub open spec fn main_day_entry_key(
    items: Seq<(DueItem, String, String)>,
    occs: Seq<(ProjectOccurrence, String, String)>,
    e: DayEntry,
) -> i64 {
    if e.0 {
        occs[e.1 as int].0.occurrence_date
    } else {
        match calendar_date_spec(items[e.1 as int].0.item) {
            Some(t) => t,
            None => i64::MAX,
        }
    }
}

pub open spec fn main_day_entry_keys(
    items: Seq<(DueItem, String, String)>,
    occs: Seq<(ProjectOccurrence, String, String)>,
    es: Seq<DayEntry>,
) -> Seq<i64> {
    es.map_values(|e: DayEntry| main_day_entry_key(items, occs, e))
}

proof fn lemma_main_day_entries_in_range(
    items: Seq<(DueItem, String, String)>,
    occs: Seq<(ProjectOccurrence, String, String)>,
    day: int,
    tz: int,
    type_filter: Option<ItemKind>,
)
    requires
        items.len() <= usize::MAX,
        occs.len() <= usize::MAX,
    ensures
        forall|k: int|
            0 <= k < main_day_item_entries(items, day, tz, type_filter).len() ==> {
                let e = #[trigger] main_day_item_entries(items, day, tz, type_filter)[k];
                !e.0 && e.1 < items.len()
            },
        forall|k: int|
            0 <= k < main_day_occurrence_entries(occs, day, tz, type_filter).len() ==> {
                let e = #[trigger] main_day_occurrence_entries(occs, day, tz, type_filter)[k];
                e.0 && e.1 < occs.len()
            },
    decreases items.len() + occs.len(),
{
    if items.len() > 0 {
        lemma_main_day_entries_in_range(items.drop_last(), occs, day, tz, type_filter);
        let init = main_day_item_entries(items.drop_last(), day, tz, type_filter);
        let all = main_day_item_entries(items, day, tz, type_filter);
        assert forall|k: int| 0 <= k < all.len() implies {
            let e = #[trigger] all[k];
            !e.0 && e.1 < items.len()
        } by {
            if k < init.len() {
                assert(all[k] == init[k]);
            }
        }
    }
    if occs.len() > 0 {
        lemma_main_day_entries_in_range(Seq::empty(), occs.drop_last(), day, tz, type_filter);
        let init = main_day_occurrence_entries(occs.drop_last(), day, tz, type_filter);
        let all = main_day_occurrence_entries(occs, day, tz, type_filter);
        assert forall|k: int| 0 <= k < all.len() implies {
            let e = #[trigger] all[k];
            e.0 && e.1 < occs.len()
        } by {
            if k < init.len() {
                assert(all[k] == init[k]);
            }
        }
    }
}

/// The selected day's list over the tagged buckets (already narrowed to what the viewer
/// sees): the items whose calendar date falls on `day`, then the occurrences on it, each
/// passing the drawer's tab, ordered by instant, entries at the same instant in that
/// reading order.
pub fn main_calendar_day_entries(
    due_items: &Vec<(DueItem, String, String)>,
    occurrences: &Vec<(ProjectOccurrence, String, String)>,
    day: i32,
    tz: i32,
    type_filter: Option<ItemKind>,
) -> (r: Vec<DayEntry>)
    requires
        forall|i: int| 0 <= i < due_items@.len() ==> (#[trigger] due_items@[i]).0.item.dates_ok(),
        forall|i: int| 0 <= i < occurrences@.len() ==> ts_ok((#[trigger] occurrences@[i]).0.occurrence_date),
    ensures
        exists|p: Seq<usize>|
            {
                &&& #[trigger] is_stable_order(
                    main_day_entry_keys(
                        due_items@,
                        occurrences@,
                        main_day_item_entries(due_items@, day as int, tz as int, type_filter)
                            + main_day_occurrence_entries(occurrences@, day as int, tz as int, type_filter),
                    ),
                    p,
                )
                &&& r@.len() == p.len()
                &&& forall|k: int|
                    0 <= k < p.len() ==> #[trigger] r@[k] == (main_day_item_entries(due_items@, day as int, tz as int, type_filter)
                        + main_day_occurrence_entries(occurrences@, day as int, tz as int, type_filter))[p[k] as int]
            },
{
    let ghost a = main_day_item_entries(due_items@, day as int, tz as int, type_filter);
    let ghost b = main_day_occurrence_entries(occurrences@, day as int, tz as int, type_filter);
    let mut es: Vec<DayEntry> = Vec::new();
    let mut i: usize = 0;
    assert(due_items@.take(0) =~= Seq::<(DueItem, String, String)>::empty());
    while i < due_items.len()
        invariant
            i <= due_items@.len(),
            forall|k: int| 0 <= k < due_items@.len() ==> (#[trigger] due_items@[k]).0.item.dates_ok(),
            es@ == main_day_item_entries(due_items@.take(i as int), day as int, tz as int, type_filter),
        decreases due_items@.len() - i,
    {
        assert(due_items@.take(i + 1).drop_last() =~= due_items@.take(i as int));
        assert(due_items@.take(i + 1).last() == due_items@[i as int]);
        let item = &due_items[i].0.item;
        assert(due_items@[i as int].0.item.dates_ok());
        let type_ok = match type_filter {
            Some(k) => k == item.kind,
            None => true,
        };
        let on_day = match calendar_date(item) {
            Some(t) => local_day(t, tz) == day,
            None => false,
        };
        if type_ok && on_day {
            es.push((false, i));
        }
        i = i + 1;
    }
    assert(due_items@.take(due_items@.len() as int) =~= due_items@);
    let ghost head = es@;
    let mut j: usize = 0;
    assert(occurrences@.take(0) =~= Seq::<(ProjectOccurrence, String, String)>::empty());
    while j < occurrences.len()
        invariant
            j <= occurrences@.len(),
            forall|k: int| 0 <= k < occurrences@.len() ==> ts_ok((#[trigger] occurrences@[k]).0.occurrence_date),
            es@ == head + main_day_occurrence_entries(occurrences@.take(j as int), day as int, tz as int, type_filter),
        decreases occurrences@.len() - j,
    {
        assert(occurrences@.take(j + 1).drop_last() =~= occurrences@.take(j as int));
        assert(occurrences@.take(j + 1).last() == occurrences@[j as int]);
        let o = &occurrences[j].0;
        assert(ts_ok(occurrences@[j as int].0.occurrence_date));
        let type_ok = match type_filter {
            Some(k) => k == o.item_type,
            None => true,
        };
        if type_ok && local_day(o.occurrence_date, tz) == day {
            es.push((true, j));
        }
        j = j + 1;
    }
    assert(occurrences@.take(occurrences@.len() as int) =~= occurrences@);
    let ghost all = a + b;
    assert(es@ == all);
    proof {
        lemma_main_day_entries_in_range(due_items@, occurrences@, day as int, tz as int, type_filter);
    }
    let mut keys: Vec<i64> = Vec::new();
    let mut m: usize = 0;
    while m < es.len()
        invariant
            es@ == all,
            all == a + b,
            forall|q: int| 0 <= q < a.len() ==> { let e = #[trigger] a[q]; !e.0 && e.1 < due_items@.len() },
            forall|q: int| 0 <= q < b.len() ==> { let e = #[trigger] b[q]; e.0 && e.1 < occurrences@.len() },
            m <= es@.len(),
            keys@ == main_day_entry_keys(due_items@, occurrences@, all).take(m as int),
        decreases es@.len() - m,
    {
        let e = es[m];
        proof {
            if (m as int) < a.len() {
                assert(all[m as int] == a[m as int]);
            } else {
                assert(all[m as int] == b[m - a.len()]);
            }
        }
        let key = if e.0 {
            occurrences[e.1].0.occurrence_date
        } else {
            match calendar_date(&due_items[e.1].0.item) {
                Some(t) => t,
                None => i64::MAX,
            }
        };
        keys.push(key);
        assert(keys@ =~= main_day_entry_keys(due_items@, occurrences@, all).take(m + 1));
        m = m + 1;
    }
    assert(keys@ =~= main_day_entry_keys(due_items@, occurrences@, all));
    let order = stable_order(&keys);
    let mut out: Vec<DayEntry> = Vec::new();
    let mut n: usize = 0;
    while n < order.len()
        invariant
            es@ == all,
            is_stable_order(main_day_entry_keys(due_items@, occurrences@, all), order@),
            n <= order@.len(),
            out@.len() == n,
            forall|q: int| 0 <= q < n ==> #[trigger] out@[q] == all[order@[q] as int],
        decreases order@.len() - n,
    {
        out.push(es[order[n]]);
        n = n + 1;
    }
    out
}

} // verus!
