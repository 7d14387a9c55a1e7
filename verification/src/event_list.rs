//! The flat Events list: each real event's row and each still-virtual series occurrence's
//! row, merged into one date order that keeps ties in the order they were given.
use vstd::prelude::*;
use crate::components::Row;
use crate::domain::{Item, ProjectOccurrence, ts_ok, opt_view};
use crate::project_events::{
    ProjectEventRow, ProjectEventVirtualRow, event_row_fields, virtual_row_ok,
};
use crate::text::str_eq;

verus! {

// ---- stable ordering ------------------------------------------------------------

/// Entry `a` comes before entry `b`: an earlier key, or the same key and given earlier.
pub open spec fn precedes(keys: Seq<i64>, a: int, b: int) -> bool {
    keys[a] < keys[b] || (keys[a] == keys[b] && a < b)
}

/// Position `x` is listed in `p`.
pub open spec fn listed(p: Seq<usize>, x: int) -> bool {
    exists|a: int| 0 <= a < p.len() && #[trigger] p[a] == x
}

/// `p` lists every position of `keys` once, in ascending key order, ties in their given
/// order.
pub open spec fn is_stable_order(keys: Seq<i64>, p: Seq<usize>) -> bool {
    &&& p.len() == keys.len()
    &&& forall|i: int| 0 <= i < p.len() ==> (#[trigger] p[i]) < keys.len()
    &&& forall|i: int, j: int| 0 <= i < j < p.len() ==> precedes(keys, #[trigger] p[i] as int, #[trigger] p[j] as int)
    &&& forall|x: int| 0 <= x < keys.len() ==> #[trigger] listed(p, x)
}

/// Reordering entries by a stable order loses none of them: every entry of `all` is
/// somewhere in `r`.
pub proof fn lemma_reordered_keeps_every_entry<T>(all: Seq<T>, keys: Seq<i64>, p: Seq<usize>, r: Seq<T>, q: int)
    requires
        is_stable_order(keys, p),
        keys.len() == all.len(),
        r.len() == p.len(),
        forall|k: int| 0 <= k < p.len() ==> #[trigger] r[k] == all[p[k] as int],
        0 <= q < all.len(),
    ensures
        exists|k: int| 0 <= k < r.len() && r[k] == all[q],
{
    assert(listed(p, q));
    let a = choose|a: int| 0 <= a < p.len() && p[a] == q;
    assert(r[a] == all[q]);
}

/// The stable ascending order of `keys` (what a stable sort by key does to positions).
pub fn stable_order(keys: &Vec<i64>) -> (p: Vec<usize>)
    ensures
        is_stable_order(keys@, p@),
{
    let n = keys.len();
    let mut p: Vec<usize> = Vec::new();
    let mut i: usize = 0;
    while i < n
        invariant
            n == keys@.len(),
            i <= n,
            p@.len() == i,
            forall|a: int| 0 <= a < p@.len() ==> (#[trigger] p@[a]) < i,
            forall|a: int, b: int| 0 <= a < b < p@.len() ==> precedes(keys@, #[trigger] p@[a] as int, #[trigger] p@[b] as int),
            forall|x: int| 0 <= x < i ==> #[trigger] listed(p@, x),
        decreases n - i,
    {
        let key = keys[i];
        let mut k: usize = 0;
        while k < p.len() && keys[p[k]] <= key
            invariant
                n == keys@.len(),
                p@.len() == i,
                i < n,
                k <= p@.len(),
                key == keys@[i as int],
                forall|a: int| 0 <= a < p@.len() ==> (#[trigger] p@[a]) < i,
                forall|a: int| 0 <= a < k ==> keys@[#[trigger] p@[a] as int] <= key,
            decreases p@.len() - k,
        {
            k = k + 1;
        }
        let ghost old_p = p@;
        proof {
            assert forall|a: int| k <= a < old_p.len() implies keys@[#[trigger] old_p[a] as int] > key by {
                if a > k {
                    assert(precedes(keys@, old_p[k as int] as int, old_p[a] as int));
                }
            }
        }
        p.insert(k, i);
        proof {
            assert(p@ == old_p.insert(k as int, i));
            assert forall|a: int| 0 <= a < p@.len() implies (#[trigger] p@[a]) < i + 1 by {
                if a < k {
                    assert(p@[a] == old_p[a]);
                } else if a > k {
                    assert(p@[a] == old_p[a - 1]);
                }
            }
            assert forall|a: int, b: int| 0 <= a < b < p@.len() implies precedes(
                keys@,
                #[trigger] p@[a] as int,
                #[trigger] p@[b] as int,
            ) by {
                if b < k {
                    assert(p@[a] == old_p[a] && p@[b] == old_p[b]);
                } else if b == k {
                    assert(p@[a] == old_p[a]);
                    assert(keys@[old_p[a] as int] <= key);
                } else if a > k {
                    assert(p@[a] == old_p[a - 1] && p@[b] == old_p[b - 1]);
                } else if a == k {
                    assert(p@[b] == old_p[b - 1]);
                } else {
                    assert(p@[a] == old_p[a] && p@[b] == old_p[b - 1]);
                    assert(keys@[old_p[a] as int] <= key);
                }
            }
            assert forall|x: int| 0 <= x < i + 1 implies #[trigger] listed(p@, x) by {
                if x == i {
                    assert(p@[k as int] == i);
                } else {
                    assert(listed(old_p, x));
                    let a = choose|a: int| 0 <= a < old_p.len() && old_p[a] == x;
                    if a < k {
                        assert(p@[a] == x);
                    } else {
                        assert(p@[a + 1] == x);
                    }
                }
            }
        }
        i = i + 1;
    }
    p
}

// ---- rows ---------------------------------------------------------------------

/// The value paired with the first key `id`.
pub open spec fn lookup(pairs: Seq<(String, String)>, id: Seq<char>) -> Option<Seq<char>>
    decreases pairs.len(),
{
    if pairs.len() == 0 {
        None
    } else if pairs[0].0@ == id {
        Some(pairs[0].1@)
    } else {
        lookup(pairs.drop_first(), id)
    }
}

/// The value paired with the first key `id`, if any.
pub fn lookup_value(pairs: &Vec<(String, String)>, id: &str) -> (r: Option<String>)
    ensures
        opt_view(r) == lookup(pairs@, id@),
{
    let mut i: usize = 0;
    assert(pairs@.skip(0) =~= pairs@);
    while i < pairs.len()
        invariant
            i <= pairs@.len(),
            lookup(pairs@, id@) == lookup(pairs@.skip(i as int), id@),
        decreases pairs@.len() - i,
    {
        assert(pairs@.skip(i as int)[0] == pairs@[i as int]);
        assert(pairs@.skip(i as int).drop_first() =~= pairs@.skip(i + 1));
        if str_eq(pairs[i].0.as_str(), id) {
            return Some(String::from_str(pairs[i].1.as_str()));
        }
        i = i + 1;
    }
    None
}

/// Where an event sorts: its scheduled date, else its due date, undated events last.
pub open spec fn sort_key_spec(item: Item) -> i64 {
    match item.scheduled_date {
        Some(d) => d,
        None => match item.due_date {
            Some(d) => d,
            None => i64::MAX,
        },
    }
}

pub fn sort_key(item: &Item) -> (r: i64)
    ensures
        r == sort_key_spec(*item),
{
    match item.scheduled_date {
        Some(d) => d,
        None => match item.due_date {
            Some(d) => d,
            None => i64::MAX,
        },
    }
}

pub open spec fn items_ok(items: Seq<Item>) -> bool {
    forall|i: int| 0 <= i < items.len() ==> (#[trigger] items[i]).dates_ok()
}

pub open spec fn occurrences_ok(occs: Seq<ProjectOccurrence>) -> bool {
    forall|i: int| 0 <= i < occs.len() ==> ts_ok((#[trigger] occs[i]).occurrence_date)
}

/// The row of every event, in the given order.
pub fn render_rows(items: &Vec<Item>, project_id: &str, tz: i32, skip_urls: &Vec<(String, String)>, now: i64) -> (r: Vec<Row>)
    requires
        items_ok(items@),
    ensures
        r@.len() == items@.len(),
        forall|i: int|
            0 <= i < items@.len() ==> event_row_fields(
                #[trigger] r@[i],
                items@[i],
                project_id@,
                tz as int,
                lookup(skip_urls@, items@[i].id@),
            ) && r@[i].overdue == items@[i].overdue_at(now),
{
    let mut rows: Vec<Row> = Vec::new();
    let mut i: usize = 0;
    while i < items.len()
        invariant
            i <= items@.len(),
            items_ok(items@),
            rows@.len() == i,
            forall|k: int|
                0 <= k < i ==> event_row_fields(
                    #[trigger] rows@[k],
                    items@[k],
                    project_id@,
                    tz as int,
                    lookup(skip_urls@, items@[k].id@),
                ) && rows@[k].overdue == items@[k].overdue_at(now),
        decreases items@.len() - i,
    {
        let item = &items[i];
        let skip = lookup_value(skip_urls, item.id.as_str());
        rows.push(ProjectEventRow::from_item(item, project_id, tz, skip, now));
        i = i + 1;
    }
    rows
}

/// One row of the merged list.
#[derive(Clone, Debug)]
pub enum EventListEntry {
    Real(Row),
    Virtual(ProjectEventVirtualRow),
}

/// The sort keys of the merged list: the events' keys, then the occurrences' dates.
pub open spec fn entry_keys(items: Seq<Item>, occs: Seq<ProjectOccurrence>) -> Seq<i64> {
    items.map_values(|i: Item| sort_key_spec(i)) + occs.map_values(|o: ProjectOccurrence| o.occurrence_date)
}

/// Entry `e` is the row of position `j` of the merged input (events first, then occurrences).
pub open spec fn entry_ok(
    e: EventListEntry,
    j: int,
    items: Seq<Item>,
    occs: Seq<ProjectOccurrence>,
    project_id: Seq<char>,
    tz: int,
    skip_urls: Seq<(String, String)>,
    now: i64,
) -> bool {
    if j < items.len() {
        e matches EventListEntry::Real(row) && event_row_fields(row, items[j], project_id, tz, lookup(skip_urls, items[j].id@))
            && row.overdue == items[j].overdue_at(now)
    } else {
        e matches EventListEntry::Virtual(v) && virtual_row_ok(v, occs[j - items.len()], project_id, tz)
    }
}

/// Every real event and every virtual occurrence in the window, as one list ordered by date
/// (an event by its scheduled date, else due date, undated last; an occurrence by its
/// date); entries with the same date keep their given order, events before occurrences.
pub fn render_rows_with_virtual(
    items: &Vec<Item>,
    virtual_occurrences: &Vec<ProjectOccurrence>,
    project_id: &str,
    tz: i32,
    skip_urls: &Vec<(String, String)>,
    now: i64,
) -> (r: Vec<EventListEntry>)
    requires
        items_ok(items@),
        occurrences_ok(virtual_occurrences@),
        items@.len() + virtual_occurrences@.len() <= usize::MAX,
    ensures
        exists|p: Seq<usize>|
            {
                &&& is_stable_order(entry_keys(items@, virtual_occurrences@), p)
                &&& r@.len() == p.len()
                &&& forall|k: int|
                    0 <= k < p.len() ==> entry_ok(
                        #[trigger] r@[k],
                        p[k] as int,
                        items@,
                        virtual_occurrences@,
                        project_id@,
                        tz as int,
                        skip_urls@,
                        now,
                    )
            },
{
    let ghost spec_keys = entry_keys(items@, virtual_occurrences@);
    let n_items = items.len();
    let mut keys: Vec<i64> = Vec::new();
    let mut i: usize = 0;
    while i < n_items
        invariant
            n_items == items@.len(),
            i <= n_items,
            keys@ == spec_keys.take(i as int),
            spec_keys == entry_keys(items@, virtual_occurrences@),
        decreases n_items - i,
    {
        keys.push(sort_key(&items[i]));
        assert(spec_keys[i as int] == sort_key_spec(items@[i as int]));
        assert(keys@ =~= spec_keys.take(i + 1));
        i = i + 1;
    }
    let mut j: usize = 0;
    while j < virtual_occurrences.len()
        invariant
            n_items == items@.len(),
            j <= virtual_occurrences@.len(),
            keys@ == spec_keys.take(n_items + j),
            spec_keys == entry_keys(items@, virtual_occurrences@),
        decreases virtual_occurrences@.len() - j,
    {
        keys.push(virtual_occurrences[j].occurrence_date);
        assert(spec_keys[n_items + j] == virtual_occurrences@[j as int].occurrence_date);
        assert(keys@ =~= spec_keys.take(n_items + j + 1));
        j = j + 1;
    }
    assert(keys@ =~= spec_keys);
    let order = stable_order(&keys);
    let mut out: Vec<EventListEntry> = Vec::new();
    let mut k: usize = 0;
    while k < order.len()
        invariant
            n_items == items@.len(),
            items_ok(items@),
            occurrences_ok(virtual_occurrences@),
            is_stable_order(spec_keys, order@),
            spec_keys == entry_keys(items@, virtual_occurrences@),
            spec_keys.len() == items@.len() + virtual_occurrences@.len(),
            k <= order@.len(),
            out@.len() == k,
            forall|m: int|
                0 <= m < k ==> entry_ok(
                    #[trigger] out@[m],
                    order@[m] as int,
                    items@,
                    virtual_occurrences@,
                    project_id@,
                    tz as int,
                    skip_urls@,
                    now,
                ),
        decreases order@.len() - k,
    {
        let pos = order[k];
        assert(pos < spec_keys.len());
        if pos < n_items {
            let item = &items[pos];
            let skip = lookup_value(skip_urls, item.id.as_str());
            out.push(EventListEntry::Real(ProjectEventRow::from_item(item, project_id, tz, skip, now)));
        } else {
            let occ = &virtual_occurrences[pos - n_items];
            out.push(EventListEntry::Virtual(ProjectEventVirtualRow::from_occurrence(occ, project_id, tz)));
        }
        k = k + 1;
    }
    out
}

/// How far ahead the flat list shows virtual occurrences.
pub const VIRTUAL_OCCURRENCE_WINDOW_DAYS: i64 = 90;

/// The window of virtual occurrences the list shows: from `now` to 90 days on.
pub fn virtual_occurrence_window(now: i64) -> (r: (i64, i64))
    requires
        now <= i64::MAX - VIRTUAL_OCCURRENCE_WINDOW_DAYS * 86_400,
    ensures
        r.0 == now,
        r.1 == now + VIRTUAL_OCCURRENCE_WINDOW_DAYS * 86_400,
{
    (now, now + VIRTUAL_OCCURRENCE_WINDOW_DAYS * 86_400)
}

} // verus!
