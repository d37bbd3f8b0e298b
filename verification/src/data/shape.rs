//! The shape that every list keeps through its operations: distinct ids,
//! each below the id counter, and items in non-decreasing order.

use vstd::prelude::*;

use super::order::{insert_by_order, insert_pos, sort_by_order};
use super::{
    branch_archived, deleted, find_item, item_added, item_changed, item_under, lemma_find_item_bounds, map_item, next_order,
    not_done, reordered, restored, TodoDataView, TodoItem,
};
use super::category::normalized;

verus! {

/// No two items share an id.
pub open spec fn ids_distinct(s: Seq<TodoItem>) -> bool {
    forall|a: int, b: int|
        #![trigger s[a], s[b]]
        0 <= a < s.len() && 0 <= b < s.len() && a != b ==> s[a].id != s[b].id
}

/// The items come in non-decreasing order.
pub open spec fn orders_sorted(s: Seq<TodoItem>) -> bool {
    forall|a: int, b: int| #![trigger s[a], s[b]] 0 <= a < b < s.len() ==> s[a].order <= s[b].order
}

/// Every id of `s` is below `next`.
pub open spec fn ids_below(s: Seq<TodoItem>, next: u64) -> bool {
    forall|j: int| 0 <= j < s.len() ==> #[trigger] s[j].id < next
}

/// The shape of a list reached from an empty one through its operations:
/// distinct ids, each below the id counter, items in non-decreasing order.
pub open spec fn store_wf(v: TodoDataView) -> bool {
    &&& ids_distinct(v.items)
    &&& ids_below(v.items, v.next_id)
    &&& orders_sorted(v.items)
}

/// Lists whose items keep their ids and orders place by place, with the id
/// counter not moved back, share the shape.
pub proof fn lemma_same_keys(v: TodoDataView, w: TodoDataView)
    requires
        store_wf(v),
        w.items.len() == v.items.len(),
        v.next_id <= w.next_id,
        forall|j: int|
            0 <= j < v.items.len() ==> (#[trigger] w.items[j]).id == v.items[j].id && w.items[j].order
                == v.items[j].order,
    ensures
        store_wf(w),
{
    assert forall|a: int, b: int| 0 <= a < w.items.len() && 0 <= b < w.items.len() && a != b implies w.items[a].id
        != w.items[b].id by {
        assert(v.items[a].id != v.items[b].id);
    }
    assert forall|a: int, b: int| 0 <= a < b < w.items.len() implies w.items[a].order <= w.items[b].order by {
        assert(v.items[a].order <= v.items[b].order);
    }
    assert forall|j: int| 0 <= j < w.items.len() implies w.items[j].id < w.next_id by {
        assert(v.items[j].id < v.next_id);
    }
}

/// In a list in order, `insert_pos` splits the items of order at most
/// `key` from the larger ones.
proof fn lemma_insert_pos_split(s: Seq<TodoItem>, key: u64)
    requires
        orders_sorted(s),
    ensures
        0 <= insert_pos(s, key) <= s.len(),
        forall|j: int| 0 <= j < insert_pos(s, key) ==> (#[trigger] s[j]).order <= key,
        forall|j: int| insert_pos(s, key) <= j < s.len() ==> (#[trigger] s[j]).order > key,
    decreases s.len(),
{
    if s.len() > 0 {
        let p = s.drop_last();
        assert(orders_sorted(p)) by {
            assert forall|a: int, b: int| 0 <= a < b < p.len() implies p[a].order <= p[b].order by {
                assert(s[a].order <= s[b].order);
            }
        }
        lemma_insert_pos_split(p, key);
        if s.last().order <= key {
            assert(insert_pos(s, key) == s.len());
            assert forall|j: int| 0 <= j < s.len() implies (#[trigger] s[j]).order <= key by {
                if j < s.len() - 1 {
                    assert(s[j].order <= s[s.len() - 1].order);
                }
            }
        } else {
            let k = insert_pos(p, key);
            assert(insert_pos(s, key) == k);
            assert forall|j: int| 0 <= j < k implies (#[trigger] s[j]).order <= key by {
                assert(p[j] == s[j]);
            }
            assert forall|j: int| k <= j < s.len() implies (#[trigger] s[j]).order > key by {
                if j < s.len() - 1 {
                    assert(p[j] == s[j]);
                }
            }
        }
    }
}

/// Sorting by order gives a list in order, of the same items, and keeps
/// ids distinct.
pub proof fn lemma_sort_shape(s: Seq<TodoItem>)
    ensures
        sort_by_order(s).len() == s.len(),
        orders_sorted(sort_by_order(s)),
        forall|j: int| 0 <= j < s.len() ==> s.contains(#[trigger] sort_by_order(s)[j]),
        ids_distinct(s) ==> ids_distinct(sort_by_order(s)),
    decreases s.len(),
{
    if s.len() > 0 {
        let p = s.drop_last();
        let x = s.last();
        let t = sort_by_order(p);
        lemma_sort_shape(p);
        lemma_insert_pos_split(t, x.order);
        let k = insert_pos(t, x.order);
        let r = t.insert(k, x);
        assert(sort_by_order(s) == r);
        assert forall|a: int, b: int| 0 <= a < b < r.len() implies r[a].order <= r[b].order by {
            let aa = if a < k { a } else { a - 1 };
            let bb = if b < k { b } else { b - 1 };
            if a != k && b != k {
                assert(r[a] == t[aa]);
                assert(r[b] == t[bb]);
                assert(t[aa].order <= t[bb].order);
            } else if a == k {
                assert(r[b] == t[bb]);
            } else {
                assert(r[a] == t[aa]);
            }
        }
        assert forall|j: int| 0 <= j < s.len() implies s.contains(#[trigger] r[j]) by {
            if j == k {
                assert(s[s.len() - 1] == x);
            } else {
                let jj = if j < k { j } else { j - 1 };
                assert(r[j] == t[jj]);
                assert(p.contains(t[jj]));
                let m = choose|m: int| 0 <= m < p.len() && p[m] == t[jj];
                assert(s[m] == p[m]);
            }
        }
        if ids_distinct(s) {
            assert(ids_distinct(p)) by {
                assert forall|a: int, b: int| 0 <= a < p.len() && 0 <= b < p.len() && a != b implies p[a].id
                    != p[b].id by {
                    assert(s[a].id != s[b].id);
                }
            }
            assert forall|j: int| 0 <= j < t.len() implies (#[trigger] t[j]).id != x.id by {
                assert(p.contains(t[j]));
                let m = choose|m: int| 0 <= m < p.len() && p[m] == t[j];
                assert(s[m].id != s[s.len() - 1].id);
            }
            assert forall|a: int, b: int| 0 <= a < r.len() && 0 <= b < r.len() && a != b implies r[a].id
                != r[b].id by {
                let aa = if a < k { a } else { a - 1 };
                let bb = if b < k { b } else { b - 1 };
                if a != k && b != k {
                    assert(r[a] == t[aa]);
                    assert(r[b] == t[bb]);
                    assert(t[aa].id != t[bb].id);
                } else if a == k {
                    assert(r[b] == t[bb]);
                } else {
                    assert(r[a] == t[aa]);
                }
            }
        }
    }
}

/// Sorting keeps every id below `next` when it was.
pub proof fn lemma_sort_below(s: Seq<TodoItem>, next: u64)
    requires
        ids_below(s, next),
    ensures
        ids_below(sort_by_order(s), next),
{
    lemma_sort_shape(s);
    assert forall|j: int| 0 <= j < sort_by_order(s).len() implies (#[trigger] sort_by_order(s)[j]).id < next by {
        assert(s.contains(sort_by_order(s)[j]));
    }
}

/// The items that are not done keep the shape of the list they come from.
pub proof fn lemma_not_done_shape(s: Seq<TodoItem>, next: u64)
    requires
        ids_distinct(s),
        orders_sorted(s),
        ids_below(s, next),
    ensures
        ids_distinct(not_done(s)),
        orders_sorted(not_done(s)),
        ids_below(not_done(s), next),
        forall|j: int| 0 <= j < not_done(s).len() ==> s.contains(#[trigger] not_done(s)[j]),
    decreases s.len(),
{
    if s.len() > 0 {
        let p = s.drop_last();
        let x = s.last();
        assert forall|a: int, b: int| 0 <= a < p.len() && 0 <= b < p.len() && a != b implies p[a].id != p[b].id by {
            assert(s[a].id != s[b].id);
        }
        assert forall|a: int, b: int| 0 <= a < b < p.len() implies p[a].order <= p[b].order by {
            assert(s[a].order <= s[b].order);
        }
        assert forall|j: int| 0 <= j < p.len() implies (#[trigger] p[j]).id < next by {
            assert(s[j].id < next);
        }
        lemma_not_done_shape(p, next);
        let q = not_done(p);
        assert forall|j: int| 0 <= j < q.len() implies s.contains(#[trigger] q[j]) by {
            let m = choose|m: int| 0 <= m < p.len() && p[m] == q[j];
            assert(s[m] == p[m]);
        }
        if !x.done {
            let r = q.push(x);
            assert(not_done(s) == r);
            assert forall|j: int| 0 <= j < q.len() implies (#[trigger] q[j]).id != x.id && q[j].order <= x.order by {
                let m = choose|m: int| 0 <= m < p.len() && p[m] == q[j];
                assert(s[m] == q[j]);
                assert(s[m].id != s[s.len() - 1].id);
                assert(s[m].order <= s[s.len() - 1].order);
            }
            assert forall|a: int, b: int| 0 <= a < r.len() && 0 <= b < r.len() && a != b implies r[a].id
                != r[b].id by {
                if a < q.len() && b < q.len() {
                    assert(q[a].id != q[b].id);
                } else if a < q.len() {
                    assert(q[a].id != x.id);
                } else {
                    assert(q[b].id != x.id);
                }
            }
            assert forall|a: int, b: int| 0 <= a < b < r.len() implies r[a].order <= r[b].order by {
                if b < q.len() {
                    assert(q[a].order <= q[b].order);
                } else {
                    assert(q[a].order <= x.order);
                }
            }
            assert forall|j: int| 0 <= j < r.len() implies s.contains(#[trigger] r[j]) by {
                if j == q.len() {
                    assert(s[s.len() - 1] == x);
                }
            }
        }
    }
}

/// Removing an item keeps the shape.
pub proof fn lemma_remove_shape(v: TodoDataView, i: int)
    requires
        store_wf(v),
        0 <= i < v.items.len(),
    ensures
        store_wf(TodoDataView { items: v.items.remove(i), ..v }),
{
    let t = v.items.remove(i);
    assert forall|a: int, b: int| 0 <= a < t.len() && 0 <= b < t.len() && a != b implies t[a].id != t[b].id by {
        let aa = if a < i { a } else { a + 1 };
        let bb = if b < i { b } else { b + 1 };
        assert(t[a] == v.items[aa]);
        assert(t[b] == v.items[bb]);
        assert(v.items[aa].id != v.items[bb].id);
    }
    assert forall|a: int, b: int| 0 <= a < b < t.len() implies t[a].order <= t[b].order by {
        let aa = if a < i { a } else { a + 1 };
        let bb = if b < i { b } else { b + 1 };
        assert(t[a] == v.items[aa]);
        assert(t[b] == v.items[bb]);
        assert(v.items[aa].order <= v.items[bb].order);
    }
    assert forall|j: int| 0 <= j < t.len() implies (#[trigger] t[j]).id < v.next_id by {
        let jj = if j < i { j } else { j + 1 };
        assert(t[j] == v.items[jj]);
    }
}

/// Putting back an item whose id is not in the list, the counter moved past
/// it, keeps the shape.
pub proof fn lemma_push_sorted_shape(v: TodoDataView, x: TodoItem, next: u64)
    requires
        store_wf(v),
        find_item(v.items, x.id) < 0,
        v.next_id <= next,
        x.id < next,
    ensures
        store_wf(TodoDataView { next_id: next, items: sort_by_order(v.items.push(x)), ..v }),
{
    lemma_find_item_bounds(v.items, x.id);
    let s = v.items.push(x);
    assert forall|a: int, b: int| 0 <= a < s.len() && 0 <= b < s.len() && a != b implies s[a].id != s[b].id by {
        if a < v.items.len() && b < v.items.len() {
            assert(v.items[a].id != v.items[b].id);
        } else if a < v.items.len() {
            assert(v.items[a].id != x.id);
        } else {
            assert(v.items[b].id != x.id);
        }
    }
    assert forall|j: int| 0 <= j < s.len() implies (#[trigger] s[j]).id < next by {
        if j < v.items.len() {
            assert(v.items[j].id < v.next_id);
        }
    }
    lemma_sort_shape(s);
    lemma_sort_below(s, next);
}

/// Changing one item without touching its id or order keeps the shape.
pub proof fn lemma_map_item_keeps(v: TodoDataView, id: u64, f: spec_fn(TodoItem) -> TodoItem)
    requires
        find_item(v.items, id) >= 0 ==> f(v.items[find_item(v.items, id)]).id == v.items[find_item(
            v.items,
            id,
        )].id && f(v.items[find_item(v.items, id)]).order == v.items[find_item(v.items, id)].order,
    ensures
        store_wf(v) ==> store_wf(map_item(v, id, f)),
{
    if store_wf(v) {
        lemma_find_item_bounds(v.items, id);
        let w = map_item(v, id, f);
        assert forall|j: int| 0 <= j < v.items.len() implies (#[trigger] w.items[j]).id == v.items[j].id
            && w.items[j].order == v.items[j].order by {}
        lemma_same_keys(v, w);
    }
}

/// A change to the item `id` that keeps its id and order, all else left
/// alone, keeps the shape.
pub proof fn lemma_item_changed_keeps(
    v: TodoDataView,
    w: TodoDataView,
    id: u64,
    rel: spec_fn(TodoItem, TodoItem) -> bool,
)
    requires
        item_changed(v, w, id, rel),
        find_item(v.items, id) >= 0 ==> w.items[find_item(v.items, id)].id == v.items[find_item(v.items, id)].id
            && w.items[find_item(v.items, id)].order == v.items[find_item(v.items, id)].order,
    ensures
        store_wf(v) ==> store_wf(w),
{
    if store_wf(v) {
        assert forall|j: int| 0 <= j < v.items.len() implies (#[trigger] w.items[j]).id == v.items[j].id
            && w.items[j].order == v.items[j].order by {
            if j != find_item(v.items, id) {
                assert(w.items[j] == v.items[j]);
            }
        }
        lemma_same_keys(v, w);
    }
}

/// Adding an item keeps the shape.
pub proof fn lemma_item_added_keeps(v: TodoDataView, w: TodoDataView, text: Seq<char>, r: u64)
    requires
        item_added(v, w, text, r),
    ensures
        store_wf(v) ==> store_wf(w),
{
    if store_wf(v) && w != v {
        let n = v.items.len();
        assert forall|j: int| 0 <= j < n implies (#[trigger] w.items[j]) == v.items[j] by {
            assert(w.items.drop_last()[j] == w.items[j]);
        }
        let x = w.items[n as int];
        assert(x == w.items.last());
        assert forall|a: int, b: int| 0 <= a < w.items.len() && 0 <= b < w.items.len() && a != b implies w.items[a].id
            != w.items[b].id by {
            if a < n && b < n {
                assert(v.items[a].id != v.items[b].id);
            } else if a < n {
                assert(v.items[a].id < v.next_id);
            } else {
                assert(v.items[b].id < v.next_id);
            }
        }
        assert forall|a: int, b: int| 0 <= a < b < w.items.len() implies w.items[a].order <= w.items[b].order by {
            if b < n {
                assert(v.items[a].order <= v.items[b].order);
            } else {
                assert(v.items[a].order <= v.items[n - 1].order);
            }
        }
        assert forall|j: int| 0 <= j < w.items.len() implies (#[trigger] w.items[j]).id < w.next_id by {
            if j < n {
                assert(v.items[j].id < v.next_id);
            }
        }
    }
}

/// Deleting an item keeps the shape.
pub proof fn lemma_deleted_keeps(v: TodoDataView, id: u64)
    ensures
        store_wf(v) ==> store_wf(deleted(v, id)),
{
    lemma_find_item_bounds(v.items, id);
    if store_wf(v) && find_item(v.items, id) >= 0 {
        lemma_remove_shape(v, find_item(v.items, id));
    }
}

/// Putting an item back keeps the shape.
pub proof fn lemma_restored_keeps(v: TodoDataView, item: TodoItem)
    requires
        item.id < u64::MAX,
    ensures
        store_wf(v) ==> store_wf(restored(v, item)),
{
    if store_wf(v) {
        let next: u64 = if item.id >= v.next_id {
            (item.id + 1) as u64
        } else {
            v.next_id
        };
        if find_item(v.items, item.id) < 0 {
            lemma_push_sorted_shape(v, item, next);
        } else {
            assert forall|j: int| 0 <= j < v.items.len() implies (#[trigger] v.items[j]).id < next by {}
        }
    }
}

/// Swapping the orders of two items and sorting keeps the shape.
pub proof fn lemma_reordered_keeps(v: TodoDataView, id: u64, direction: int)
    ensures
        reordered(v, id, direction) matches Some(w) ==> (store_wf(v) ==> store_wf(w)),
{
    lemma_find_item_bounds(v.items, id);
    let i = find_item(v.items, id);
    let j = i + direction;
    if store_wf(v) && !(i < 0 || j < 0 || j >= v.items.len()) {
        let a = v.items[i].order;
        let b = v.items[j].order;
        let sw = v.items.update(i, TodoItem { order: b, ..v.items[i] }).update(j, TodoItem { order: a, ..v.items[j] });
        assert forall|k: int| 0 <= k < sw.len() implies (#[trigger] sw[k]).id == v.items[k].id by {
            if k != i && k != j {
                assert(sw[k] == v.items[k]);
            }
        }
        assert forall|x: int, y: int| 0 <= x < sw.len() && 0 <= y < sw.len() && x != y implies sw[x].id != sw[y].id by {
            assert(sw[x].id == v.items[x].id);
            assert(sw[y].id == v.items[y].id);
            assert(v.items[x].id != v.items[y].id);
        }
        assert forall|k: int| 0 <= k < sw.len() implies (#[trigger] sw[k]).id < v.next_id by {
            assert(v.items[k].id < v.next_id);
        }
        lemma_sort_shape(sw);
        lemma_sort_below(sw, v.next_id);
    }
}

/// Dropping the done items keeps the shape.
pub proof fn lemma_not_done_keeps(v: TodoDataView)
    ensures
        store_wf(v) ==> store_wf(TodoDataView { items: not_done(v.items), ..v }),
{
    if store_wf(v) {
        lemma_not_done_shape(v.items, v.next_id);
    }
}

/// Archiving or restoring a branch keeps the shape.
pub proof fn lemma_branch_archived_keeps(v: TodoDataView, name: Seq<char>, archived: bool)
    ensures
        store_wf(v) ==> store_wf(branch_archived(v, name, archived)),
{
    if store_wf(v) {
        let w = branch_archived(v, name, archived);
        if normalized(name) is Some {
            assert forall|j: int| 0 <= j < v.items.len() implies (#[trigger] w.items[j]).id == v.items[j].id
                && w.items[j].order == v.items[j].order by {}
            lemma_same_keys(v, w);
        }
    }
}

/// Changing at most the item at `i`, its id and order kept, keeps the
/// shape.
pub proof fn lemma_one_changed_keeps(v: TodoDataView, w: TodoDataView, i: int)
    requires
        w.next_id == v.next_id,
        w.items.len() == v.items.len(),
        forall|j: int| 0 <= j < v.items.len() && j != i ==> w.items[j] == v.items[j],
        0 <= i < v.items.len() ==> w.items[i].id == v.items[i].id && w.items[i].order == v.items[i].order,
    ensures
        store_wf(v) ==> store_wf(w),
{
    if store_wf(v) {
        assert forall|j: int| 0 <= j < v.items.len() implies (#[trigger] w.items[j]).id == v.items[j].id
            && w.items[j].order == v.items[j].order by {
            if j != i {
                assert(w.items[j] == v.items[j]);
            }
        }
        lemma_same_keys(v, w);
    }
}

} // verus!
