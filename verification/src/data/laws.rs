//! Properties of the list that span several operations.

use vstd::prelude::*;

use super::category::{badge, join, kept_parts, matches_path, normalized};
use super::order::{insert_by_order, insert_pos, sort_by_order};
use super::shape::store_wf;
use super::{
    category_renamed, category_set, deleted, find_item, item_added, item_changed, item_renamed, lemma_find_item_bounds, map_item,
    next_priority, priority_below, restored, same_but_notes, text_updated, toggled_doing, toggled_done, Priority, TodoDataView,
    TodoItem,
};
use crate::text::{is_ws, lemma_split_append, lemma_split_single, split_on, trim, trim_end, trim_start};

verus! {

proof fn lemma_insert_pos_at(t: Seq<TodoItem>, key: u64, k: int)
    requires
        0 <= k <= t.len(),
        forall|j: int| k <= j < t.len() ==> t[j].order > key,
        k == 0 || t[k - 1].order <= key,
    ensures
        insert_pos(t, key) == k,
    decreases t.len(),
{
    if t.len() > k {
        lemma_insert_pos_at(t.drop_last(), key, k);
    }
}

/// Sorting a list already in order changes nothing.
pub proof fn lemma_sort_sorted(s: Seq<TodoItem>)
    requires
        forall|a: int, b: int| 0 <= a < b < s.len() ==> s[a].order <= s[b].order,
    ensures
        sort_by_order(s) == s,
    decreases s.len(),
{
    if s.len() > 0 {
        let p = s.drop_last();
        lemma_sort_sorted(p);
        lemma_insert_pos_at(p, s.last().order, p.len() as int);
        assert(p.insert(p.len() as int, s.last()) =~= s);
    }
}

proof fn lemma_find_absent(items: Seq<TodoItem>, id: u64)
    requires
        forall|j: int| 0 <= j < items.len() ==> items[j].id != id,
    ensures
        find_item(items, id) < 0,
{
    lemma_find_item_bounds(items, id);
}

/// Undoing a delete: in a list of the shape every operation keeps
/// (`store_wf`) whose items have distinct orders, restoring the removed item
/// gives back the list it was removed from, and the next id handed out is
/// still past the restored one.
pub proof fn law_delete_then_restore(v: TodoDataView, id: u64)
    requires
        find_item(v.items, id) >= 0,
        store_wf(v),
        forall|a: int, b: int|
            #![trigger v.items[a], v.items[b]]
            0 <= a < v.items.len() && 0 <= b < v.items.len() && a != b ==> v.items[a].order != v.items[b].order,
    ensures
        restored(deleted(v, id), v.items[find_item(v.items, id)]) == v,
        restored(deleted(v, id), v.items[find_item(v.items, id)]).next_id > v.items[find_item(v.items, id)].id,
{
    assert forall|a: int, b: int| 0 <= a < b < v.items.len() implies v.items[a].order < v.items[b].order by {
        assert(v.items[a].order <= v.items[b].order);
        assert(v.items[a].order != v.items[b].order);
    }
    assert forall|a: int, b: int|
        0 <= a < v.items.len() && 0 <= b < v.items.len() && a != b implies v.items[a].id != v.items[b].id by {}
    lemma_find_item_bounds(v.items, id);
    assert(v.items[find_item(v.items, id)].id < v.next_id);
    lemma_find_item_bounds(v.items, id);
    let i = find_item(v.items, id);
    let x = v.items[i];
    let t = v.items.remove(i);
    assert forall|j: int| 0 <= j < t.len() implies t[j].id != x.id by {
        if j < i {
            assert(t[j] == v.items[j]);
        } else {
            assert(t[j] == v.items[j + 1]);
        }
    }
    lemma_find_absent(t, x.id);
    assert forall|a: int, b: int| 0 <= a < b < t.len() implies t[a].order <= t[b].order by {
        let aa = if a < i {
            a
        } else {
            a + 1
        };
        let bb = if b < i {
            b
        } else {
            b + 1
        };
        assert(t[a] == v.items[aa]);
        assert(t[b] == v.items[bb]);
    }
    lemma_sort_sorted(t);
    assert(t.push(x).drop_last() =~= t);
    assert(t.push(x).last() == x);
    assert forall|j: int| i <= j < t.len() implies t[j].order > x.order by {
        assert(t[j] == v.items[j + 1]);
    }
    if i > 0 {
        assert(t[i - 1] == v.items[i - 1]);
    }
    lemma_insert_pos_at(t, x.order, i);
    assert(t.insert(i, x) =~= v.items);
    assert(sort_by_order(t.push(x)) == insert_by_order(sort_by_order(t), x));
}

/// A new item gets a fresh id: in a list of the shape every operation
/// keeps, the id that a successful `add` hands out belongs to no item that
/// was there, and is the largest id of the list after.
pub proof fn law_add_gives_fresh_id(v: TodoDataView, w: TodoDataView, text: Seq<char>, r: u64)
    requires
        store_wf(v),
        item_added(v, w, text, r),
        r != 0,
    ensures
        forall|j: int| 0 <= j < v.items.len() ==> (#[trigger] v.items[j]).id != r,
        forall|j: int| 0 <= j < w.items.len() ==> (#[trigger] w.items[j]).id <= r,
        w.items.last().id == r,
{
    let t = trim(text);
    if t.len() == 0 || crate::text::utf8_len(t) > 500 {
        assert(r == 0);
    } else {
        assert forall|j: int| 0 <= j < v.items.len() implies (#[trigger] v.items[j]).id != r by {
            assert(v.items[j].id < v.next_id);
        }
        assert forall|j: int| 0 <= j < w.items.len() implies (#[trigger] w.items[j]).id <= r by {
            if j < v.items.len() {
                assert(w.items.drop_last()[j] == w.items[j]);
                assert(v.items[j].id < v.next_id);
            }
        }
    }
}

/// After either toggle an item is never both done and in progress.
pub proof fn law_done_and_doing_exclusive(it: TodoItem)
    ensures
        !(toggled_done(it).done && toggled_done(it).doing),
        !(toggled_doing(it).done && toggled_doing(it).doing),
{
}

/// Cycling the priority four times comes back to the start.
pub proof fn law_priority_cycle(p: Priority)
    ensures
        next_priority(next_priority(next_priority(next_priority(p)))) == p,
{
}

/// Cycling the priority raises it by one step, Low to Normal to High to
/// Urgent, with no priority in between; from Urgent, the highest, it wraps
/// round to Low, the lowest.
pub proof fn law_priority_next_raises(p: Priority)
    ensures
        p != Priority::Urgent ==> priority_below(p, next_priority(p)),
        p != Priority::Urgent ==> forall|q: Priority|
            !(#[trigger] priority_below(p, q) && priority_below(q, next_priority(p))),
        p == Priority::Urgent ==> forall|q: Priority| q != p ==> #[trigger] priority_below(q, p),
        p == Priority::Urgent ==> next_priority(p) == Priority::Low,
        forall|q: Priority| !(#[trigger] priority_below(q, Priority::Low)),
{
}

pub proof fn lemma_find_same_ids(a: Seq<TodoItem>, b: Seq<TodoItem>, id: u64)
    requires
        a.len() == b.len(),
        forall|j: int| 0 <= j < a.len() ==> a[j].id == b[j].id,
    ensures
        find_item(a, id) == find_item(b, id),
    decreases a.len(),
{
    if a.len() > 0 {
        lemma_find_same_ids(a.drop_first(), b.drop_first(), id);
    }
}

/// Deleting a note and restoring it at the same place gives back the log
/// as it was; the rest of the list is untouched.
pub proof fn law_note_delete_then_restore(
    v0: TodoDataView,
    v1: TodoDataView,
    v2: TodoDataView,
    id: u64,
    index: usize,
)
    requires
        find_item(v0.items, id) >= 0,
        index < v0.items[find_item(v0.items, id)].notes@.len(),
        item_changed(
            v0,
            v1,
            id,
            |a: TodoItem, b: TodoItem| same_but_notes(a, b) && b.notes@ == a.notes@.remove(index as int),
        ),
        item_changed(
            v1,
            v2,
            id,
            |a: TodoItem, b: TodoItem|
                same_but_notes(a, b) && b.notes@ == a.notes@.insert(
                    if index <= a.notes@.len() {
                        index as int
                    } else {
                        a.notes@.len() as int
                    },
                    v0.items[find_item(v0.items, id)].notes@[index as int],
                ),
        ),
    ensures
        ({
            let i = find_item(v0.items, id);
            &&& v2.next_id == v0.next_id
            &&& v2.categories == v0.categories
            &&& v2.archived_categories == v0.archived_categories
            &&& v2.items.len() == v0.items.len()
            &&& forall|j: int| 0 <= j < v0.items.len() && j != i ==> v2.items[j] == v0.items[j]
            &&& same_but_notes(v0.items[i], v2.items[i])
            &&& v2.items[i].notes@ == v0.items[i].notes@
        }),
{
    lemma_find_item_bounds(v0.items, id);
    let i = find_item(v0.items, id);
    assert forall|j: int| 0 <= j < v0.items.len() implies v0.items[j].id == v1.items[j].id by {
        if j != i {
            assert(v1.items[j] == v0.items[j]);
        }
    }
    lemma_find_same_ids(v0.items, v1.items, id);
    let n0 = v0.items[i].notes@;
    assert(n0.remove(index as int).insert(index as int, n0[index as int]) =~= n0);
}

/// A category path matches itself as a filter, and inside its own branch
/// its badge is hidden.
pub proof fn law_category_self(c: Seq<char>)
    ensures
        matches_path(c, c),
        badge(c, Some(c)) is None,
{
    assert(c.skip(c.len() as int) =~= Seq::<char>::empty());
}

/// Filtering by a parent category takes in its subcategories: a path
/// `parent/rest` matches the filter `parent`, and its badge there is just
/// `rest` (with `|` for `/`).
pub proof fn law_parent_filter_covers_children(parent: Seq<char>, rest: Seq<char>)
    requires
        rest.len() > 0,
    ensures
        matches_path(parent + seq!['/'] + rest, parent),
        badge(parent + seq!['/'] + rest, Some(parent)) == Some(crate::data::category::slash_to_bar(rest)),
{
    let c = parent + seq!['/'] + rest;
    assert(c.take(parent.push('/').len() as int) =~= parent.push('/'));
    assert(c.skip(parent.len() as int) =~= seq!['/'] + rest);
    assert((seq!['/'] + rest).drop_first() =~= rest);
}

proof fn lemma_trim_start_props(s: Seq<char>)
    ensures
        exists|a: int| 0 <= a <= s.len() && trim_start(s) == s.skip(a),
        trim_start(s).len() > 0 ==> !is_ws(trim_start(s)[0]),
    decreases s.len(),
{
    if s.len() > 0 && is_ws(s[0]) {
        lemma_trim_start_props(s.drop_first());
        let a = choose|a: int|
            0 <= a <= s.drop_first().len() && trim_start(s.drop_first()) == s.drop_first().skip(a);
        assert(s.drop_first().skip(a) =~= s.skip(a + 1));
    } else {
        assert(s.skip(0) =~= s);
    }
}

proof fn lemma_trim_end_props(s: Seq<char>)
    ensures
        exists|b: int| 0 <= b <= s.len() && trim_end(s) == s.take(b),
        trim_end(s).len() > 0 ==> !is_ws(trim_end(s).last()),
    decreases s.len(),
{
    if s.len() > 0 && is_ws(s.last()) {
        lemma_trim_end_props(s.drop_last());
        let b = choose|b: int|
            0 <= b <= s.drop_last().len() && trim_end(s.drop_last()) == s.drop_last().take(b);
        assert(s.drop_last().take(b) =~= s.take(b));
    } else {
        assert(s.take(s.len() as int) =~= s);
    }
}

/// Trimming twice is trimming once.
pub proof fn lemma_trim_idempotent(s: Seq<char>)
    ensures
        trim(trim(s)) == trim(s),
        !trim(s).contains('/') || s.contains('/'),
{
    let u = trim_start(s);
    lemma_trim_start_props(s);
    lemma_trim_end_props(u);
    let t = trim_end(u);
    let b = choose|b: int| 0 <= b <= u.len() && trim_end(u) == u.take(b);
    let a = choose|a: int| 0 <= a <= s.len() && trim_start(s) == s.skip(a);
    if t.len() > 0 {
        assert(t[0] == u[0]);
        assert(trim_start(t) == t);
    } else {
        assert(trim_start(t) == t);
    }
    if t.len() > 0 {
        assert(trim_end(t) == t);
    }
    if t.contains('/') {
        let j = choose|j: int| 0 <= j < t.len() && t[j] == '/';
        assert(t[j] == s[j + a]);
    }
}

proof fn lemma_split_no_sep(s: Seq<char>, sep: char)
    ensures
        forall|i: int|
            0 <= i < split_on(s, sep).len() ==> !(#[trigger] split_on(s, sep)[i]).contains(sep),
    decreases s.len(),
{
    crate::text::lemma_split_len(s, sep);
    if s.len() > 0 {
        lemma_split_no_sep(s.drop_last(), sep);
        crate::text::lemma_split_len(s.drop_last(), sep);
        let prev = split_on(s.drop_last(), sep);
        if s.last() != sep {
            assert forall|i: int| 0 <= i < split_on(s, sep).len() implies !(#[trigger] split_on(
                s,
                sep,
            )[i]).contains(sep) by {
                if i == prev.len() - 1 {
                    let x = prev.last().push(s.last());
                    if x.contains(sep) {
                        let j = choose|j: int| 0 <= j < x.len() && x[j] == sep;
                        if j < prev.last().len() {
                            assert(prev.last()[j] == sep);
                            assert(prev[prev.len() - 1].contains(sep));
                        }
                    }
                }
            }
        } else {
            assert forall|i: int| 0 <= i < split_on(s, sep).len() implies !(#[trigger] split_on(
                s,
                sep,
            )[i]).contains(sep) by {
                if i < prev.len() {
                    assert(split_on(s, sep)[i] == prev[i]);
                }
            }
        }
    }
}

proof fn lemma_kept_parts_props(parts: Seq<Seq<char>>)
    requires
        forall|i: int| 0 <= i < parts.len() ==> !(#[trigger] parts[i]).contains('/'),
    ensures
        forall|i: int|
            0 <= i < kept_parts(parts).len() ==> {
                let x = #[trigger] kept_parts(parts)[i];
                &&& x.len() > 0
                &&& !x.contains('/')
                &&& trim(x) == x
            },
    decreases parts.len(),
{
    if parts.len() > 0 {
        assert forall|i: int| 0 <= i < parts.drop_last().len() implies !(
        #[trigger] parts.drop_last()[i]).contains('/') by {
            assert(parts.drop_last()[i] == parts[i]);
        }
        lemma_kept_parts_props(parts.drop_last());
        lemma_trim_idempotent(parts.last());
        assert(!parts[parts.len() - 1].contains('/'));
        let prev = kept_parts(parts.drop_last());
        let t = trim(parts.last());
        assert forall|i: int| 0 <= i < kept_parts(parts).len() implies {
            let x = #[trigger] kept_parts(parts)[i];
            &&& x.len() > 0
            &&& !x.contains('/')
            &&& trim(x) == x
        } by {
            if i < prev.len() {
                assert(kept_parts(parts)[i] == prev[i]);
            } else {
                assert(kept_parts(parts)[i] == t);
            }
        }
    }
}

proof fn lemma_kept_parts_fixed(ps: Seq<Seq<char>>)
    requires
        forall|i: int| 0 <= i < ps.len() ==> (#[trigger] ps[i]).len() > 0 && trim(ps[i]) == ps[i],
    ensures
        kept_parts(ps) == ps,
    decreases ps.len(),
{
    if ps.len() > 0 {
        lemma_kept_parts_fixed(ps.drop_last());
        assert(ps.drop_last().push(ps.last()) =~= ps);
        assert(ps[ps.len() - 1] == ps.last());
    }
}

proof fn lemma_split_join(ps: Seq<Seq<char>>)
    requires
        ps.len() >= 1,
        forall|i: int| 0 <= i < ps.len() ==> !(#[trigger] ps[i]).contains('/'),
    ensures
        split_on(join(ps, '/'), '/') == ps,
    decreases ps.len(),
{
    if ps.len() == 1 {
        lemma_split_single(ps[0], '/');
        assert(seq![ps[0]] =~= ps);
    } else {
        assert forall|i: int| 0 <= i < ps.drop_last().len() implies !(
        #[trigger] ps.drop_last()[i]).contains('/') by {
            assert(ps.drop_last()[i] == ps[i]);
        }
        lemma_split_join(ps.drop_last());
        assert(!ps[ps.len() - 1].contains('/'));
        lemma_split_append(join(ps.drop_last(), '/'), ps.last(), '/');
        assert(ps.drop_last().push(ps.last()) =~= ps);
    }
}

/// The normal form of a category path is its own normal form.
pub proof fn law_normalize_idempotent(name: Seq<char>)
    ensures
        normalized(name) matches Some(n) ==> normalized(n) == Some(n),
{
    if let Some(n) = normalized(name) {
        let k = kept_parts(split_on(name, '/'));
        lemma_split_no_sep(name, '/');
        lemma_kept_parts_props(split_on(name, '/'));
        lemma_split_join(k);
        lemma_kept_parts_fixed(k);
    }
}


/// Notes ride along with their item: archiving or restoring it, filing it
/// under a category, renaming it, or renaming the category branch it lies
/// in keeps every item's note log as it was.
pub proof fn law_notes_ride_along(
    v: TodoDataView,
    id: u64,
    flag: bool,
    archived: TodoDataView,
    c: Option<Seq<char>>,
    filed: TodoDataView,
    text: Seq<char>,
    r_text: bool,
    retexted: TodoDataView,
    old_path: Seq<char>,
    new_path: Seq<char>,
    r_path: bool,
    moved: TodoDataView,
)
    requires
        archived == map_item(v, id, |it: TodoItem| (TodoItem { archived: flag, ..it })),
        category_set(v, filed, id, c),
        text_updated(v, retexted, id, text, r_text),
        category_renamed(v, moved, old_path, new_path, r_path),
    ensures
        forall|j: int| 0 <= j < v.items.len() ==> (#[trigger] archived.items[j]).notes == v.items[j].notes,
        forall|j: int| 0 <= j < v.items.len() ==> (#[trigger] filed.items[j]).notes == v.items[j].notes,
        forall|j: int| 0 <= j < v.items.len() ==> (#[trigger] retexted.items[j]).notes == v.items[j].notes,
        forall|j: int| 0 <= j < v.items.len() ==> (#[trigger] moved.items[j]).notes == v.items[j].notes,
{
    let i = find_item(v.items, id);
    lemma_find_item_bounds(v.items, id);
    assert forall|j: int| 0 <= j < v.items.len() implies (#[trigger] moved.items[j]).notes == v.items[j].notes by {
        if normalized(new_path) is Some {
            assert(item_renamed(v.items[j], moved.items[j], old_path, normalized(new_path)->0));
        }
    }
}

} // verus!
