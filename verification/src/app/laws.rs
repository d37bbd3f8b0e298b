//! Laws of the application state: what undo gives back, how deep the undo
//! stack gets, how picking items in a bulk selection behaves, and what
//! cancelling a sidebar resize restores.

use vstd::prelude::*;

use crate::data::category::texts;
use crate::data::laws::{law_delete_then_restore, lemma_find_same_ids};
use crate::data::{find_item, lemma_find_item, TodoDataView, TodoItem};
use super::bulk::{archive_recorded, cascade, delete_recorded};
use super::history::{archived_branches, archived_items, deleted_items, pushed, removed_branches, restored_items, undo_effect};
use super::select::{toggled_id, without_id};
use super::{App, UndoEntry, SIDEBAR_WIDTH_MAX, SIDEBAR_WIDTH_MIN, UNDO_STACK_LIMIT};

verus! {

/// Whether the ids of `v` are distinct and below its id counter, and its
/// items in strictly increasing order: what every list the library builds
/// keeps.
pub open spec fn list_wf(v: TodoDataView) -> bool {
    &&& forall|a: int, b: int|
        0 <= a < v.items.len() && 0 <= b < v.items.len() && a != b ==> v.items[a].id != v.items[b].id
    &&& forall|a: int, b: int| 0 <= a < b < v.items.len() ==> v.items[a].order < v.items[b].order
    &&& forall|j: int| 0 <= j < v.items.len() ==> v.items[j].id < v.next_id
}

/// Confirming the delete of one item, and then undoing, gives the list back
/// as it was: `w` and `s1` are the list and the undo stack after the
/// confirmation, as `App::confirm_delete_yes` states them, and `u` the list
/// after `App::undo` of the step it recorded.
pub proof fn law_delete_then_undo(
    v: TodoDataView,
    id: u64,
    s0: Seq<UndoEntry>,
    s1: Seq<UndoEntry>,
    w: TodoDataView,
    u: TodoDataView,
)
    requires
        list_wf(v),
        find_item(v.items, id) >= 0,
        ({
            let (d, gone) = deleted_items(v, cascade(seq![id], v.items, texts(Seq::empty())));
            &&& w == removed_branches(d, texts(Seq::empty()))
            &&& delete_recorded(s0, s1, gone)
        }),
        undo_effect(w, u, s1.last()),
    ensures
        u == v,
{
    let ids = cascade(seq![id], v.items, texts(Seq::<String>::empty()));
    assert(texts(Seq::<String>::empty()) =~= Seq::<Seq<char>>::empty());
    assert(ids == seq![id]);
    assert(seq![id].drop_last() =~= Seq::<u64>::empty());
    let i = find_item(v.items, id);
    crate::data::lemma_find_item_bounds(v.items, id);
    assert(ids.last() == id);
    assert(ids.drop_last() =~= Seq::<u64>::empty());
    assert(deleted_items(v, ids.drop_last()) == (v, Seq::<TodoItem>::empty()));
    assert(Seq::<TodoItem>::empty().push(v.items[i]) =~= seq![v.items[i]]);
    assert(deleted_items(v, ids) == (crate::data::deleted(v, id), seq![v.items[i]]));
    law_delete_then_restore(v, id);
    assert(seq![v.items[i]].drop_last() =~= Seq::<TodoItem>::empty());
    assert(restored_items(w, seq![v.items[i]].drop_last()) == w);
    assert(restored_items(w, seq![v.items[i]]) == crate::data::restored(w, v.items[i]));
}

proof fn lemma_find_distinct(items: Seq<TodoItem>, j: int)
    requires
        0 <= j < items.len(),
        forall|a: int, b: int| 0 <= a < items.len() && 0 <= b < items.len() && a != b ==> items[a].id != items[b].id,
    ensures
        find_item(items, items[j].id) == j,
{
    lemma_find_item(items, items[j].id, j);
}

proof fn lemma_archived_items(v: TodoDataView, ids: Seq<u64>, flag: bool)
    ensures
        ({
            let r = archived_items(v, ids, flag);
            &&& r.items.len() == v.items.len()
            &&& r == (TodoDataView { items: r.items, ..v })
            &&& forall|j: int| 0 <= j < v.items.len() ==> (#[trigger] r.items[j]).id == v.items[j].id
            &&& forall|j: int|
                0 <= j < v.items.len() ==> #[trigger] r.items[j] == if ids.contains(v.items[j].id) && find_item(
                    v.items,
                    v.items[j].id,
                ) == j {
                    TodoItem { archived: flag, ..v.items[j] }
                } else {
                    v.items[j]
                }
        }),
    decreases ids.len(),
{
    if ids.len() > 0 {
        let p = ids.drop_last();
        let x = ids.last();
        lemma_archived_items(v, p, flag);
        let r0 = archived_items(v, p, flag);
        let r = archived_items(v, ids, flag);
        lemma_find_same_ids(r0.items, v.items, x);
        let i = find_item(v.items, x);
        crate::data::lemma_find_item_bounds(v.items, x);
        assert forall|j: int| 0 <= j < v.items.len() implies (#[trigger] r.items[j]).id == v.items[j].id
            && r.items[j] == if ids.contains(v.items[j].id) && find_item(v.items, v.items[j].id) == j {
            TodoItem { archived: flag, ..v.items[j] }
        } else {
            v.items[j]
        } by {
            let y = v.items[j].id;
            assert(ids.contains(y) <==> (p.contains(y) || y == x)) by {
                if ids.contains(y) {
                    let k = choose|k: int| 0 <= k < ids.len() && ids[k] == y;
                    if k < ids.len() - 1 {
                        assert(p[k] == y);
                    }
                }
                if p.contains(y) {
                    let k = choose|k: int| 0 <= k < p.len() && p[k] == y;
                    assert(ids[k] == y);
                }
                if y == x {
                    assert(ids[ids.len() - 1] == y);
                }
            }
            if i >= 0 && j == i {
                assert(y == x);
            }
        }
        assert(r == (TodoDataView { items: r.items, ..v }));
    }
}

/// Archiving items through a bulk action, and then undoing, gives the list
/// back as it was, when none of them was archived before: `w` and `s1` are
/// the list and the undo stack after the archive, as the archiving
/// methods state them, and `u` the list after `App::undo`.
pub proof fn law_archive_then_undo(
    v: TodoDataView,
    ids: Seq<u64>,
    s0: Seq<UndoEntry>,
    s1: Seq<UndoEntry>,
    w: TodoDataView,
    u: TodoDataView,
)
    requires
        list_wf(v),
        ids.len() > 0,
        forall|j: int| 0 <= j < v.items.len() && ids.contains(#[trigger] v.items[j].id) ==> !v.items[j].archived,
        w == archived_branches(archived_items(v, ids, true), Seq::empty(), true),
        archive_recorded(s0, s1, ids, Seq::empty(), false),
        undo_effect(w, u, s1.last()),
    ensures
        u == v,
{
    let w0 = archived_items(v, ids, true);
    assert(w == w0);
    lemma_archived_items(v, ids, true);
    lemma_archived_items(w0, ids, false);
    let u0 = archived_items(w0, ids, false);
    assert(u == u0);
    assert forall|j: int| 0 <= j < v.items.len() implies #[trigger] u0.items[j] == v.items[j] by {
        lemma_find_distinct(v.items, j);
        lemma_find_same_ids(w0.items, v.items, v.items[j].id);
        assert(w0.items[j].id == v.items[j].id);
    }
    assert(u0.items =~= v.items);
}

/// However many steps are recorded, the undo stack never holds more than
/// `UNDO_STACK_LIMIT` of them.
pub proof fn law_undo_depth_bounded(s: Seq<UndoEntry>, e: UndoEntry)
    requires
        s.len() <= UNDO_STACK_LIMIT,
    ensures
        pushed(s, e).len() <= UNDO_STACK_LIMIT,
{
}

proof fn lemma_without_id(s: Seq<u64>, x: u64)
    ensures
        forall|y: u64| #[trigger] without_id(s, x).contains(y) <==> s.contains(y) && y != x,
        s.no_duplicates() ==> without_id(s, x).no_duplicates(),
        !s.contains(x) ==> without_id(s, x) == s,
    decreases s.len(),
{
    if s.len() > 0 {
        let p = s.drop_last();
        lemma_without_id(p, x);
        let w = without_id(s, x);
        let wp = without_id(p, x);
        assert forall|y: u64| #[trigger] w.contains(y) <==> s.contains(y) && y != x by {
            if s.contains(y) {
                let k = choose|k: int| 0 <= k < s.len() && s[k] == y;
                if k < s.len() - 1 {
                    assert(p[k] == y);
                }
            }
            if p.contains(y) {
                let k = choose|k: int| 0 <= k < p.len() && p[k] == y;
                assert(s[k] == y);
            }
            if s.last() != x {
                assert(w == wp.push(s.last()));
                if wp.contains(y) {
                    let k = choose|k: int| 0 <= k < wp.len() && wp[k] == y;
                    assert(w[k] == y);
                }
                if w.contains(y) {
                    let k = choose|k: int| 0 <= k < w.len() && w[k] == y;
                    if k < wp.len() {
                        assert(wp[k] == y);
                    }
                }
                assert(w[w.len() - 1] == s.last());
            }
        }
        if s.no_duplicates() {
            assert(p.no_duplicates()) by {
                assert forall|a: int, b: int| 0 <= a < p.len() && 0 <= b < p.len() && a != b implies p[a]
                    != p[b] by {
                    assert(p[a] == s[a] && p[b] == s[b]);
                }
            }
            if s.last() != x {
                assert(!p.contains(s.last())) by {
                    if p.contains(s.last()) {
                        let k = choose|k: int| 0 <= k < p.len() && p[k] == s.last();
                        assert(s[k] == s[s.len() - 1]);
                    }
                }
                assert(!wp.contains(s.last()));
                assert forall|a: int, b: int| 0 <= a < w.len() && 0 <= b < w.len() && a != b implies w[a]
                    != w[b] by {
                    if a < wp.len() && b < wp.len() {
                        assert(w[a] == wp[a] && w[b] == wp[b]);
                    } else if a < wp.len() {
                        assert(w[a] == wp[a]);
                    } else if b < wp.len() {
                        assert(w[b] == wp[b]);
                    }
                }
            }
        }
        if !s.contains(x) {
            assert(!p.contains(x)) by {
                if p.contains(x) {
                    let k = choose|k: int| 0 <= k < p.len() && p[k] == x;
                    assert(s[k] == x);
                }
            }
            assert(s.last() != x);
            assert(s == p.push(s.last()));
        }
    } else {
        assert(without_id(s, x) =~= s);
    }
}

/// Space in a bulk selection: the highlighted id is picked exactly when it
/// was not, each id stays picked at most once, and pressing Space twice on
/// an id that was not picked leaves the selection as it was.
pub proof fn law_toggle_pick(s: Seq<u64>, x: u64)
    ensures
        toggled_id(s, x).contains(x) <==> !s.contains(x),
        forall|y: u64| y != x ==> (#[trigger] toggled_id(s, x).contains(y) <==> s.contains(y)),
        s.no_duplicates() ==> toggled_id(s, x).no_duplicates(),
        !s.contains(x) ==> toggled_id(toggled_id(s, x), x) == s,
{
    lemma_without_id(s, x);
    let t = s.push(x);
    assert(t[t.len() - 1] == x);
    assert forall|y: u64| #[trigger] t.contains(y) <==> (s.contains(y) || y == x) by {
        if s.contains(y) {
            let k = choose|k: int| 0 <= k < s.len() && s[k] == y;
            assert(t[k] == y);
        }
        if t.contains(y) && y != x {
            let k = choose|k: int| 0 <= k < t.len() && t[k] == y;
            assert(s[k] == y);
        }
    }
    if s.no_duplicates() && !s.contains(x) {
        assert forall|a: int, b: int| 0 <= a < t.len() && 0 <= b < t.len() && a != b implies t[a] != t[b] by {
            if a < s.len() && b < s.len() {
                assert(t[a] == s[a] && t[b] == s[b]);
            } else if a < s.len() {
                assert(t[a] == s[a]);
            } else if b < s.len() {
                assert(t[b] == s[b]);
            }
        }
    }
    if !s.contains(x) {
        lemma_without_id(t, x);
        assert(t.drop_last() =~= s);
        assert(without_id(t, x) == without_id(s, x));
    }
}


/// Resizing the sidebar and then cancelling puts back the width and the
/// focused pane it started from, whatever the resize; meanwhile the width
/// stays within `SIDEBAR_WIDTH_MIN..=SIDEBAR_WIDTH_MAX`.
pub proof fn law_resize_then_cancel(a0: App, a1: App, a2: App, a3: App, delta: i16)
    requires
        App::after_enter_resize_sidebar(a0, a1),
        App::after_resize_sidebar(a1, a2, delta),
        App::after_cancel_resize_sidebar(a2, a3),
    ensures
        a3.sidebar_width == a0.sidebar_width,
        a3.pane == a0.pane,
        a3.mode is Normal,
        SIDEBAR_WIDTH_MIN <= a2.sidebar_width <= SIDEBAR_WIDTH_MAX,
{
}

} // verus!
