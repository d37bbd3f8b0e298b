//! Changes to many items at once, the undo stack, and undoing.

use vstd::prelude::*;

use crate::data::category::texts;
use crate::data::{
    branch_archived, branch_filter, deleted, find_item, item_changed, map_item, restored,
    same_but_notes, toggled_done, TodoData, TodoDataView, TodoItem,
};
use crate::defs::Mode;
use super::{App, UndoEntry, UNDO_STACK_LIMIT};

verus! {

/// The list after setting the archived flag of each item of `ids` in turn.
pub open spec fn archived_items(v: TodoDataView, ids: Seq<u64>, flag: bool) -> TodoDataView
    decreases ids.len(),
{
    if ids.len() == 0 {
        v
    } else {
        map_item(
            archived_items(v, ids.drop_last(), flag),
            ids.last(),
            |it: TodoItem| (TodoItem { archived: flag, ..it }),
        )
    }
}

/// The list after archiving (or restoring) each category branch of
/// `names` in turn.
pub open spec fn archived_branches(v: TodoDataView, names: Seq<Seq<char>>, flag: bool) -> TodoDataView
    decreases names.len(),
{
    if names.len() == 0 {
        v
    } else {
        branch_archived(archived_branches(v, names.drop_last(), flag), names.last(), flag)
    }
}

/// The list after flipping the done flag of each item of `ids` in turn.
pub open spec fn toggled_items(v: TodoDataView, ids: Seq<u64>) -> TodoDataView
    decreases ids.len(),
{
    if ids.len() == 0 {
        v
    } else {
        map_item(toggled_items(v, ids.drop_last()), ids.last(), |it: TodoItem| toggled_done(it))
    }
}

/// The list after deleting each item of `ids` in turn, with the items
/// removed, in that order.
pub open spec fn deleted_items(v: TodoDataView, ids: Seq<u64>) -> (TodoDataView, Seq<TodoItem>)
    decreases ids.len(),
{
    if ids.len() == 0 {
        (v, Seq::empty())
    } else {
        let (w, gone) = deleted_items(v, ids.drop_last());
        let i = find_item(w.items, ids.last());
        if i < 0 {
            (w, gone)
        } else {
            (deleted(w, ids.last()), gone.push(w.items[i]))
        }
    }
}

/// The list after removing each category branch of `names` in turn.
pub open spec fn removed_branches(v: TodoDataView, names: Seq<Seq<char>>) -> TodoDataView
    decreases names.len(),
{
    if names.len() == 0 {
        v
    } else {
        let w = removed_branches(v, names.drop_last());
        TodoDataView {
            categories: branch_filter(w.categories, names.last(), false),
            archived_categories: branch_filter(w.archived_categories, names.last(), false),
            ..w
        }
    }
}

/// The list after putting back each item of `items` in turn.
pub open spec fn restored_items(v: TodoDataView, items: Seq<TodoItem>) -> TodoDataView
    decreases items.len(),
{
    if items.len() == 0 {
        v
    } else {
        restored(restored_items(v, items.drop_last()), items.last())
    }
}

/// The undo stack after pushing `e`: the oldest step goes once there are
/// more than `UNDO_STACK_LIMIT`.
pub open spec fn pushed(s: Seq<UndoEntry>, e: UndoEntry) -> Seq<UndoEntry> {
    if s.len() + 1 > UNDO_STACK_LIMIT {
        s.push(e).drop_first()
    } else {
        s.push(e)
    }
}

/// Sets the archived flag of each item of `ids`.
pub fn archive_ids(data: &mut TodoData, ids: &Vec<u64>, flag: bool)
    ensures
        final(data)@ == archived_items(old(data)@, ids@, flag),
{
    let mut i: usize = 0;
    while i < ids.len()
        invariant
            0 <= i <= ids.len(),
            data@ == archived_items(old(data)@, ids@.take(i as int), flag),
        decreases ids.len() - i,
    {
        assert(ids@.take(i + 1).drop_last() =~= ids@.take(i as int));
        data.set_archived(ids[i], flag);
        i = i + 1;
    }
    assert(ids@.take(ids.len() as int) =~= ids@);
}

/// Archives (or restores) each category branch of `names`.
pub fn archive_names(data: &mut TodoData, names: &Vec<String>, flag: bool)
    ensures
        final(data)@ == archived_branches(old(data)@, texts(names@), flag),
{
    let mut i: usize = 0;
    while i < names.len()
        invariant
            0 <= i <= names.len(),
            data@ == archived_branches(old(data)@, texts(names@).take(i as int), flag),
        decreases names.len() - i,
    {
        assert(texts(names@).take(i + 1).drop_last() =~= texts(names@).take(i as int));
        data.set_category_archived(names[i].as_str(), flag);
        i = i + 1;
    }
    assert(texts(names@).take(names.len() as int) =~= texts(names@));
}

/// Flips the done flag of each item of `ids`.
pub fn toggle_ids(data: &mut TodoData, ids: &Vec<u64>)
    ensures
        final(data)@ == toggled_items(old(data)@, ids@),
{
    let mut i: usize = 0;
    while i < ids.len()
        invariant
            0 <= i <= ids.len(),
            data@ == toggled_items(old(data)@, ids@.take(i as int)),
        decreases ids.len() - i,
    {
        assert(ids@.take(i + 1).drop_last() =~= ids@.take(i as int));
        data.toggle_done(ids[i]);
        i = i + 1;
    }
    assert(ids@.take(ids.len() as int) =~= ids@);
}

/// Deletes each item of `ids` and hands back the removed items.
pub fn delete_ids(data: &mut TodoData, ids: &Vec<u64>) -> (r: Vec<TodoItem>)
    ensures
        (final(data)@, r@) == deleted_items(old(data)@, ids@),
{
    let mut gone: Vec<TodoItem> = Vec::new();
    let mut i: usize = 0;
    while i < ids.len()
        invariant
            0 <= i <= ids.len(),
            (data@, gone@) == deleted_items(old(data)@, ids@.take(i as int)),
        decreases ids.len() - i,
    {
        assert(ids@.take(i + 1).drop_last() =~= ids@.take(i as int));
        match data.delete(ids[i]) {
            Some(it) => {
                gone.push(it);
            },
            None => {},
        }
        i = i + 1;
    }
    assert(ids@.take(ids.len() as int) =~= ids@);
    gone
}

/// Removes each category branch of `names`.
pub fn remove_names(data: &mut TodoData, names: &Vec<String>)
    ensures
        final(data)@ == removed_branches(old(data)@, texts(names@)),
{
    let mut i: usize = 0;
    while i < names.len()
        invariant
            0 <= i <= names.len(),
            data@ == removed_branches(old(data)@, texts(names@).take(i as int)),
        decreases names.len() - i,
    {
        assert(texts(names@).take(i + 1).drop_last() =~= texts(names@).take(i as int));
        data.remove_category(names[i].as_str());
        i = i + 1;
    }
    assert(texts(names@).take(names.len() as int) =~= texts(names@));
}

/// Puts back each item of `items`.
pub fn restore_items(data: &mut TodoData, items: Vec<TodoItem>)
    requires
        forall|i: int| 0 <= i < items@.len() ==> (#[trigger] items@[i]).id < u64::MAX,
    ensures
        final(data)@ == restored_items(old(data)@, items@),
{
    let ghost all = items@;
    assert(all.len() == items.len());
    let mut rest = items;
    let mut k: usize = 0;
    let ghost n = all.len();
    assert(rest@ =~= all.skip(0));
    while rest.len() > 0
        invariant
            k + rest@.len() == n,
            n == all.len(),
            n <= usize::MAX,
            rest@ == all.skip(k as int),
            forall|i: int| 0 <= i < all.len() ==> (#[trigger] all[i]).id < u64::MAX,
            data@ == restored_items(old(data)@, all.take(k as int)),
        decreases rest.len(),
    {
        let it = rest.remove(0);
        assert(all.take(k + 1).drop_last() =~= all.take(k as int));
        assert(all.take(k + 1).last() == all[k as int]);
        assert(it == all[k as int]);
        data.restore_item(it);
        k = k + 1;
        assert(rest@ =~= all.skip(k as int));
    }
    assert(all.take(k as int) =~= all);
}

impl App {
    /// Records that the list changed since it was last saved.
    pub fn mark_dirty(&mut self)
        ensures
            *final(self) == (App { dirty: true, ..*old(self) }),
    {
        self.dirty = true;
    }

    /// Pushes a step onto the undo stack, dropping the oldest past the
    /// limit.
    pub fn push_undo(&mut self, entry: UndoEntry)
        ensures
            final(self).undo_stack@ == pushed(old(self).undo_stack@, entry),
            *final(self) == (App { undo_stack: final(self).undo_stack, ..*old(self) }),
    {
        self.undo_stack.push(entry);
        if self.undo_stack.len() > UNDO_STACK_LIMIT {
            self.undo_stack.remove(0);
        }
    }

    /// Records deleted items as a step to undo, unless there are none.
    pub fn push_undo_delete(&mut self, items: Vec<TodoItem>)
        ensures
            items@.len() == 0 ==> *final(self) == *old(self),
            items@.len() > 0 ==> final(self).undo_stack@.len() == pushed(old(self).undo_stack@, UndoEntry::Delete(items)).len()
                && final(self).undo_stack@.last() == UndoEntry::Delete(items)
                && final(self).undo_stack@ == pushed(old(self).undo_stack@, UndoEntry::Delete(items)),
            *final(self) == (App { undo_stack: final(self).undo_stack, ..*old(self) }),
    {
        if items.len() == 0 {
            return;
        }
        self.push_undo(UndoEntry::Delete(items));
    }

    /// Records an archive change as a step to undo, unless it touched
    /// nothing.
    pub fn push_undo_archive(&mut self, item_ids: Vec<u64>, category_names: Vec<String>, previous_archived: bool)
        ensures
            item_ids@.len() == 0 && category_names@.len() == 0 ==> *final(self) == *old(self),
            !(item_ids@.len() == 0 && category_names@.len() == 0) ==> final(self).undo_stack@
                == pushed(
                old(self).undo_stack@,
                UndoEntry::Archive { item_ids, category_names, previous_archived },
            ),
            *final(self) == (App { undo_stack: final(self).undo_stack, ..*old(self) }),
    {
        if item_ids.len() == 0 && category_names.len() == 0 {
            return;
        }
        self.push_undo(UndoEntry::Archive { item_ids, category_names, previous_archived });
    }
}

/// Whether `w` is the list `v` after undoing the step `e`: deleted items
/// put back, archived flags set back, or a deleted note put back at its
/// place (at the end of a log that got shorter).
pub open spec fn undo_effect(v: TodoDataView, w: TodoDataView, e: UndoEntry) -> bool {
    match e {
        UndoEntry::Delete(items) => w == restored_items(v, items@),
        UndoEntry::Archive { item_ids, category_names, previous_archived } => w == archived_branches(
            archived_items(v, item_ids@, previous_archived),
            texts(category_names@),
            previous_archived,
        ),
        UndoEntry::NoteDelete { item_id, index, note } => item_changed(
            v,
            w,
            item_id,
            |a: TodoItem, b: TodoItem|
                same_but_notes(a, b) && b.notes@ == a.notes@.insert(
                    if index <= a.notes@.len() {
                        index as int
                    } else {
                        a.notes@.len() as int
                    },
                    note,
                ),
        ),
    }
}

/// Every deleted item that the undo stack holds has an id below the
/// largest `u64`, so that putting it back can move the id counter past it.
pub open spec fn undo_fits(s: Seq<UndoEntry>) -> bool {
    forall|k: int| 0 <= k < s.len() ==> super::dispatch::entry_fits(#[trigger] s[k])
}

/// The mode after undoing `e`: a note log open on the item whose note
/// comes back highlights it; any other mode stays.
pub open spec fn mode_after_undo(m: Mode, e: UndoEntry) -> Mode {
    match (e, m) {
        (UndoEntry::NoteDelete { item_id, index, .. }, Mode::Notes { item_id: open, selected }) => if open == item_id {
            Mode::Notes { item_id: open, selected: index }
        } else {
            m
        },
        _ => m,
    }
}

impl App {
    /// Whether `b` is what `undo` leaves of `a`.
    pub open spec fn after_undo(a: App, b: App) -> bool {
        &&& a.undo_stack@.len() == 0 ==> b == a
        &&& a.undo_stack@.len() > 0 ==> {
                let e = a.undo_stack@.last();
                &&& b.undo_stack@ == a.undo_stack@.drop_last()
                &&& undo_effect(a.data@, b.data@, e)
                &&& b.dirty
                &&& b.mode == mode_after_undo(a.mode, e)
                &&& b.selected_index == crate::app::categories::clamp_to(
                    a.selected_index as int,
                    b.shown().len() as int,
                )
                &&& b == (App {
                    undo_stack: b.undo_stack,
                    data: b.data,
                    dirty: true,
                    mode: b.mode,
                    selected_index: b.selected_index,
                    ..a
                })
            }
        &&& undo_fits(b.undo_stack@)
    }

    /// Undoes the latest step, if there is one, and marks the list changed.
    pub fn undo(&mut self)
        requires
            old(self).today.valid(),
            undo_fits(old(self).undo_stack@),
        ensures
            Self::after_undo(*old(self), *final(self)),
    {
        let ghost s = self.undo_stack@;
        if self.undo_stack.len() == 0 {
            return;
        }
        let entry = match self.undo_stack.pop() {
            Some(e) => e,
            None => return,
        };
        proof {
            assert(self.undo_stack@ == s.drop_last());
            assert(entry == s[s.len() - 1]);
            assert(undo_fits(self.undo_stack@)) by {
                assert forall|k: int| 0 <= k < self.undo_stack@.len() implies super::dispatch::entry_fits(#[trigger] self.undo_stack@[k]) by {
                    assert(self.undo_stack@[k] == s[k]);
                }
            }
        }
        match entry {
            UndoEntry::Delete(items) => {
                restore_items(&mut self.data, items);
            },
            UndoEntry::Archive { item_ids, category_names, previous_archived } => {
                archive_ids(&mut self.data, &item_ids, previous_archived);
                archive_names(&mut self.data, &category_names, previous_archived);
            },
            UndoEntry::NoteDelete { item_id, index, note } => {
                self.data.restore_note(item_id, index, note);
                let reselect = match &self.mode {
                    Mode::Notes { item_id: open_id, .. } => *open_id == item_id,
                    _ => false,
                };
                if reselect {
                    self.mode = Mode::Notes { item_id, selected: index };
                }
            },
        }
        self.mark_dirty();
        self.clamp_selection();
    }
}

} // verus!
