//! Changing many items at once: which items a delete reaches, archiving
//! the visible items, a category branch or the done items, and the delete
//! confirmation.

use vstd::prelude::*;

use crate::data::category::{category_matches, matches_path, texts};
use crate::data::{find_item, item_under, listed_categories, TodoDataView, TodoItem};
use crate::defs::{Mode, Pane};
use crate::text::{chars_of, string_of};
use super::categories::clamp_to;
use super::history::{archive_ids, archive_names, archived_branches, archived_items, delete_ids, remove_names, deleted_items, removed_branches};
use super::view::derefs;
use super::{App, UndoEntry};

verus! {

/// `acc` with the id of every item of `items` filed under `name` added, in
/// list order, when it is not there yet.
pub open spec fn add_branch(acc: Seq<u64>, items: Seq<TodoItem>, name: Seq<char>) -> Seq<u64>
    decreases items.len(),
{
    if items.len() == 0 {
        acc
    } else {
        let a = add_branch(acc, items.drop_last(), name);
        let it = items.last();
        if item_under(it, name) && !a.contains(it.id) {
            a.push(it.id)
        } else {
            a
        }
    }
}

/// The ids that deleting `ids` and the category branches `names` reaches:
/// `ids`, then the items under each branch in turn, each id once.
pub open spec fn cascade(ids: Seq<u64>, items: Seq<TodoItem>, names: Seq<Seq<char>>) -> Seq<u64>
    decreases names.len(),
{
    if names.len() == 0 {
        ids
    } else {
        add_branch(cascade(ids, items, names.drop_last()), items, names.last())
    }
}

/// The texts of the items of `ids` that exist, in that order.
pub open spec fn item_texts(items: Seq<TodoItem>, ids: Seq<u64>) -> Seq<Seq<char>>
    decreases ids.len(),
{
    if ids.len() == 0 {
        Seq::empty()
    } else {
        let t = item_texts(items, ids.drop_last());
        let i = find_item(items, ids.last());
        if i < 0 {
            t
        } else {
            t.push(items[i].text@)
        }
    }
}

/// How the confirmation lists a category branch.
pub open spec fn category_label(name: Seq<char>) -> Seq<char> {
    "[category] "@ + name
}

/// The ids of the items of `s` whose archived flag is not `flag`, in order.
pub open spec fn ids_to_flip(s: Seq<TodoItem>, flag: bool) -> Seq<u64>
    decreases s.len(),
{
    if s.len() == 0 {
        Seq::empty()
    } else if s.last().archived != flag {
        ids_to_flip(s.drop_last(), flag).push(s.last().id)
    } else {
        ids_to_flip(s.drop_last(), flag)
    }
}

/// The ids of the items of `s` under `name` whose archived flag is not
/// `flag`, in order.
pub open spec fn branch_ids_to_flip(s: Seq<TodoItem>, name: Seq<char>, flag: bool) -> Seq<u64>
    decreases s.len(),
{
    if s.len() == 0 {
        Seq::empty()
    } else if item_under(s.last(), name) && s.last().archived != flag {
        branch_ids_to_flip(s.drop_last(), name, flag).push(s.last().id)
    } else {
        branch_ids_to_flip(s.drop_last(), name, flag)
    }
}

/// The ids of the done items of `s` that are not archived, in order.
pub open spec fn done_ids(s: Seq<TodoItem>) -> Seq<u64>
    decreases s.len(),
{
    if s.len() == 0 {
        Seq::empty()
    } else if s.last().done && !s.last().archived {
        done_ids(s.drop_last()).push(s.last().id)
    } else {
        done_ids(s.drop_last())
    }
}

/// Whether the category filter `f` names a branch that none of `cats`
/// lies in.
pub open spec fn filter_gone(f: Option<String>, cats: Seq<Seq<char>>) -> bool {
    match f {
        Some(c) => !(exists|i: int| 0 <= i < cats.len() && matches_path(#[trigger] cats[i], c@)),
        None => false,
    }
}

/// Whether `x` is among `v`.
pub fn contains_id(v: &Vec<u64>, x: u64) -> (r: bool)
    ensures
        r == v@.contains(x),
{
    let mut i: usize = 0;
    while i < v.len()
        invariant
            0 <= i <= v.len(),
            forall|j: int| 0 <= j < i ==> v@[j] != x,
        decreases v.len() - i,
    {
        if v[i] == x {
            return true;
        }
        i = i + 1;
    }
    false
}

/// The ids that deleting `ids` and the branches `names` reaches.
pub fn cascade_ids(ids: Vec<u64>, items: &[TodoItem], names: &Vec<String>) -> (r: Vec<u64>)
    ensures
        r@ == cascade(ids@, items@, texts(names@)),
{
    let mut acc = ids;
    let ghost start = acc@;
    let mut n: usize = 0;
    while n < names.len()
        invariant
            0 <= n <= names.len(),
            acc@ == cascade(start, items@, texts(names@).take(n as int)),
        decreases names.len() - n,
    {
        let ghost before = acc@;
        let mut k: usize = 0;
        assert(add_branch(before, items@.take(0), names@[n as int]@) == before);
        while k < items.len()
            invariant
                0 <= k <= items.len(),
                n < names.len(),
                acc@ == add_branch(before, items@.take(k as int), names@[n as int]@),
            decreases items.len() - k,
        {
            assert(items@.take(k + 1).drop_last() =~= items@.take(k as int));
            assert(items@.take(k + 1).last() == items@[k as int]);
            let cat = match &items[k].category {
                Some(c) => Some(c.as_str()),
                None => None,
            };
            if category_matches(cat, names[n].as_str()) && !contains_id(&acc, items[k].id) {
                acc.push(items[k].id);
            }
            k = k + 1;
        }
        assert(items@.take(items.len() as int) =~= items@);
        assert(texts(names@).take(n + 1).drop_last() =~= texts(names@).take(n as int));
        assert(texts(names@).take(n + 1).last() == names@[n as int]@);
        n = n + 1;
    }
    assert(texts(names@).take(names.len() as int) =~= texts(names@));
    acc
}

impl App {
    /// The delete confirmation for the items `selected_ids` and the
    /// category branches `selected_categories`: it lists every item reached
    /// (the chosen ones, then those under each branch), their texts, and a
    /// line per branch.
    pub fn build_confirm_delete_mode(&self, selected_ids: Vec<u64>, selected_categories: Vec<String>) -> (r: Mode)
        ensures
            match r {
                Mode::ConfirmDelete { ids, texts: lines, category_names } => {
                    &&& ids@ == cascade(selected_ids@, self.data@.items, texts(selected_categories@))
                    &&& texts(lines@) == item_texts(self.data@.items, ids@) + texts(selected_categories@).map_values(
                        |n: Seq<char>| category_label(n),
                    )
                    &&& category_names@ == selected_categories@
                },
                _ => false,
            },
    {
        let all_ids = cascade_ids(selected_ids, self.data.items(), &selected_categories);
        let mut lines: Vec<String> = Vec::new();
        let mut i: usize = 0;
        while i < all_ids.len()
            invariant
                0 <= i <= all_ids.len(),
                texts(lines@) == item_texts(self.data@.items, all_ids@.take(i as int)),
            decreases all_ids.len() - i,
        {
            assert(all_ids@.take(i + 1).drop_last() =~= all_ids@.take(i as int));
            match self.data.get(all_ids[i]) {
                Some(item) => {
                    let ghost before = lines@;
                    lines.push(item.text.clone());
                    assert(texts(lines@) =~= texts(before).push(item.text@));
                },
                None => {},
            }
            i = i + 1;
        }
        assert(all_ids@.take(all_ids.len() as int) =~= all_ids@);
        let ghost item_part = texts(lines@);
        let mut k: usize = 0;
        while k < selected_categories.len()
            invariant
                0 <= k <= selected_categories.len(),
                texts(lines@) == item_part + texts(selected_categories@).take(k as int).map_values(
                    |n: Seq<char>| category_label(n),
                ),
            decreases selected_categories.len() - k,
        {
            let mut label = chars_of("[category] ");
            let nc = chars_of(selected_categories[k].as_str());
            let ghost pre = label@;
            let mut j: usize = 0;
            while j < nc.len()
                invariant
                    0 <= j <= nc.len(),
                    label@ == pre + nc@.take(j as int),
                decreases nc.len() - j,
            {
                label.push(nc[j]);
                j = j + 1;
                assert(label@ =~= pre + nc@.take(j as int));
            }
            assert(nc@.take(nc.len() as int) =~= nc@);
            let ghost before = lines@;
            lines.push(string_of(label.as_slice()));
            proof {
                assert(texts(lines@) =~= texts(before).push(category_label(selected_categories@[k as int]@)));
                assert(texts(selected_categories@).take(k + 1).map_values(|n: Seq<char>| category_label(n))
                    =~= texts(selected_categories@).take(k as int).map_values(|n: Seq<char>| category_label(n)).push(
                    category_label(selected_categories@[k as int]@),
                ));
            }
            k = k + 1;
        }
        assert(texts(selected_categories@).take(selected_categories.len() as int) =~= texts(selected_categories@));
        Mode::ConfirmDelete { ids: all_ids, texts: lines, category_names: selected_categories }
    }

    /// Drops the category filter when no category of the given list lies in
    /// its branch any more.
    pub fn forget_missing_filter(&mut self, cats: &Vec<String>)
        ensures
            filter_gone(old(self).category_filter, texts(cats@)) ==> *final(self) == (App {
                category_filter: None,
                category_index: 0,
                ..*old(self)
            }),
            !filter_gone(old(self).category_filter, texts(cats@)) ==> *final(self) == *old(self),
    {
        let gone = match &self.category_filter {
            Some(cat) => {
                let mut found = false;
                let mut i: usize = 0;
                while i < cats.len()
                    invariant
                        0 <= i <= cats.len(),
                        found == exists|j: int| 0 <= j < i && matches_path(#[trigger] texts(cats@)[j], cat@),
                    decreases cats.len() - i,
                {
                    let hit = category_matches(Some(cats[i].as_str()), cat.as_str());
                    proof {
                        if hit {
                            assert(matches_path(texts(cats@)[i as int], cat@));
                        }
                        if found {
                            let j = choose|j: int| 0 <= j < i && matches_path(#[trigger] texts(cats@)[j], cat@);
                            assert(0 <= j < i + 1);
                        }
                    }
                    found = found || hit;
                    i = i + 1;
                }
                !found
            },
            None => false,
        };
        if gone {
            self.category_filter = None;
            self.category_index = 0;
        }
    }

    /// Archives (or restores, when `archived` is false) the highlighted item
    /// when its flag differs, recording the step to undo.
    pub fn archive_single_visible_item(&mut self, archived: bool)
        requires
            old(self).today.valid(),
        ensures
            old(self).pane != Pane::Categories ==> archived_by(*old(self), *final(self), kind_highlighted(), archived),
            final(self).data@ == single_archived(*old(self), archived),
            final(self).note_hint == old(self).note_hint,
            match old(self).selected_id() {
                Some(id) => {
                    let i = find_item(old(self).data@.items, id);
                    if i >= 0 && old(self).data@.items[i].archived != archived {
                        &&& final(self).data@ == archived_items(old(self).data@, seq![id], archived)
                        &&& final(self).undo_stack@.len() > 0
                        &&& final(self).undo_stack@.last() matches UndoEntry::Archive {
                            item_ids,
                            category_names,
                            previous_archived,
                        } && item_ids@ == seq![id] && category_names@.len() == 0 && previous_archived == !archived
                        &&& *final(self) == (App {
                            data: final(self).data,
                            undo_stack: final(self).undo_stack,
                            dirty: true,
                            ..*old(self)
                        })
                    } else {
                        *final(self) == *old(self)
                    }
                },
                None => *final(self) == *old(self),
            },
    {
        let id = match self.selected_item_id() {
            Some(id) => id,
            None => return,
        };
        let differs = match self.data.get(id) {
            Some(item) => item.archived != archived,
            None => false,
        };
        if differs {
            let ids = vec![id];
            archive_ids(&mut self.data, &ids, archived);
            assert(ids@ == seq![id]);
            let names: Vec<String> = Vec::new();
            let ghost before = self.undo_stack@;
            assert(texts(names@) =~= Seq::<Seq<char>>::empty());
            self.push_undo_archive(ids, names, !archived);
            proof {
                assert(self.undo_stack@.drop_last() =~= (if before.len() + 1 > super::UNDO_STACK_LIMIT {
                    before.drop_first()
                } else {
                    before
                }));
            }
            self.mark_dirty();
        }
    }
}

/// Whether `new` is the undo stack `old` after recording an archive step
/// over the items `ids` and branches `names` that sets the flag back to
/// `prev`; nothing is recorded when both are empty.
pub open spec fn archive_recorded(
    old: Seq<UndoEntry>,
    new: Seq<UndoEntry>,
    ids: Seq<u64>,
    names: Seq<Seq<char>>,
    prev: bool,
) -> bool {
    if ids.len() == 0 && names.len() == 0 {
        new == old
    } else {
        &&& new.len() >= 1
        &&& new.last() matches UndoEntry::Archive { item_ids, category_names, previous_archived }
            && item_ids@ == ids && texts(category_names@) == names && previous_archived == prev
        &&& new.drop_last() == (if old.len() + 1 > super::UNDO_STACK_LIMIT {
            old.drop_first()
        } else {
            old
        })
    }
}

/// Whether `new` is the undo stack `old` after recording the deletion of
/// `items`; nothing is recorded when there are none.
pub open spec fn delete_recorded(old: Seq<UndoEntry>, new: Seq<UndoEntry>, items: Seq<TodoItem>) -> bool {
    if items.len() == 0 {
        new == old
    } else {
        &&& new.len() >= 1
        &&& new.last() matches UndoEntry::Delete(v) && v@ == items
        &&& new.drop_last() == (if old.len() + 1 > super::UNDO_STACK_LIMIT {
            old.drop_first()
        } else {
            old
        })
    }
}

/// The ids of the items of `items` whose archived flag is not `flag`.
pub fn ids_to_flip_of(items: &Vec<&TodoItem>, flag: bool) -> (r: Vec<u64>)
    ensures
        r@ == ids_to_flip(derefs(items@), flag),
{
    let ghost d = derefs(items@);
    let mut out: Vec<u64> = Vec::new();
    let mut i: usize = 0;
    while i < items.len()
        invariant
            0 <= i <= items.len(),
            d == derefs(items@),
            out@ == ids_to_flip(d.take(i as int), flag),
        decreases items.len() - i,
    {
        assert(d.take(i + 1).drop_last() =~= d.take(i as int));
        assert(d.take(i + 1).last() == *items@[i as int]);
        if items[i].archived != flag {
            out.push(items[i].id);
        }
        i = i + 1;
    }
    assert(d.take(items.len() as int) =~= d);
    out
}

/// The ids of the items of `items` under `name` whose archived flag is not
/// `flag`.
pub fn branch_ids_to_flip_of(items: &[TodoItem], name: &str, flag: bool) -> (r: Vec<u64>)
    ensures
        r@ == branch_ids_to_flip(items@, name@, flag),
{
    let mut out: Vec<u64> = Vec::new();
    let mut i: usize = 0;
    while i < items.len()
        invariant
            0 <= i <= items.len(),
            out@ == branch_ids_to_flip(items@.take(i as int), name@, flag),
        decreases items.len() - i,
    {
        assert(items@.take(i + 1).drop_last() =~= items@.take(i as int));
        assert(items@.take(i + 1).last() == items@[i as int]);
        let cat = match &items[i].category {
            Some(c) => Some(c.as_str()),
            None => None,
        };
        if category_matches(cat, name) && items[i].archived != flag {
            out.push(items[i].id);
        }
        i = i + 1;
    }
    assert(items@.take(items.len() as int) =~= items@);
    out
}

/// The ids of the done items of `items` that are not archived.
pub fn done_ids_of(items: &[TodoItem]) -> (r: Vec<u64>)
    ensures
        r@ == done_ids(items@),
{
    let mut out: Vec<u64> = Vec::new();
    let mut i: usize = 0;
    while i < items.len()
        invariant
            0 <= i <= items.len(),
            out@ == done_ids(items@.take(i as int)),
        decreases items.len() - i,
    {
        assert(items@.take(i + 1).drop_last() =~= items@.take(i as int));
        assert(items@.take(i + 1).last() == items@[i as int]);
        if items[i].done && !items[i].archived {
            out.push(items[i].id);
        }
        i = i + 1;
    }
    assert(items@.take(items.len() as int) =~= items@);
    out
}

/// The sidebar position kept within the rows.
pub open spec fn ci_within(ci: usize, rows: int) -> usize {
    if ci as int <= rows {
        ci
    } else {
        rows as usize
    }
}

/// The data after archiving (or restoring) the highlighted item of `a`:
/// only that item's flag moves, and only when it differs.
pub open spec fn single_archived(a: App, archived: bool) -> TodoDataView {
    match a.selected_id() {
        Some(id) => {
            let i = find_item(a.data@.items, id);
            if i >= 0 && a.data@.items[i].archived != archived {
                archived_items(a.data@, seq![id], archived)
            } else {
                a.data@
            }
        },
        None => a.data@,
    }
}

/// The data after archiving (or restoring) everything visible in `a`: the
/// shown items whose flag differs, and in the sidebar every category of
/// the view.
pub open spec fn visible_archived(a: App, archived: bool) -> TodoDataView {
    let names = if a.pane == Pane::Categories {
        a.cats()
    } else {
        Seq::empty()
    };
    archived_branches(archived_items(a.data@, ids_to_flip(a.shown(), archived), archived), names, archived)
}

/// The data after archiving every done item of `a`.
pub open spec fn done_archived(a: App) -> TodoDataView {
    let ids = done_ids(a.data@.items);
    if ids.len() == 0 {
        a.data@
    } else {
        archived_items(a.data@, ids, true)
    }
}

/// The data after archiving (or restoring) from the sidebar of `a`: the
/// highlighted branch, or on the "all" row everything visible.
pub open spec fn current_archived(a: App, archived: bool) -> TodoDataView {
    if 0 < a.category_index <= a.rows().len() {
        crate::data::branch_archived(a.data@, a.rows()[a.category_index - 1].path, archived)
    } else {
        visible_archived(a, archived)
    }
}

/// The data after archiving (or restoring) what is highlighted in `a`:
/// from the sidebar `current_archived`, else `single_archived`.
pub open spec fn highlighted_archived(a: App, archived: bool) -> TodoDataView {
    if a.pane == Pane::Categories {
        current_archived(a, archived)
    } else {
        single_archived(a, archived)
    }
}

/// The kinds of archive step: the highlighted item or sidebar branch, the
/// done items, or everything visible.
pub open spec fn kind_highlighted() -> int {
    0
}

pub open spec fn kind_done() -> int {
    1
}

pub open spec fn kind_visible() -> int {
    2
}

/// The item ids and sidebar branches that an archive step of kind `kind`
/// (setting the flag to `archived`) flips in `a`.
pub open spec fn archive_ids_names(a: App, kind: int, archived: bool) -> (Seq<u64>, Seq<Seq<char>>) {
    if kind == kind_highlighted() {
        if a.pane == Pane::Categories {
            if 0 < a.category_index <= a.rows().len() {
                let path = a.rows()[a.category_index - 1].path;
                (branch_ids_to_flip(a.data@.items, path, archived), seq![path])
            } else {
                (ids_to_flip(a.shown(), archived), a.cats())
            }
        } else {
            match a.selected_id() {
                Some(id) => {
                    let i = find_item(a.data@.items, id);
                    if i >= 0 && a.data@.items[i].archived != archived {
                        (seq![id], Seq::empty())
                    } else {
                        (Seq::empty(), Seq::empty())
                    }
                },
                None => (Seq::empty(), Seq::empty()),
            }
        }
    } else if kind == kind_done() {
        (done_ids(a.data@.items), Seq::empty())
    } else {
        (ids_to_flip(a.shown(), archived), if a.pane == Pane::Categories {
            a.cats()
        } else {
            Seq::empty()
        })
    }
}

/// The data after an archive step of kind `kind` on `a`.
pub open spec fn archive_data(a: App, kind: int, archived: bool) -> TodoDataView {
    if kind == kind_highlighted() {
        highlighted_archived(a, archived)
    } else if kind == kind_done() {
        done_archived(a)
    } else {
        visible_archived(a, archived)
    }
}

/// Whether the step reaches the sidebar (and so keeps its highlight within
/// the rows and always marks the list changed).
pub open spec fn archive_in_sidebar(a: App, kind: int) -> bool {
    kind == kind_visible() || (kind == kind_highlighted() && a.pane == Pane::Categories)
}

/// Whether `b` is `a` after an archive step of kind `kind` setting the
/// flag to `archived`: the data as `archive_data` says, the step recorded
/// to undo (the flipped ids and branches, with the flag to set back), the
/// list marked changed when the step reaches the sidebar or flips an item,
/// the sidebar highlight kept within the rows; nothing else but the list
/// highlight changes.
pub open spec fn archived_by(a: App, b: App, kind: int, archived: bool) -> bool {
    let (ids, names) = archive_ids_names(a, kind, archived);
    &&& b.data@ == archive_data(a, kind, archived)
    &&& archive_recorded(a.undo_stack@, b.undo_stack@, ids, names, !archived)
    &&& b.dirty == (a.dirty || archive_in_sidebar(a, kind) || ids.len() > 0)
    &&& b.category_index == (if archive_in_sidebar(a, kind) {
        ci_within(a.category_index, b.rows().len() as int)
    } else {
        a.category_index
    })
    &&& b == (App {
        data: b.data,
        undo_stack: b.undo_stack,
        dirty: b.dirty,
        category_index: b.category_index,
        selected_index: b.selected_index,
        ..a
    })
}

impl App {
    /// Archives (or restores) every visible item whose flag differs, and in
    /// the sidebar every category of the view too, recording the step to
    /// undo.
    pub fn set_visible_archived(&mut self, archived: bool)
        requires
            old(self).today.valid(),
        ensures
            archived_by(*old(self), *final(self), kind_visible(), archived),
            final(self).data@ == visible_archived(*old(self), archived),
            final(self).note_hint == old(self).note_hint,
            ({
                let ids = ids_to_flip(old(self).shown(), archived);
                let names = if old(self).pane == Pane::Categories {
                    old(self).cats()
                } else {
                    Seq::empty()
                };
                &&& final(self).data@ == archived_branches(
                    archived_items(old(self).data@, ids, archived),
                    names,
                    archived,
                )
                &&& archive_recorded(old(self).undo_stack@, final(self).undo_stack@, ids, names, !archived)
                &&& final(self).category_index == ci_within(old(self).category_index, final(self).rows().len() as int)
                &&& final(self).selected_index == clamp_to(old(self).selected_index as int, final(self).shown().len() as int)
                &&& *final(self) == (App {
                    data: final(self).data,
                    undo_stack: final(self).undo_stack,
                    dirty: true,
                    category_index: final(self).category_index,
                    selected_index: final(self).selected_index,
                    ..*old(self)
                })
            }),
    {
        let ids = {
            let items = self.items();
            ids_to_flip_of(&items, archived)
        };
        let names: Vec<String> = if self.pane == Pane::Categories {
            self.categories()
        } else {
            Vec::new()
        };
        proof {
            if self.pane != Pane::Categories {
                assert(texts(names@) =~= Seq::<Seq<char>>::empty());
            }
        }
        archive_ids(&mut self.data, &ids, archived);
        archive_names(&mut self.data, &names, archived);
        let ghost gids = ids@;
        let ghost gnames = texts(names@);
        let ghost before = self.undo_stack@;
        self.push_undo_archive(ids, names, !archived);
        proof {
            if !(gids.len() == 0 && gnames.len() == 0) {
                assert(self.undo_stack@.drop_last() =~= (if before.len() + 1 > super::UNDO_STACK_LIMIT {
                    before.drop_first()
                } else {
                    before
                }));
            }
        }
        self.mark_dirty();
        let n = self.category_entries().len();
        if self.category_index > n {
            self.category_index = n;
        }
        self.clamp_selection();
    }

    /// Archives every done item that is not archived yet, recording the step
    /// to undo; nothing when there is none.
    pub fn archive_done_items(&mut self)
        ensures
            archived_by(*old(self), *final(self), kind_done(), true),
            final(self).data@ == done_archived(*old(self)),
            final(self).note_hint == old(self).note_hint,
            ({
                let ids = done_ids(old(self).data@.items);
                if ids.len() == 0 {
                    *final(self) == *old(self)
                } else {
                    &&& final(self).data@ == archived_items(old(self).data@, ids, true)
                    &&& archive_recorded(old(self).undo_stack@, final(self).undo_stack@, ids, Seq::empty(), false)
                    &&& *final(self) == (App {
                        data: final(self).data,
                        undo_stack: final(self).undo_stack,
                        dirty: true,
                        ..*old(self)
                    })
                }
            }),
    {
        let ids = done_ids_of(self.data.items());
        if ids.len() == 0 {
            return;
        }
        archive_ids(&mut self.data, &ids, true);
        let ghost before = self.undo_stack@;
        let names: Vec<String> = Vec::new();
        assert(texts(names@) =~= Seq::<Seq<char>>::empty());
        self.push_undo_archive(ids, names, false);
        proof {
            assert(self.undo_stack@.drop_last() =~= (if before.len() + 1 > super::UNDO_STACK_LIMIT {
                before.drop_first()
            } else {
                before
            }));
        }
        self.mark_dirty();
    }

    /// From the sidebar: archives (or restores) the highlighted category
    /// branch with its items, or, on the "all" row, every visible item and
    /// every category of the view; records the step to undo.
    pub fn set_current_category_archived(&mut self, archived: bool)
        requires
            old(self).today.valid(),
        ensures
            old(self).pane == Pane::Categories ==> archived_by(*old(self), *final(self), kind_highlighted(), archived),
            old(self).pane == Pane::Categories ==> final(self).data@ == current_archived(*old(self), archived),
            final(self).note_hint == old(self).note_hint,
            old(self).pane != Pane::Categories ==> *final(self) == *old(self),
            old(self).pane == Pane::Categories ==> {
                let on_branch = 0 < old(self).category_index <= old(self).rows().len();
                let path = old(self).rows()[old(self).category_index - 1].path;
                let ids = if on_branch {
                    branch_ids_to_flip(old(self).data@.items, path, archived)
                } else {
                    ids_to_flip(old(self).shown(), archived)
                };
                let names = if on_branch {
                    seq![path]
                } else {
                    old(self).cats()
                };
                &&& final(self).data@ == (if on_branch {
                    crate::data::branch_archived(old(self).data@, path, archived)
                } else {
                    archived_branches(archived_items(old(self).data@, ids, archived), names, archived)
                })
                &&& archive_recorded(old(self).undo_stack@, final(self).undo_stack@, ids, names, !archived)
                &&& final(self).category_index == ci_within(old(self).category_index, final(self).rows().len() as int)
                &&& final(self).selected_index == clamp_to(old(self).selected_index as int, final(self).shown().len() as int)
                &&& *final(self) == (App {
                    data: final(self).data,
                    undo_stack: final(self).undo_stack,
                    dirty: true,
                    category_index: final(self).category_index,
                    selected_index: final(self).selected_index,
                    ..*old(self)
                })
            },
    {
        if self.pane != Pane::Categories {
            return;
        }
        let (ids, names) = match self.selected_category_path() {
            Some(category) => {
                let ids = branch_ids_to_flip_of(self.data.items(), category.as_str(), archived);
                self.data.set_category_archived(category.as_str(), archived);
                let names = vec![category];
                assert(texts(names@) =~= seq![names@[0]@]);
                (ids, names)
            },
            None => {
                let ids = {
                    let items = self.items();
                    ids_to_flip_of(&items, archived)
                };
                let names = self.categories();
                archive_ids(&mut self.data, &ids, archived);
                archive_names(&mut self.data, &names, archived);
                (ids, names)
            },
        };
        let ghost gids = ids@;
        let ghost gnames = texts(names@);
        let ghost before = self.undo_stack@;
        self.push_undo_archive(ids, names, !archived);
        proof {
            if !(gids.len() == 0 && gnames.len() == 0) {
                assert(self.undo_stack@.drop_last() =~= (if before.len() + 1 > super::UNDO_STACK_LIMIT {
                    before.drop_first()
                } else {
                    before
                }));
            }
        }
        self.mark_dirty();
        let n = self.category_entries().len();
        if self.category_index > n {
            self.category_index = n;
        }
        self.clamp_selection();
    }
}

/// The state `a` with the mode closed and the list, undo stack, dirty flag
/// and category filter of `b`: what the confirmation leaves before going
/// back to the previous mode.
pub open spec fn settled(a: App, b: App) -> App {
    App {
        data: b.data,
        undo_stack: b.undo_stack,
        dirty: b.dirty,
        category_filter: b.category_filter,
        category_index: b.category_index,
        mode: Mode::Normal,
        ..a
    }
}

/// Whether the category filter of `b` is that of `a`, dropped (with the
/// sidebar back on "all") when none of `cats` lies in its branch.
pub open spec fn filter_checked(a: App, b: App, cats: Seq<Seq<char>>) -> bool {
    if filter_gone(a.category_filter, cats) {
        b.category_filter is None && b.category_index == 0
    } else {
        b.category_filter == a.category_filter && b.category_index == a.category_index
    }
}

impl App {
    /// Whether `b` is what `confirm_delete_yes` leaves of `a`.
    pub open spec fn after_confirm_delete_yes(a: App, b: App) -> bool {
        &&& match a.mode {
                Mode::ConfirmDelete { ids, category_names, .. } => {
                    let all = cascade(ids@, a.data@.items, texts(category_names@));
                    let (w, gone) = deleted_items(a.data@, all);
                    &&& b.data@ == removed_branches(w, texts(category_names@))
                    &&& delete_recorded(a.undo_stack@, b.undo_stack@, gone)
                    &&& b.dirty
                },
                _ => {
                    &&& b.data == a.data
                    &&& b.undo_stack == a.undo_stack
                    &&& b.dirty == a.dirty
                },
            }
        &&& filter_checked(a, b, listed_categories(b.data@, false))
        &&& super::popups::returned(settled(a, b), b)
    }

    /// Deletes what the confirmation lists: the chosen items, the items
    /// under the chosen branches, and the branches; records the removed
    /// items to undo; drops a category filter left pointing at nothing;
    /// goes back to the previous mode.
    pub fn confirm_delete_yes(&mut self)
        requires
            old(self).today.valid(),
        ensures
            Self::after_confirm_delete_yes(*old(self), *final(self)),
    {
        let mut mode = Mode::Normal;
        std::mem::swap(&mut self.mode, &mut mode);
        match mode {
            Mode::ConfirmDelete { ids, category_names, .. } => {
                let all_ids = cascade_ids(ids, self.data.items(), &category_names);
                let gone = delete_ids(&mut self.data, &all_ids);
                remove_names(&mut self.data, &category_names);
                let ghost g = gone@;
                let ghost before = self.undo_stack@;
                self.push_undo_delete(gone);
                proof {
                    if g.len() > 0 {
                        assert(self.undo_stack@.drop_last() =~= (if before.len() + 1 > super::UNDO_STACK_LIMIT {
                            before.drop_first()
                        } else {
                            before
                        }));
                    }
                }
                self.mark_dirty();
            },
            _ => {},
        }
        let active = self.data.categories();
        self.forget_missing_filter(&active);
        self.return_after_secondary_mode();
    }

    /// Whether `b` is what `confirm_delete_no` leaves of `a`.
    pub open spec fn after_confirm_delete_no(a: App, b: App) -> bool {
        super::popups::returned(a, b)
    }

    /// Keeps everything, going back to the previous mode.
    pub fn confirm_delete_no(&mut self)
        requires
            old(self).today.valid(),
        ensures
            Self::after_confirm_delete_no(*old(self), *final(self)),
    {
        self.return_after_secondary_mode();
    }

    /// Whether `b` is what `confirm_delete_archive` leaves of `a`.
    pub open spec fn after_confirm_delete_archive(a: App, b: App) -> bool {
        &&& match a.mode {
                Mode::ConfirmDelete { ids, category_names, .. } => {
                    &&& b.data@ == archived_branches(
                        archived_items(a.data@, ids@, true),
                        texts(category_names@),
                        true,
                    )
                    &&& archive_recorded(a.undo_stack@, b.undo_stack@, ids@, texts(category_names@), false)
                    &&& b.dirty
                },
                _ => {
                    &&& b.data == a.data
                    &&& b.undo_stack == a.undo_stack
                    &&& b.dirty == a.dirty
                },
            }
        &&& b.category_filter == a.category_filter
        &&& b.category_index == a.category_index
        &&& super::popups::returned(settled(a, b), b)
    }

    /// Archives what the confirmation lists instead of deleting it:
    /// the chosen items and branches (not the items under the branches
    /// beyond what archiving a branch does); records the step to undo; goes
    /// back to the previous mode.
    pub fn confirm_delete_archive(&mut self)
        requires
            old(self).today.valid(),
        ensures
            Self::after_confirm_delete_archive(*old(self), *final(self)),
    {
        let mut mode = Mode::Normal;
        std::mem::swap(&mut self.mode, &mut mode);
        match mode {
            Mode::ConfirmDelete { ids, category_names, .. } => {
                archive_ids(&mut self.data, &ids, true);
                archive_names(&mut self.data, &category_names, true);
                let ghost gids = ids@;
                let ghost gnames = texts(category_names@);
                let ghost before = self.undo_stack@;
                self.push_undo_archive(ids, category_names, false);
                proof {
                    if !(gids.len() == 0 && gnames.len() == 0) {
                        assert(self.undo_stack@.drop_last() =~= (if before.len() + 1 > super::UNDO_STACK_LIMIT {
                            before.drop_first()
                        } else {
                            before
                        }));
                    }
                }
                self.mark_dirty();
            },
            _ => {},
        }
        self.return_after_secondary_mode();
    }
}

} // verus!
