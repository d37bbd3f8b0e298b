//! Choosing several items or categories, and what to do with them: the
//! multi-selection and the bulk-action picker; opening an item's notes.

use vstd::prelude::*;

use crate::data::category::texts;
use crate::data::{find_item, without, without_exec, TodoItem};
use crate::defs::{CategoryPickerTarget, Mode, MultiSelectCmd, Pane};
use crate::menus::{bulk_action_labels, bulk_labels};
use crate::text::str_eq;
use super::bulk::{archive_recorded, cascade, filter_checked};
use super::categories::clamp_to;
use super::history::{archive_ids, archive_names, archived_branches, archived_items, toggle_ids, toggled_items};
use super::popups::{last_note, returned};
use super::view::derefs;
use super::App;

verus! {

/// `s` without `x`.
pub open spec fn without_id(s: Seq<u64>, x: u64) -> Seq<u64>
    decreases s.len(),
{
    if s.len() == 0 {
        Seq::empty()
    } else {
        let p = without_id(s.drop_last(), x);
        if s.last() == x {
            p
        } else {
            p.push(s.last())
        }
    }
}

/// `s` with `x` added when it is not there, or taken out when it is.
pub open spec fn toggled_id(s: Seq<u64>, x: u64) -> Seq<u64> {
    if s.contains(x) {
        without_id(s, x)
    } else {
        s.push(x)
    }
}

/// `s` with `x` added when it is not there, or taken out when it is.
pub open spec fn toggled_name(s: Seq<Seq<char>>, x: Seq<char>) -> Seq<Seq<char>> {
    if s.contains(x) {
        without(s, x)
    } else {
        s.push(x)
    }
}

/// The ids of the items of `s`, in order.
pub open spec fn ids_of(s: Seq<TodoItem>) -> Seq<u64> {
    s.map_values(|it: TodoItem| it.id)
}

fn toggle_id(v: &Vec<u64>, x: u64) -> (r: Vec<u64>)
    ensures
        r@ == toggled_id(v@, x),
{
    let mut found = false;
    let mut out: Vec<u64> = Vec::new();
    let mut i: usize = 0;
    while i < v.len()
        invariant
            0 <= i <= v.len(),
            out@ == without_id(v@.take(i as int), x),
            found == v@.take(i as int).contains(x),
        decreases v.len() - i,
    {
        assert(v@.take(i + 1).drop_last() =~= v@.take(i as int));
        assert(v@.take(i + 1).last() == v@[i as int]);
        if v[i] == x {
            found = true;
        } else {
            out.push(v[i]);
        }
        proof {
            let t0 = v@.take(i as int);
            let t1 = v@.take(i + 1);
            if t0.contains(x) {
                let k = choose|k: int| 0 <= k < t0.len() && t0[k] == x;
                assert(t1[k] == x);
            }
            if t1.contains(x) && v@[i as int] != x {
                let k = choose|k: int| 0 <= k < t1.len() && t1[k] == x;
                assert(t0[k] == x);
            }
        }
        i = i + 1;
    }
    assert(v@.take(v.len() as int) =~= v@);
    if found {
        out
    } else {
        let mut w = v.clone();
        w.push(x);
        w
    }
}

fn toggle_name(v: &Vec<String>, x: String) -> (r: Vec<String>)
    ensures
        texts(r@) == toggled_name(texts(v@), x@),
{
    if crate::data::category::strings_contain(v, &x) {
        without_exec(v, &x)
    } else {
        let mut w = crate::data::clone_strings(v);
        let ghost before = w@;
        w.push(x);
        assert(texts(w@) =~= texts(before).push(w@.last()@));
        w
    }
}

/// The ids of the items `items` points to, in order.
fn ids_of_refs(items: &Vec<&TodoItem>) -> (r: Vec<u64>)
    ensures
        r@ == ids_of(derefs(items@)),
{
    let mut out: Vec<u64> = Vec::new();
    let mut i: usize = 0;
    while i < items.len()
        invariant
            0 <= i <= items.len(),
            out@ == ids_of(derefs(items@)).take(i as int),
        decreases items.len() - i,
    {
        out.push(items[i].id);
        i = i + 1;
        assert(out@ =~= ids_of(derefs(items@)).take(i as int));
    }
    assert(ids_of(derefs(items@)).take(items.len() as int) =~= ids_of(derefs(items@)));
    out
}

/// The ids of the items of `items`, in order.
fn ids_of_items(items: &[TodoItem]) -> (r: Vec<u64>)
    ensures
        r@ == ids_of(items@),
{
    let mut out: Vec<u64> = Vec::new();
    let mut i: usize = 0;
    while i < items.len()
        invariant
            0 <= i <= items.len(),
            out@ == ids_of(items@).take(i as int),
        decreases items.len() - i,
    {
        out.push(items[i].id);
        i = i + 1;
        assert(out@ =~= ids_of(items@).take(i as int));
    }
    assert(ids_of(items@).take(items.len() as int) =~= ids_of(items@));
    out
}

/// Whether `b` is `a` with the note log of the item `id` open on its newest
/// note and an empty line, when there is such an item; `a` unchanged
/// otherwise.
pub open spec fn notes_opened(a: App, b: App, id: u64) -> bool {
    if find_item(a.data@.items, id) < 0 {
        b == a
    } else {
        &&& b.mode == (Mode::Notes { item_id: id, selected: last_note(a.data@, id) as usize })
        &&& b.input@.text.len() == 0
        &&& b == (App { mode: b.mode, input: b.input, ..a })
    }
}

impl App {
    /// Whether `b` is what `open_notes` leaves of `a`.
    pub open spec fn after_open_notes(a: App, b: App, id: u64) -> bool {
        notes_opened(a, b, id)
    }

    /// Opens the note log of the item `id` on its newest note, the one just
    /// written or come back to read.
    pub fn open_notes(&mut self, id: u64)
        ensures
            final(self).note_hint == old(self).note_hint,
            Self::after_open_notes(*old(self), *final(self), id),
    {
        if self.data.get(id).is_none() {
            return;
        }
        let selected = self.data.last_note_index(id);
        self.input.clear();
        self.mode = Mode::Notes { item_id: id, selected };
    }

    /// Whether `b` is what `toggle_multi_select` leaves of `a`.
    pub open spec fn after_toggle_multi_select(a: App, b: App, id: u64) -> bool {
        match a.mode {
            Mode::MultiSelect { cmd, selected, selected_categories } => {
                &&& (match b.mode {
                    Mode::MultiSelect { cmd: c2, selected: s2, selected_categories: n2 } => c2 == cmd
                        && s2@ == toggled_id(selected@, id) && n2 == selected_categories,
                    _ => false,
                })
                &&& b == (App { mode: b.mode, ..a })
            },
            _ => b == a,
        }
    }

    /// In a multi-selection, picks the item `id`, or unpicks it.
    pub fn toggle_multi_select(&mut self, id: u64)
        ensures
            Self::after_toggle_multi_select(*old(self), *final(self), id),
    {
        let mut mode = Mode::Normal;
        std::mem::swap(&mut self.mode, &mut mode);
        self.mode = match mode {
            Mode::MultiSelect { cmd, selected, selected_categories } => Mode::MultiSelect {
                cmd,
                selected: toggle_id(&selected, id),
                selected_categories,
            },
            other => other,
        };
    }

    /// Whether `b` is what `toggle_category_multi_select` leaves of `a`.
    pub open spec fn after_toggle_category_multi_select(a: App, b: App, name: String) -> bool {
        match a.mode {
            Mode::MultiSelect { cmd, selected, selected_categories } => {
                &&& (match b.mode {
                    Mode::MultiSelect { cmd: c2, selected: s2, selected_categories: n2 } => c2 == cmd
                        && s2 == selected && texts(n2@) == toggled_name(texts(selected_categories@), name@),
                    _ => false,
                })
                &&& b == (App { mode: b.mode, ..a })
            },
            _ => b == a,
        }
    }

    /// In a multi-selection, picks the category `name`, or unpicks it.
    pub fn toggle_category_multi_select(&mut self, name: String)
        ensures
            Self::after_toggle_category_multi_select(*old(self), *final(self), name),
    {
        let mut mode = Mode::Normal;
        std::mem::swap(&mut self.mode, &mut mode);
        self.mode = match mode {
            Mode::MultiSelect { cmd, selected, selected_categories } => Mode::MultiSelect {
                cmd,
                selected,
                selected_categories: toggle_name(&selected_categories, name),
            },
            other => other,
        };
    }

    /// Whether `b` is what `select_all_multi_select` leaves of `a`.
    pub open spec fn after_select_all_multi_select(a: App, b: App) -> bool {
        match a.mode {
            Mode::MultiSelect { cmd, .. } => if cmd == MultiSelectCmd::Delete {
                let ids = if a.pane == Pane::Categories {
                    ids_of(a.data@.items)
                } else {
                    ids_of(a.shown())
                };
                let names = if a.pane == Pane::Categories {
                    a.cats()
                } else {
                    Seq::empty()
                };
                if ids.len() == 0 && names.len() == 0 {
                    b == a
                } else {
                    &&& b.mode matches Mode::ConfirmDelete { ids: all, texts: lines, category_names }
                        && all@ == cascade(ids, a.data@.items, names) && texts(category_names@) == names
                    &&& b == (App { mode: b.mode, ..a })
                }
            } else {
                &&& b.mode matches Mode::MultiSelect { cmd: c2, selected, selected_categories }
                    && c2 == cmd && selected@ == (if a.pane == Pane::Categories {
                    Seq::empty()
                } else {
                    ids_of(a.shown())
                }) && texts(selected_categories@) == (if a.pane == Pane::Categories {
                    a.cats()
                } else {
                    Seq::empty()
                })
                &&& b == (App { mode: b.mode, ..a })
            },
            _ => b == a,
        }
    }

    /// In a multi-selection, picks everything: for a delete, goes straight
    /// to the confirmation of every item and category (in the sidebar) or
    /// every visible item; otherwise picks every visible item, or in the
    /// sidebar every category of the view.
    pub fn select_all_multi_select(&mut self)
        requires
            old(self).today.valid(),
        ensures
            Self::after_select_all_multi_select(*old(self), *final(self)),
    {
        let cmd = match &self.mode {
            Mode::MultiSelect { cmd, .. } => *cmd,
            _ => return,
        };
        let in_sidebar = self.pane == Pane::Categories;
        let ids: Vec<u64> = if in_sidebar {
            if cmd == MultiSelectCmd::Delete {
                ids_of_items(self.data.items())
            } else {
                Vec::new()
            }
        } else {
            let items = self.items();
            ids_of_refs(&items)
        };
        let names: Vec<String> = if in_sidebar {
            self.categories()
        } else {
            Vec::new()
        };
        proof {
            if !in_sidebar {
                assert(texts(names@) =~= Seq::<Seq<char>>::empty());
            }
        }
        if cmd == MultiSelectCmd::Delete {
            if ids.len() > 0 || names.len() > 0 {
                self.mode = self.build_confirm_delete_mode(ids, names);
            }
            return;
        }
        self.mode = Mode::MultiSelect { cmd, selected: ids, selected_categories: names };
    }

    /// Whether `b` is what `confirm_multi_select` leaves of `a`.
    pub open spec fn after_confirm_multi_select(a: App, b: App) -> bool {
        match a.mode {
            Mode::MultiSelect { cmd, selected, selected_categories } => {
                let none = selected@.len() == 0 && selected_categories@.len() == 0;
                match cmd {
                    MultiSelectCmd::PickAction => if none {
                        b == (App { mode: Mode::Normal, ..a })
                    } else {
                        &&& b.mode matches Mode::BulkActionPicker { ids, category_names, selected: s }
                            && ids == selected && category_names == selected_categories && s == 0
                        &&& b == (App { mode: b.mode, ..a })
                    },
                    MultiSelectCmd::Delete => if none {
                        b == (App { mode: Mode::Normal, ..a })
                    } else {
                        &&& b.mode matches Mode::ConfirmDelete { ids, category_names, .. } && ids@ == cascade(
                            selected@,
                            a.data@.items,
                            texts(selected_categories@),
                        ) && category_names@ == selected_categories@
                        &&& b == (App { mode: b.mode, ..a })
                    },
                    _ => {
                        &&& b.data@ == (match cmd {
                            MultiSelectCmd::ToggleDone => toggled_items(a.data@, selected@),
                            MultiSelectCmd::Archive => archived_branches(
                                archived_items(a.data@, selected@, true),
                                texts(selected_categories@),
                                true,
                            ),
                            _ => archived_branches(
                                archived_items(a.data@, selected@, false),
                                texts(selected_categories@),
                                false,
                            ),
                        })
                        &&& (match cmd {
                            MultiSelectCmd::ToggleDone => b.undo_stack == a.undo_stack,
                            MultiSelectCmd::Archive => archive_recorded(
                                a.undo_stack@,
                                b.undo_stack@,
                                selected@,
                                texts(selected_categories@),
                                false,
                            ),
                            _ => archive_recorded(
                                a.undo_stack@,
                                b.undo_stack@,
                                selected@,
                                texts(selected_categories@),
                                true,
                            ),
                        })
                        &&& b.mode is Normal
                        &&& filter_checked(a, b, b.cats())
                        &&& b.selected_index == clamp_to(
                            a.selected_index as int,
                            b.shown().len() as int,
                        )
                        &&& b == (App {
                            data: b.data,
                            undo_stack: b.undo_stack,
                            dirty: true,
                            mode: Mode::Normal,
                            category_filter: b.category_filter,
                            category_index: b.category_index,
                            selected_index: b.selected_index,
                            ..a
                        })
                    },
                }
            },
            _ => b == (App { mode: Mode::Normal, ..a }),
        }
    }

    /// Ends a multi-selection: opens the bulk-action picker or the delete
    /// confirmation for what was picked (or goes back to browsing when
    /// nothing was), or flips the done flag, archives or restores what was
    /// picked (recording the step to undo), drops a category filter left
    /// pointing at nothing in the view, and keeps the highlight within the
    /// list.
    pub fn confirm_multi_select(&mut self)
        requires
            old(self).today.valid(),
        ensures
            Self::after_confirm_multi_select(*old(self), *final(self)),
    {
        let mut mode = Mode::Normal;
        std::mem::swap(&mut self.mode, &mut mode);
        let (cmd, selected, selected_categories) = match mode {
            Mode::MultiSelect { cmd, selected, selected_categories } => (cmd, selected, selected_categories),
            _ => return,
        };
        match cmd {
            MultiSelectCmd::PickAction => {
                if selected.len() == 0 && selected_categories.len() == 0 {
                    return;
                }
                self.mode = Mode::BulkActionPicker { ids: selected, category_names: selected_categories, selected: 0 };
                return;
            },
            MultiSelectCmd::Delete => {
                if selected.len() == 0 && selected_categories.len() == 0 {
                    return;
                }
                self.mode = self.build_confirm_delete_mode(selected, selected_categories);
                return;
            },
            MultiSelectCmd::ToggleDone => {
                toggle_ids(&mut self.data, &selected);
                self.mark_dirty();
            },
            MultiSelectCmd::Archive => {
                archive_ids(&mut self.data, &selected, true);
                archive_names(&mut self.data, &selected_categories, true);
                self.record_archive(selected, selected_categories, false);
                self.mark_dirty();
            },
            MultiSelectCmd::RestoreArchive => {
                archive_ids(&mut self.data, &selected, false);
                archive_names(&mut self.data, &selected_categories, false);
                self.record_archive(selected, selected_categories, true);
                self.mark_dirty();
            },
        }
        let cats = self.categories();
        self.forget_missing_filter(&cats);
        self.clamp_selection();
    }

    /// Records an archive step to undo, as `archive_recorded` says.
    pub fn record_archive(&mut self, ids: Vec<u64>, names: Vec<String>, previous: bool)
        ensures
            archive_recorded(old(self).undo_stack@, final(self).undo_stack@, ids@, texts(names@), previous),
            *final(self) == (App { undo_stack: final(self).undo_stack, ..*old(self) }),
    {
        let ghost gids = ids@;
        let ghost gnames = texts(names@);
        let ghost before = self.undo_stack@;
        self.push_undo_archive(ids, names, previous);
        proof {
            if !(gids.len() == 0 && gnames.len() == 0) {
                assert(self.undo_stack@.drop_last() =~= (if before.len() + 1 > super::UNDO_STACK_LIMIT {
                    before.drop_first()
                } else {
                    before
                }));
            }
        }
    }
}

impl App {
    /// Whether `b` is what `bulk_action_select` leaves of `a`.
    pub open spec fn after_bulk_action_select(a: App, b: App, idx: usize) -> bool {
        match a.mode {
            Mode::BulkActionPicker { ids, category_names, .. } => {
                let single = ids@.len() == 1 && category_names@.len() == 0;
                let labels = bulk_labels(single);
                let closed = App { mode: Mode::Normal, ..a };
                if idx >= labels.len() {
                    b == a
                } else if labels[idx as int]@ == "Delete"@ {
                    &&& b.mode matches Mode::ConfirmDelete { ids: all, category_names: names, .. }
                        && all@ == cascade(ids@, a.data@.items, texts(category_names@)) && names@
                        == category_names@
                    &&& b == (App { mode: b.mode, ..a })
                } else if labels[idx as int]@ == "Archive"@ {
                    &&& b.data@ == archived_branches(
                        archived_items(a.data@, ids@, true),
                        texts(category_names@),
                        true,
                    )
                    &&& archive_recorded(a.undo_stack@, b.undo_stack@, ids@, texts(category_names@), false)
                    &&& returned(
                        App { data: b.data, undo_stack: b.undo_stack, dirty: true, ..closed },
                        b,
                    )
                } else if labels[idx as int]@ == "Toggle done"@ {
                    &&& b.data@ == toggled_items(a.data@, ids@)
                    &&& returned(App { data: b.data, dirty: true, ..closed }, b)
                } else if labels[idx as int]@ == "Assign category"@ {
                    if ids@.len() == 0 {
                        b == closed
                    } else {
                        &&& b.mode matches Mode::CategoryPicker { selected, target } && selected == 0
                            && target == CategoryPickerTarget::AssignBulk(ids)
                        &&& b.input@.text.len() == 0
                        &&& b == (App { mode: b.mode, input: b.input, ..a })
                    }
                } else if labels[idx as int]@ == "Edit"@ {
                    if !single {
                        b == closed
                    } else {
                        let i = find_item(a.data@.items, ids@[0]);
                        if i < 0 {
                            b == closed
                        } else {
                            &&& b.mode == (Mode::Editing { edit_id: Some(ids@[0]) })
                            &&& b.input@.text == a.data@.items[i].text@
                            &&& b == (App { mode: b.mode, input: b.input, ..a })
                        }
                    }
                } else if labels[idx as int]@ == "Notes"@ {
                    if !single {
                        b == closed
                    } else {
                        notes_opened(closed, b, ids@[0])
                    }
                } else {
                    b == closed
                }
            },
            _ => b == a,
        }
    }

    /// Carries out row `idx` of the bulk-action picker on its items and
    /// categories: ask to delete them, archive them (recording the step to
    /// undo), flip their done flag, choose a category for them, or, for a
    /// single item, edit it or open its notes. A row past the list changes
    /// nothing.
    pub fn bulk_action_select(&mut self, idx: usize)
        requires
            old(self).today.valid(),
        ensures
            Self::after_bulk_action_select(*old(self), *final(self), idx),
    {
        let single = match &self.mode {
            Mode::BulkActionPicker { ids, category_names, .. } => ids.len() == 1 && category_names.len() == 0,
            _ => return,
        };
        let labels = bulk_action_labels(single);
        if idx >= labels.len() {
            return;
        }
        let label = labels[idx];
        let mut mode = Mode::Normal;
        std::mem::swap(&mut self.mode, &mut mode);
        let (ids, names) = match mode {
            Mode::BulkActionPicker { ids, category_names, .. } => (ids, category_names),
            _ => return,
        };
        if str_eq(label, "Delete") {
            self.mode = self.build_confirm_delete_mode(ids, names);
        } else if str_eq(label, "Archive") {
            archive_ids(&mut self.data, &ids, true);
            archive_names(&mut self.data, &names, true);
            self.record_archive(ids, names, false);
            self.mark_dirty();
            self.return_after_secondary_mode();
        } else if str_eq(label, "Toggle done") {
            toggle_ids(&mut self.data, &ids);
            self.mark_dirty();
            self.return_after_secondary_mode();
        } else if str_eq(label, "Assign category") {
            if ids.len() == 0 {
                return;
            }
            self.input.clear();
            self.mode = Mode::CategoryPicker { selected: 0, target: CategoryPickerTarget::AssignBulk(ids) };
        } else if str_eq(label, "Edit") {
            if !single {
                return;
            }
            let id = ids[0];
            match self.data.get(id) {
                Some(item) => {
                    let text = item.text.clone();
                    self.input.set_text(text.as_str());
                    self.mode = Mode::Editing { edit_id: Some(id) };
                },
                None => {},
            }
        } else if str_eq(label, "Notes") {
            if !single {
                return;
            }
            self.open_notes(ids[0]);
        }
    }
}

} // verus!
