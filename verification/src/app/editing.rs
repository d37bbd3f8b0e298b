//! Saving what was typed: a new item (then choosing its due date), an
//! edited item, a renamed item or branch; moving a sub-category among its
//! siblings.

use vstd::prelude::*;

use crate::data::laws::lemma_trim_idempotent;
use crate::data::{
    category_renamed, category_reordered, category_set, item_added, listed_categories, map_item, text_updated,
    utf8_longer_than, TodoDataView, TodoItem,
};
use crate::date::iso_text;
use crate::defs::{Mode, NoteDisplay, Pane, RenameTarget};
use crate::text::{chars_contain, chars_of, str_eq, string_of, trim, trim_chars, utf8_len};
use super::bulk::filter_checked;
use super::calendar::start_date;
use super::categories::{clamp_to, find_row, first_row};
use super::filing::before_return;
use super::popups::returned;
use super::App;

verus! {

/// Whether `w` is `v` with the item `id` filed under `cat`, when given.
pub open spec fn filed_opt(v: TodoDataView, w: TodoDataView, id: u64, cat: Option<Seq<char>>) -> bool {
    match cat {
        Some(c) => category_set(v, w, id, Some(c)),
        None => w == v,
    }
}

/// Whether `w` is `v` with the item `id` due on `due`, when given.
pub open spec fn due_opt(v: TodoDataView, w: TodoDataView, id: u64, due: Option<String>) -> bool {
    match due {
        Some(p) => w == map_item(v, id, |it: TodoItem| (TodoItem { due_date: Some(p), ..it })),
        None => w == v,
    }
}

/// Whether `w` is `v` after adding the item `id` holding `t`, filed under
/// the category `cat` and due on `due` when they are given.
pub open spec fn new_item_saved(
    v: TodoDataView,
    w: TodoDataView,
    t: Seq<char>,
    id: u64,
    cat: Option<Seq<char>>,
    due: Option<String>,
) -> bool {
    exists|v1: TodoDataView| #[trigger] item_added(v, v1, t, id) && exists|v2: TodoDataView| #[trigger] filed_opt(v1, v2, id, cat) && due_opt(v2, w, id, due)
}

impl App {
    /// Whether `b` is what `submit_edit` leaves of `a`.
    pub open spec fn after_submit_edit(a: App, b: App) -> bool {
        &&& b.today == a.today
        &&& match a.mode {
                Mode::Editing { edit_id } => {
                    let t = trim(a.input@.text);
                    if t.len() > 0 && utf8_len(t) <= 500 {
                        match edit_id {
                            None => {
                                let id = a.data@.next_id;
                                let k = match a.category_filter {
                                    Some(c) => first_row(b.rows(), c@, false),
                                    None => -1,
                                };
                                &&& new_item_saved(
                                    a.data@,
                                    b.data@,
                                    t,
                                    id,
                                    match a.category_filter {
                                        Some(c) => Some(c@),
                                        None => None,
                                    },
                                    a.pending_due_date,
                                )
                                &&& b.category_index == (if k >= 0 {
                                    (k + 1) as usize
                                } else {
                                    a.category_index
                                })
                                &&& b.mode matches Mode::DueDateCalendar {
                                    edit_id: e,
                                    saved_text,
                                    from_new,
                                    from_normal,
                                    selected,
                                    prompt_focused,
                                } && e == Some(id) && saved_text@.len() == 0 && from_new && !from_normal
                                    && !prompt_focused && selected == start_date(
                                    App { data: b.data, pending_due_date: None, ..a },
                                    Some(id),
                                ) && b.input@.text == iso_text(selected)
                                &&& b == (App {
                                    data: b.data,
                                    dirty: true,
                                    category_index: b.category_index,
                                    pending_due_date: None,
                                    mode: b.mode,
                                    input: b.input,
                                    ..a
                                })
                            },
                            Some(id) => {
                                let mid = before_return(a, b);
                                &&& exists|r: bool| #![trigger text_updated(a.data@, mid.data@, id, t, r)]
                                    text_updated(a.data@, mid.data@, id, t, r)
                                &&& mid == (App { data: mid.data, dirty: true, ..a })
                                &&& returned(mid, b)
                            },
                        }
                    } else if edit_id is None {
                        let mid = before_return(a, b);
                        &&& filter_checked(a, mid, listed_categories(a.data@, false))
                        &&& mid == (App {
                            category_filter: mid.category_filter,
                            category_index: mid.category_index,
                            pending_due_date: None,
                            ..a
                        })
                        &&& returned(mid, b)
                    } else {
                        returned(a, b)
                    }
                },
                _ => returned(a, b),
            }
    }

    /// Saves the line: a new item (filed under the category filter and due
    /// on the date chosen for it, then the calendar opens on it), or the
    /// edited item's new text. An empty or too long line saves nothing; for
    /// a new item it also drops a category filter left pointing at nothing
    /// and the chosen date. Then leaves the editor (but for the calendar).
    pub fn submit_edit(&mut self)
        requires
            old(self).today.valid(),
            old(self).data@.next_id < u64::MAX,
            crate::data::next_order(old(self).data@.items) <= u64::MAX,
        ensures
            Self::after_submit_edit(*old(self), *final(self)),
    {
        let edit_id = match &self.mode {
            Mode::Editing { edit_id } => *edit_id,
            _ => {
                self.return_after_secondary_mode();
                return;
            },
        };
        let cs = chars_of(self.input.text());
        let t = trim_chars(cs.as_slice());
        let text = string_of(t.as_slice());
        proof {
            lemma_trim_idempotent(cs@);
        }
        if t.len() > 0 && !utf8_longer_than(t.as_slice(), 500) {
            match edit_id {
                None => {
                    let id = self.data.add(text.as_str());
                    let ghost v1 = self.data@;
                    self.mark_dirty();
                    match &self.category_filter {
                        Some(cat) => {
                            let c = cat.clone();
                            self.data.set_category(id, Some(c));
                        },
                        None => {},
                    }
                    let ghost v2 = self.data@;
                    match &self.pending_due_date {
                        Some(date) => {
                            let d = date.clone();
                            self.data.set_due_date(id, Some(d));
                        },
                        None => {},
                    }
                    match &self.category_filter {
                        Some(cat) => {
                            let cats = self.category_entries();
                            match find_row(&cats, cat.as_str(), false) {
                                Some(pos) => {
                                    self.category_index = pos + 1;
                                },
                                None => {},
                            }
                        },
                        None => {},
                    }
                    self.pending_due_date = None;
                    proof {
                        assert(item_added(old(self).data@, v1, trim(cs@), id));
                        let cat_v: Option<Seq<char>> = if old(self).category_filter is Some {
                            Some(old(self).category_filter->0@)
                        } else {
                            None
                        };
                        assert(filed_opt(v1, v2, id, cat_v));
                        assert(due_opt(v2, self.data@, id, old(self).pending_due_date));
                        assert(new_item_saved(old(self).data@, self.data@, trim(cs@), id, cat_v, old(self).pending_due_date));
                    }
                    let selected = self.initial_due_date(Some(id));
                    let iso = selected.iso();
                    self.input.set_text(iso.as_str());
                    self.mode = Mode::DueDateCalendar {
                        edit_id: Some(id),
                        saved_text: String::new(),
                        from_new: true,
                        from_normal: false,
                        selected,
                        prompt_focused: false,
                    };
                    return;
                },
                Some(id) => {
                    self.data.update_text(id, text.as_str());
                    self.mark_dirty();
                },
            }
        } else if edit_id.is_none() {
            let active = self.data.categories();
            self.forget_missing_filter(&active);
            self.pending_due_date = None;
        }
        self.return_after_secondary_mode();
    }

    /// Whether `b` is what `cancel_edit` leaves of `a`.
    pub open spec fn after_cancel_edit(a: App, b: App) -> bool {
        &&& b.today == a.today
        &&& a.mode == (Mode::Editing { edit_id: None }) ==> {
                let mid = before_return(a, b);
                &&& filter_checked(a, mid, a.cats())
                &&& mid == (App {
                    category_filter: mid.category_filter,
                    category_index: mid.category_index,
                    pending_due_date: None,
                    ..a
                })
                &&& returned(mid, b)
            }
        &&& a.mode != (Mode::Editing { edit_id: None }) ==> returned(a, b)
    }

    /// Leaves the editor without saving; leaving a new item also drops a
    /// category filter left pointing at nothing in the view, and the date
    /// chosen for it.
    pub fn cancel_edit(&mut self)
        requires
            old(self).today.valid(),
        ensures
            Self::after_cancel_edit(*old(self), *final(self)),
    {
        let new_item = match &self.mode {
            Mode::Editing { edit_id: None } => true,
            _ => false,
        };
        if new_item {
            let cats = self.categories();
            self.forget_missing_filter(&cats);
            self.pending_due_date = None;
        }
        self.return_after_secondary_mode();
    }

    /// Whether `b` is what `submit_rename` leaves of `a`.
    pub open spec fn after_submit_rename(a: App, b: App) -> bool {
        &&& b.note_hint == a.note_hint
        &&& b.today == a.today
        &&& b.mode is Normal
        &&& b.input@.text.len() == 0
        &&& b.selected_index == clamp_to(b.selected_index as int, b.shown().len() as int)
        &&& ({
                let t = trim(a.input@.text);
                match a.mode {
                    Mode::RenameInput { target } => match target {
                        RenameTarget::Item(id) => if t.len() > 0 {
                            exists|r: bool| #![trigger text_updated(a.data@, b.data@, id, t, r)]
                                text_updated(a.data@, b.data@, id, t, r) && b.dirty == (a.dirty || r)
                        } else {
                            b.data == a.data
                        },
                        RenameTarget::Category(o) => if t.len() > 0 {
                            exists|r: bool| #![trigger category_renamed(a.data@, b.data@, o@, t, r)]
                                category_renamed(a.data@, b.data@, o@, t, r) && (r ==> b.dirty && (a.category_filter matches Some(f) && f@ == o@ ==> (b.category_filter matches Some(g) && g@ == t)))
                        } else {
                            b.data == a.data
                        },
                    },
                    _ => b.data == a.data,
                }
            })
    }

    /// Saves the rename line: the item's new text, or the branch's new
    /// path (following it with the filter, and with the sidebar when it is
    /// focused); an empty line saves nothing. Then back to browsing.
    pub fn submit_rename(&mut self)
        requires
            old(self).today.valid(),
        ensures
            Self::after_submit_rename(*old(self), *final(self)),
    {
        let mut mode = Mode::Normal;
        std::mem::swap(&mut self.mode, &mut mode);
        let ghost mut rr = false;
        match mode {
            Mode::RenameInput { target } => {
                let cs = chars_of(self.input.text());
                let t = trim_chars(cs.as_slice());
                let new_name = string_of(t.as_slice());
                match target {
                    RenameTarget::Item(id) => {
                        if t.len() > 0 {
                            let ghost before = self.data@;
                            let r = self.data.update_text(id, new_name.as_str());
                            assert(text_updated(before, self.data@, id, trim(cs@), r));
                            if r {
                                self.mark_dirty();
                            }
                            assert(before == old(self).data@);
                            assert(trim(cs@) == trim(old(self).input@.text));
                            assert(self.dirty == (old(self).dirty || r));
                            proof {
                                rr = r;
                            }
                        }
                    },
                    RenameTarget::Category(old_category) => {
                        let ghost before = self.data@;
                        let r = t.len() > 0 && self.data.rename_category(old_category.as_str(), new_name.as_str());
                        if t.len() > 0 {
                            assert(category_renamed(before, self.data@, old_category@, trim(cs@), r));
                            assert(before == old(self).data@);
                        }
                        proof {
                            rr = r;
                        }
                        if r {
                            let follows = match &self.category_filter {
                                Some(f) => str_eq(f.as_str(), old_category.as_str()),
                                None => false,
                            };
                            if follows {
                                self.category_filter = Some(new_name.clone());
                            }
                            if self.pane == Pane::Categories {
                                let entries = self.category_entries();
                                match find_row(&entries, new_name.as_str(), false) {
                                    Some(pos) => {
                                        self.category_index = pos + 1;
                                    },
                                    None => {},
                                }
                            }
                            self.mark_dirty();
                        }
                    },
                }
            },
            _ => {},
        }
        self.input.clear();
        self.mode = Mode::Normal;
        self.clamp_selection();
        proof {
            let t = trim(old(self).input@.text);
            match old(self).mode {
                Mode::RenameInput { target } => match target {
                    RenameTarget::Item(id) => if t.len() > 0 {
                        assert(text_updated(old(self).data@, self.data@, id, t, rr));
                        assert(exists|r: bool| #![trigger text_updated(old(self).data@, self.data@, id, t, r)]
                            text_updated(old(self).data@, self.data@, id, t, r) && self.dirty == (old(self).dirty || r));
                    },
                    RenameTarget::Category(o) => if t.len() > 0 {
                        assert(category_renamed(old(self).data@, self.data@, o@, t, rr));
                        assert(exists|r: bool| #![trigger category_renamed(old(self).data@, self.data@, o@, t, r)]
                            category_renamed(old(self).data@, self.data@, o@, t, r) && (r ==> self.dirty && (old(self).category_filter matches Some(f) && f@ == o@ ==> (self.category_filter matches Some(g) && g@ == t))));
                    },
                },
                _ => {},
            }
        }
    }

    /// Whether `b` is what `reorder_category_action` leaves of `a`.
    pub open spec fn after_reorder_category_action(a: App, b: App, path: String, direction: i32) -> bool {
        &&& b.note_hint == a.note_hint
        &&& b.today == a.today
        &&& match category_reordered(a.data@.categories, path@, direction as int) {
                Some(c) => {
                    let k = first_row(b.rows(), path@, false);
                    &&& b.data@ == (TodoDataView { categories: c, ..a.data@ })
                    &&& b.category_index == (if k >= 0 {
                        (k + 1) as usize
                    } else {
                        a.category_index
                    })
                    &&& b == (App {
                        data: b.data,
                        category_index: b.category_index,
                        dirty: true,
                        ..a
                    })
                },
                None => if path@.contains('/') {
                    &&& b.mode == (Mode::CategoryPicker {
                        selected: 0,
                        target: crate::defs::CategoryPickerTarget::MoveCategory(path),
                    })
                    &&& b.data@ == a.data@
                } else {
                    b.data@ == a.data@ && b.mode == a.mode
                },
            }
    }

    /// Moves the sub-category `path` by `direction` places among its
    /// siblings, the sidebar following it; a sub-category that cannot move
    /// there opens the picker to move it elsewhere.
    pub fn reorder_category_action(&mut self, path: String, direction: i32)
        requires
            old(self).data@.categories.len() <= i32::MAX,
        ensures
            Self::after_reorder_category_action(*old(self), *final(self), path, direction),
    {
        if self.data.reorder_category(path.as_str(), direction) {
            let entries = self.category_entries();
            match find_row(&entries, path.as_str(), false) {
                Some(pos) => {
                    self.category_index = pos + 1;
                },
                None => {},
            }
            self.mark_dirty();
        } else {
            let pc = chars_of(path.as_str());
            if chars_contain(pc.as_slice(), '/') {
                self.open_category_move_picker(path);
            }
        }
    }

    /// Whether `b` is what `set_note_display` leaves of `a`.
    pub open spec fn after_set_note_display(a: App, b: App, d: NoteDisplay) -> bool {
        b == (App { note_display: d, ..a })
    }

    /// Sets how much of the notes shows inline.
    pub fn set_note_display(&mut self, d: NoteDisplay)
        ensures
            Self::after_set_note_display(*old(self), *final(self), d),
    {
        self.note_display = d;
    }
}

} // verus!
