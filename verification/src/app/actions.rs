//! The everyday actions: moving the highlight, writing and editing items,
//! flags, priority and order, searching, the palette line, pasting, and
//! resizing the sidebar.

use vstd::prelude::*;

use crate::commands::{completion, filtered_commands, get_completions};
use crate::data::category::texts;

use crate::data::{find_item, map_item, next_priority, reordered, toggled_doing, toggled_done, TodoItem};
use crate::defs::{Effect, Mode, Pane};

use super::categories::{clamp_to, moved_to_category};
use super::popups::selection_max;
use super::view::derefs;
use super::{App, SIDEBAR_WIDTH_DEFAULT, SIDEBAR_WIDTH_MAX, SIDEBAR_WIDTH_MIN};

verus! {

/// Position of the item `id` in the references `items`.
fn position_of(items: &Vec<&TodoItem>, id: u64) -> (r: Option<usize>)
    ensures
        match r {
            Some(i) => find_item(derefs(items@), id) == i,
            None => find_item(derefs(items@), id) < 0,
        },
{
    let ghost d = derefs(items@);
    let mut i: usize = 0;
    while i < items.len()
        invariant
            0 <= i <= items.len(),
            d == derefs(items@),
            forall|j: int| 0 <= j < i ==> d[j].id != id,
        decreases items.len() - i,
    {
        if items[i].id == id {
            proof {
                crate::data::lemma_find_item(d, id, i as int);
            }
            return Some(i);
        }
        i = i + 1;
    }
    proof {
        crate::data::lemma_find_item(d, id, i as int);
    }
    None
}

/// The highlight moved to where the item `id` now shows, if it shows.
pub open spec fn follows(a: App, b: App, id: u64) -> bool {
    let k = find_item(b.shown(), id);
    b.selected_index == (if k >= 0 {
        k as usize
    } else {
        a.selected_index
    })
}

impl App {
    /// Whether `b` is what `select_prev` leaves of `a`.
    pub open spec fn after_select_prev(a: App, b: App) -> bool {
        &&& b.note_hint == a.note_hint
        &&& b.today == a.today
        &&& (selection_max(a) is Some && crate::defs::mode_selected(a.mode) is Some) ==> b.data == a.data
        &&& !(selection_max(a) is Some && crate::defs::mode_selected(a.mode) is Some) ==> if a.pane == Pane::Categories {
                if a.category_index > 0 {
                    moved_to_category(a, b, a.category_index - 1)
                } else {
                    b == a
                }
            } else {
                b == (App {
                    selected_index: if a.selected_index > 0 {
                        (a.selected_index - 1) as usize
                    } else {
                        0
                    },
                    ..a
                })
            }
    }

    /// Moves the highlight one row up: in a popup list, in the sidebar, or
    /// in the item list.
    pub fn select_prev(&mut self)
        requires
            old(self).today.valid(),
        ensures
            Self::after_select_prev(*old(self), *final(self)),
    {
        if self.move_mode_selection(-1) {
            return;
        }
        if self.pane == Pane::Categories {
            if self.category_index > 0 {
                self.set_category_index(self.category_index - 1);
            }
        } else if self.selected_index > 0 {
            self.selected_index = self.selected_index - 1;
        }
    }

    /// Whether `b` is what `select_next` leaves of `a`.
    pub open spec fn after_select_next(a: App, b: App) -> bool {
        &&& b.note_hint == a.note_hint
        &&& b.today == a.today
        &&& (selection_max(a) is Some && crate::defs::mode_selected(a.mode) is Some) ==> b.data == a.data
        &&& !(selection_max(a) is Some && crate::defs::mode_selected(a.mode) is Some) ==> if a.pane == Pane::Categories {
                if a.category_index < a.rows().len() {
                    moved_to_category(a, b, a.category_index + 1)
                } else {
                    b == a
                }
            } else {
                b == (App {
                    selected_index: if a.selected_index + 1 < a.shown().len() {
                        (a.selected_index + 1) as usize
                    } else {
                        a.selected_index
                    },
                    ..a
                })
            }
    }

    /// Moves the highlight one row down: in a popup list, in the sidebar, or
    /// in the item list, staying within it.
    pub fn select_next(&mut self)
        requires
            old(self).today.valid(),
        ensures
            Self::after_select_next(*old(self), *final(self)),
    {
        if self.move_mode_selection(1) {
            return;
        }
        if self.pane == Pane::Categories {
            let n = self.category_entries().len();
            if self.category_index < n {
                self.set_category_index(self.category_index + 1);
            }
        } else {
            let n = self.item_count();
            let max = if n > 0 {
                n - 1
            } else {
                0
            };
            if self.selected_index < max {
                self.selected_index = self.selected_index + 1;
            }
        }
    }

    /// Whether `b` is what `start_new_item` leaves of `a`.
    pub open spec fn after_start_new_item(a: App, b: App, first: Option<char>) -> bool {
        &&& b.input@.text == (match first {
                Some(c) => seq![c],
                None => Seq::empty(),
            })
        &&& b == (App { input: b.input, mode: Mode::Editing { edit_id: None }, ..a })
    }

    /// Starts writing a new item, with `first` typed when given.
    pub fn start_new_item(&mut self, first: Option<char>)
        ensures
            Self::after_start_new_item(*old(self), *final(self), first),
    {
        self.input.clear();
        match first {
            Some(c) => {
                self.input.insert_char(c);
                assert(self.input@.text =~= seq![c]);
            },
            None => {},
        }
        self.mode = Mode::Editing { edit_id: None };
    }

    /// Whether `b` is what `edit_item` leaves of `a`.
    pub open spec fn after_edit_item(a: App, b: App, id: u64) -> bool {
        &&& find_item(a.data@.items, id) < 0 ==> b == a
        &&& find_item(a.data@.items, id) >= 0 ==> {
                &&& b.input@.text == a.data@.items[find_item(a.data@.items, id)].text@
                &&& b == (App { input: b.input, mode: Mode::Editing { edit_id: Some(id) }, ..a })
            }
    }

    /// Starts editing the item `id`, its text on the line.
    pub fn edit_item(&mut self, id: u64)
        ensures
            Self::after_edit_item(*old(self), *final(self), id),
    {
        match self.data.get(id) {
            Some(item) => {
                let text = item.text.clone();
                self.input.set_text(text.as_str());
                self.mode = Mode::Editing { edit_id: Some(id) };
            },
            None => {},
        }
    }

    /// Whether `b` is what `toggle_done_action` leaves of `a`.
    pub open spec fn after_toggle_done_action(a: App, b: App, id: u64) -> bool {
        &&& b.data@ == map_item(a.data@, id, |it: TodoItem| toggled_done(it))
        &&& b.note_hint == (find_item(b.data@.items, id) >= 0 && b.data@.items[find_item(
                b.data@.items,
                id,
            )].done && b.data@.items[find_item(b.data@.items, id)].notes@.len() == 0)
        &&& b == (App { data: b.data, note_hint: b.note_hint, dirty: true, ..a })
    }

    /// Flips the done flag of the item `id`, hinting at logging a note when
    /// it became done and has none.
    pub fn toggle_done_action(&mut self, id: u64)
        ensures
            Self::after_toggle_done_action(*old(self), *final(self), id),
    {
        self.data.toggle_done(id);
        self.note_hint = match self.data.get(id) {
            Some(item) => item.done && item.notes.len() == 0,
            None => false,
        };
        self.mark_dirty();
    }

    /// Whether `b` is what `toggle_doing_action` leaves of `a`.
    pub open spec fn after_toggle_doing_action(a: App, b: App, id: u64) -> bool {
        &&& b.data@ == map_item(a.data@, id, |it: TodoItem| toggled_doing(it))
        &&& b == (App { data: b.data, dirty: true, ..a })
    }

    /// Flips the in-progress flag of the item `id`.
    pub fn toggle_doing_action(&mut self, id: u64)
        ensures
            Self::after_toggle_doing_action(*old(self), *final(self), id),
    {
        self.data.toggle_doing(id);
        self.mark_dirty();
    }

    /// Whether `b` is what `delete_item_action` leaves of `a`.
    pub open spec fn after_delete_item_action(a: App, b: App, id: u64) -> bool {
        &&& find_item(a.data@.items, id) < 0 ==> b == a
        &&& find_item(a.data@.items, id) >= 0 ==> {
                &&& b.mode matches Mode::ConfirmDelete { ids, texts: lines, category_names } && ids@ == seq![id]
                    && texts(lines@) == seq![a.data@.items[find_item(a.data@.items, id)].text@]
                    && category_names@.len() == 0
                &&& b == (App { mode: b.mode, ..a })
            }
    }

    /// Asks to delete the item `id`.
    pub fn delete_item_action(&mut self, id: u64)
        ensures
            Self::after_delete_item_action(*old(self), *final(self), id),
    {
        match self.data.get(id) {
            Some(item) => {
                let text = item.text.clone();
                let lines = vec![text];
                assert(texts(lines@) =~= seq![lines@[0]@]);
                assert(texts(lines@) =~= seq![self.data@.items[find_item(self.data@.items, id)].text@]);
                let ids = vec![id];
                assert(ids@ =~= seq![id]);
                self.mode = Mode::ConfirmDelete { ids, texts: lines, category_names: Vec::new() };
            },
            None => {},
        }
    }

    /// Whether `b` is what `cycle_priority_action` leaves of `a`.
    pub open spec fn after_cycle_priority_action(a: App, b: App, id: u64) -> bool {
        &&& b.data@ == map_item(
                a.data@,
                id,
                |it: TodoItem| (TodoItem { priority: next_priority(it.priority), ..it }),
            )
        &&& follows(a, b, id)
        &&& b == (App { data: b.data, dirty: true, selected_index: b.selected_index, ..a })
    }

    /// Moves the item `id` to the next priority, keeping it highlighted.
    pub fn cycle_priority_action(&mut self, id: u64)
        requires
            old(self).today.valid(),
        ensures
            Self::after_cycle_priority_action(*old(self), *final(self), id),
    {
        self.data.cycle_priority(id);
        self.mark_dirty();
        self.follow_item(id);
    }

    /// Whether `b` is what `toggle_pin_action` leaves of `a`.
    pub open spec fn after_toggle_pin_action(a: App, b: App, id: u64) -> bool {
        &&& b.data@ == map_item(a.data@, id, |it: TodoItem| (TodoItem { pinned: !it.pinned, ..it }))
        &&& follows(a, b, id)
        &&& b == (App { data: b.data, dirty: true, selected_index: b.selected_index, ..a })
    }

    /// Pins or unpins the item `id`, keeping it highlighted.
    pub fn toggle_pin_action(&mut self, id: u64)
        requires
            old(self).today.valid(),
        ensures
            Self::after_toggle_pin_action(*old(self), *final(self), id),
    {
        self.data.toggle_pin(id);
        self.mark_dirty();
        self.follow_item(id);
    }

    /// Moves the highlight to where the item `id` shows, if it shows.
    fn follow_item(&mut self, id: u64)
        requires
            old(self).today.valid(),
        ensures
            follows(*old(self), *final(self), id),
            *final(self) == (App { selected_index: final(self).selected_index, ..*old(self) }),
    {
        let pos = {
            let items = self.items();
            position_of(&items, id)
        };
        match pos {
            Some(p) => {
                self.selected_index = p;
            },
            None => {},
        }
    }

    /// Whether `b` is what `reorder_action` leaves of `a`.
    pub open spec fn after_reorder_action(a: App, b: App, id: u64, direction: i32) -> bool {
        match reordered(a.data@, id, direction as int) {
            Some(v) => {
                let n = b.shown().len();
                let moved = if direction < 0 && a.selected_index > 0 {
                    (a.selected_index - 1) as usize
                } else if direction > 0 && a.selected_index + 1 < n {
                    (a.selected_index + 1) as usize
                } else {
                    a.selected_index
                };
                &&& b.data@ == v
                &&& b.selected_index == clamp_to(moved as int, n as int)
                &&& b == (App { data: b.data, dirty: true, selected_index: b.selected_index, ..a })
            },
            None => b.selected_index == clamp_to(a.selected_index as int, b.shown().len() as int)
                && b.data@ == a.data@
                && b == (App { data: b.data, selected_index: b.selected_index, ..a }),
        }
    }

    /// Moves the item `id` by `direction` places in the list, the highlight
    /// following it one row.
    pub fn reorder_action(&mut self, id: u64, direction: i32)
        requires
            old(self).today.valid(),
            old(self).data@.items.len() <= i32::MAX,
            find_item(old(self).data@.items, id) >= 0 ==> i32::MIN <= find_item(old(self).data@.items, id)
                + direction <= i32::MAX,
        ensures
            Self::after_reorder_action(*old(self), *final(self), id, direction),
    {
        if self.data.reorder(id, direction) {
            if direction < 0 && self.selected_index > 0 {
                self.selected_index = self.selected_index - 1;
            } else if direction > 0 {
                let n = self.item_count();
                if n > 0 && self.selected_index < n - 1 {
                    self.selected_index = self.selected_index + 1;
                }
            }
            self.mark_dirty();
        }
        self.clamp_selection();
    }

    /// Whether `b` is what `apply_search` leaves of `a`.
    pub open spec fn after_apply_search(a: App, b: App) -> bool {
        &&& b.note_hint == a.note_hint
        &&& b.today == a.today
        &&& b.filter@ == a.input@.text
        &&& b.input@.text.len() == 0
        &&& ({
                let mid = App { filter: b.filter, input: b.input, ..a };
                match mid.selected_id() {
                    Some(id) => {
                        &&& b.mode matches Mode::BulkActionPicker { ids, category_names, selected } && ids@
                            == seq![id] && category_names@.len() == 0 && selected == 0
                        &&& b.saved_search matches Some(s) && s@ == a.input@.text
                    },
                    None => b.mode is Normal && b.saved_search == a.saved_search,
                }
            })
        &&& b.data == a.data
    }

    /// Takes the search line as the filter: with a highlighted item, opens
    /// the bulk-action picker on it (putting the search aside to come back
    /// to); else goes back to browsing.
    pub fn apply_search(&mut self)
        requires
            old(self).today.valid(),
        ensures
            Self::after_apply_search(*old(self), *final(self)),
    {
        let text = self.input.text().to_string();
        self.filter = text;
        self.input.clear();
        match self.selected_item_id() {
            Some(id) => {
                self.saved_search = Some(self.filter.clone());
                let ids = vec![id];
                assert(ids@ =~= seq![id]);
                self.mode = Mode::BulkActionPicker { ids, category_names: Vec::new(), selected: 0 };
            },
            None => {
                self.mode = Mode::Normal;
            },
        }
        self.clamp_selection();
    }

    /// Whether `b` is what `clear_search` leaves of `a`.
    pub open spec fn after_clear_search(a: App, b: App) -> bool {
        &&& b.filter@.len() == 0
        &&& b.input@.text.len() == 0
        &&& b.selected_index == clamp_to(a.selected_index as int, b.shown().len() as int)
        &&& b == (App {
                filter: b.filter,
                input: b.input,
                mode: Mode::Normal,
                selected_index: b.selected_index,
                ..a
            })
    }

    /// Drops the search and goes back to browsing.
    pub fn clear_search(&mut self)
        requires
            old(self).today.valid(),
        ensures
            Self::after_clear_search(*old(self), *final(self)),
    {
        self.filter = String::new();
        self.input.clear();
        self.mode = Mode::Normal;
        self.clamp_selection();
    }

    /// Whether `b` is what `start_command` leaves of `a`.
    pub open spec fn after_start_command(a: App, b: App) -> bool {
        &&& b.input@.text.len() == 0
        &&& b.completions@.len() == 0
        &&& b.filter@.len() == 0
        &&& b.popup_back_stack@.len() == 0
        &&& b == (App {
                input: b.input,
                completions: b.completions,
                completion_index: 0,
                filter: b.filter,
                popup_back_stack: b.popup_back_stack,
                mode: Mode::Command { selected: 0 },
                ..a
            })
    }

    /// Opens the palette afresh: empty line, no completion, no search, no
    /// popup to go back to, the first command highlighted.
    pub fn start_command(&mut self)
        ensures
            Self::after_start_command(*old(self), *final(self)),
    {
        self.input.clear();
        self.completions.clear();
        self.completion_index = 0;
        self.filter = String::new();
        self.popup_back_stack.clear();
        self.mode = Mode::Command { selected: 0 };
    }

    /// Whether `b` is what `tab_complete` leaves of `a`.
    pub open spec fn after_tab_complete(a: App, b: App) -> bool {
        ({
            let comps = if a.completions@.len() == 0 {
                filtered_commands(a.input@.text).map_values(|e: (&'static str, &'static str)| completion(e.0@))
            } else {
                texts(a.completions@)
            };
            let start = if a.completions@.len() == 0 {
                0
            } else {
                a.completion_index as int
            };
            &&& texts(b.completions@) == comps
            &&& if comps.len() == 0 {
                b.completion_index == start && b.input == a.input
            } else {
                let idx = start % comps.len() as int;
                &&& b.input@.text == comps[idx]
                &&& b.completion_index == (idx + 1) % comps.len() as int
            }
            &&& b == (App {
                completions: b.completions,
                completion_index: b.completion_index,
                input: b.input,
                ..a
            })
        })
    }

    /// Completes the palette line: the first Tab lists the completions of
    /// the line, each Tab puts the next one on the line, wrapping around.
    pub fn tab_complete(&mut self)
        ensures
            Self::after_tab_complete(*old(self), *final(self)),
    {
        if self.completions.len() == 0 {
            let text = self.input.text().to_string();
            self.completions = get_completions(text.as_str());
            self.completion_index = 0;
        }
        proof {
            let comps = if old(self).completions@.len() == 0 {
                filtered_commands(old(self).input@.text).map_values(|e: (&'static str, &'static str)| completion(e.0@))
            } else {
                texts(old(self).completions@)
            };
            assert(texts(self.completions@) =~= comps);
        }
        let n = self.completions.len();
        if n > 0 {
            let idx = self.completion_index % n;
            let c = self.completions[idx].clone();
            proof {
                assert(texts(self.completions@)[idx as int] == self.completions@[idx as int]@);
            }
            self.input.set_text(c.as_str());
            self.completion_index = (idx + 1) % n;
        }
    }

    /// Types pasted text at the cursor.
    pub fn paste_text(&mut self, text: &str)
        ensures
            final(self).input@.text == old(self).input@.text.take(old(self).input@.cursor as int) + text@
                + old(self).input@.text.skip(old(self).input@.cursor as int),
            final(self).input@.cursor == old(self).input@.cursor + text@.len(),
            *final(self) == (App { input: final(self).input, ..*old(self) }),
    {
        self.input.insert_str(text);
    }

    /// Whether `b` is what `enter_resize_sidebar` leaves of `a`.
    pub open spec fn after_enter_resize_sidebar(a: App, b: App) -> bool {
        b == (App {
            pane: Pane::Categories,
            mode: Mode::ResizeSidebar { return_pane: a.pane, original_width: a.sidebar_width },
            ..a
        })
    }

    /// Starts resizing the sidebar, focusing it and remembering the width
    /// and focus to go back to.
    pub fn enter_resize_sidebar(&mut self)
        ensures
            Self::after_enter_resize_sidebar(*old(self), *final(self)),
    {
        let return_pane = self.pane;
        let original_width = self.sidebar_width;
        self.pane = Pane::Categories;
        self.mode = Mode::ResizeSidebar { return_pane, original_width };
    }

    /// Whether `b` is what `resize_sidebar` leaves of `a`.
    pub open spec fn after_resize_sidebar(a: App, b: App, delta: i16) -> bool {
        ({
            let w = a.sidebar_width + delta;
            b == (App {
                sidebar_width: if w < SIDEBAR_WIDTH_MIN {
                    SIDEBAR_WIDTH_MIN
                } else if w > SIDEBAR_WIDTH_MAX {
                    SIDEBAR_WIDTH_MAX
                } else {
                    w as u16
                },
                ..a
            })
        })
    }

    /// Widens (or narrows, for negative `delta`) the sidebar, within its
    /// bounds.
    pub fn resize_sidebar(&mut self, delta: i16)
        ensures
            Self::after_resize_sidebar(*old(self), *final(self), delta),
    {
        let w: i32 = self.sidebar_width as i32 + delta as i32;
        self.sidebar_width = if w < SIDEBAR_WIDTH_MIN as i32 {
            SIDEBAR_WIDTH_MIN
        } else if w > SIDEBAR_WIDTH_MAX as i32 {
            SIDEBAR_WIDTH_MAX
        } else {
            w as u16
        };
    }

    /// Whether `b` is what `reset_sidebar_width` leaves of `a`.
    pub open spec fn after_reset_sidebar_width(a: App, b: App) -> bool {
        b == (App { sidebar_width: SIDEBAR_WIDTH_DEFAULT, ..a })
    }

    /// Puts the sidebar back to its default width.
    pub fn reset_sidebar_width(&mut self)
        ensures
            Self::after_reset_sidebar_width(*old(self), *final(self)),
    {
        self.sidebar_width = SIDEBAR_WIDTH_DEFAULT;
    }

    /// Whether `b` is what `confirm_resize_sidebar` leaves of `a`.
    pub open spec fn after_confirm_resize_sidebar(a: App, b: App, r: Effect) -> bool {
        match a.mode {
            Mode::ResizeSidebar { return_pane, original_width } => {
                &&& b == (App { pane: return_pane, mode: Mode::Normal, ..a })
                &&& r == (if original_width != a.sidebar_width {
                    Effect::SaveSidebarWidth(a.sidebar_width)
                } else {
                    Effect::Continue
                })
            },
            _ => b == (App { mode: Mode::Normal, ..a }) && r is Continue,
        }
    }

    /// Ends resizing, keeping the width, and asks to record it when it
    /// changed.
    pub fn confirm_resize_sidebar(&mut self) -> (r: Effect)
        ensures
            Self::after_confirm_resize_sidebar(*old(self), *final(self), r),
    {
        let (return_pane, original_width) = match &self.mode {
            Mode::ResizeSidebar { return_pane, original_width } => (*return_pane, *original_width),
            _ => {
                self.mode = Mode::Normal;
                return Effect::Continue;
            },
        };
        self.pane = return_pane;
        self.mode = Mode::Normal;
        if original_width != self.sidebar_width {
            Effect::SaveSidebarWidth(self.sidebar_width)
        } else {
            Effect::Continue
        }
    }

    /// Whether `b` is what `cancel_resize_sidebar` leaves of `a`.
    pub open spec fn after_cancel_resize_sidebar(a: App, b: App) -> bool {
        match a.mode {
            Mode::ResizeSidebar { return_pane, original_width } => b == (App {
                pane: return_pane,
                sidebar_width: original_width,
                mode: Mode::Normal,
                ..a
            }),
            _ => b == (App { mode: Mode::Normal, ..a }),
        }
    }

    /// Ends resizing, putting back the width and focus it started from.
    pub fn cancel_resize_sidebar(&mut self)
        ensures
            Self::after_cancel_resize_sidebar(*old(self), *final(self)),
    {
        match &self.mode {
            Mode::ResizeSidebar { return_pane, original_width } => {
                self.pane = *return_pane;
                self.sidebar_width = *original_width;
            },
            _ => {},
        }
        self.mode = Mode::Normal;
    }
}

} // verus!
