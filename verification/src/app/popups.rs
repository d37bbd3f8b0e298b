//! Popups: where closing one returns to, where going back from a nested
//! one returns to, and moving the highlighted row of a popup list.

use vstd::prelude::*;

use crate::commands::{contains_whitespace, filtered_commands, get_filtered_commands, has_ws};
use crate::data::{find_item, TodoDataView};
use crate::defs::{mode_selected, mode_with_selected, CategoryPickerTarget, Mode, PopupBackTarget};
use crate::menus::{archive_labels, archive_picker_labels, bulk_action_labels, bulk_labels, sort_at, sort_by_index, theme_names, theme_table};
use crate::text::{chars_eq, chars_of};
use crate::theme::{is_theme_name, preset, Theme};
use super::categories::{clamp_to, root_list};
use super::App;

verus! {

/// Whether `b` is `a` after leaving a secondary mode: back to the search
/// prompt when one was put aside, else to browsing with an empty line; the
/// highlight kept within the list.
pub open spec fn returned(a: App, b: App) -> bool {
    &&& b.saved_search is None
    &&& match a.saved_search {
        Some(s) => b.input@.text == s@ && b.filter@ == s@ && b.mode is Searching,
        None => b.input@.text.len() == 0 && b.filter == a.filter && b.mode is Normal,
    }
    &&& b.selected_index == clamp_to(a.selected_index as int, b.shown().len() as int)
    &&& b == (App {
        saved_search: None,
        input: b.input,
        filter: b.filter,
        mode: b.mode,
        selected_index: b.selected_index,
        ..a
    })
}

/// `n - 1`, or 0 for 0.
pub open spec fn less_one(n: int) -> int {
    if n > 0 {
        n - 1
    } else {
        0
    }
}

/// Index of the newest note of the item `id`; 0 when it has none.
pub open spec fn last_note(v: TodoDataView, id: u64) -> int {
    let i = find_item(v.items, id);
    if i < 0 || v.items[i].notes@.len() == 0 {
        0
    } else {
        v.items[i].notes@.len() - 1
    }
}

/// The last row that the highlight of the current popup can reach, for the
/// modes that show a list.
pub open spec fn selection_max(a: App) -> Option<int> {
    match a.mode {
        Mode::Command { .. } => Some(less_one(filtered_commands(a.input@.text).len() as int)),
        Mode::ThemePicker { .. } => Some(theme_table().len() - 1),
        Mode::PriorityPicker { .. } => Some(4),
        Mode::SortPicker { .. } => Some(2),
        Mode::ArchivePicker { .. } => Some(archive_labels().len() - 1),
        Mode::FilterPicker { .. } => Some(4),
        Mode::DueDateFilterPicker { .. } => Some(3),
        Mode::CategoryPicker { target, .. } => Some(
            match target {
                CategoryPickerTarget::MoveCategory(_) => root_list(a.cats()).len() as int,
                _ => a.cats().len() as int,
            },
        ),
        Mode::BulkActionPicker { ids, category_names, .. } => Some(
            bulk_labels(ids@.len() == 1 && category_names@.len() == 0).len() - 1,
        ),
        Mode::Notes { item_id, .. } => Some(last_note(a.data@, item_id)),
        Mode::CategoryFilterPicker { .. } => Some(a.rows().len() as int),
        Mode::CategoryCreateChoice { .. } => Some(1),
        Mode::CategoryParentPicker { .. } => Some(less_one(root_list(a.cats()).len() as int)),
        _ => None,
    }
}

/// Whether `b` is `a` after showing what the highlighted row of a theme or
/// sort picker would give: the preset theme at that row, or the sort
/// order at that row; other modes change nothing.
pub open spec fn previewed(a: App, b: App) -> bool {
    match a.mode {
        Mode::ThemePicker { selected, .. } => {
            &&& (selected < theme_table().len() ==> b.theme.name@ == theme_table()[selected as int].0@
                && Some(b.theme) == preset(theme_table()[selected as int].0@))
            &&& (selected >= theme_table().len() ==> b.theme == a.theme)
            &&& b == (App { theme: b.theme, ..a })
        },
        Mode::SortPicker { selected, .. } => b == (App {
            sort_mode: match sort_at(selected as int) {
                Some(m) => m,
                None => a.sort_mode,
            },
            ..a
        }),
        _ => b == a,
    }
}

impl App {
    /// Whether `b` is what `return_after_secondary_mode` leaves of `a`.
    pub open spec fn after_return_after_secondary_mode(a: App, b: App) -> bool {
        returned(a, b)
    }

    /// Leaves a secondary mode, as `returned` says.
    pub fn return_after_secondary_mode(&mut self)
        requires
            old(self).today.valid(),
        ensures
            Self::after_return_after_secondary_mode(*old(self), *final(self)),
    {
        match self.saved_search.take() {
            Some(search) => {
                self.input.set_text(search.as_str());
                self.filter = search;
                self.mode = Mode::Searching;
            },
            None => {
                self.input.clear();
                self.mode = Mode::Normal;
            },
        }
        self.clamp_selection();
    }

    /// Position of `command` in the full palette.
    pub fn root_command_index(command: &str) -> (r: Option<usize>)
        ensures
            match r {
                Some(i) => i < filtered_commands(Seq::empty()).len() && filtered_commands(Seq::empty())[i as int].0@
                    == command@ && forall|j: int| 0 <= j < i ==> filtered_commands(Seq::empty())[j].0@ != command@,
                None => forall|j: int|
                    0 <= j < filtered_commands(Seq::empty()).len() ==> filtered_commands(Seq::empty())[j].0@
                        != command@,
            },
    {
        let all = get_filtered_commands("");
        proof {
            reveal_strlit("");
            assert(""@ =~= Seq::<char>::empty());
        }
        let cc = chars_of(command);
        let mut i: usize = 0;
        while i < all.len()
            invariant
                0 <= i <= all.len(),
                all@ == filtered_commands(Seq::empty()),
                cc@ == command@,
                forall|j: int| 0 <= j < i ==> filtered_commands(Seq::empty())[j].0@ != command@,
            decreases all.len() - i,
        {
            let nc = chars_of(all[i].0);
            if chars_eq(nc.as_slice(), cc.as_slice()) {
                return Some(i);
            }
            i = i + 1;
        }
        None
    }

    /// Where going back from a popup opened by `command` should return to:
    /// the palette as it stands when a sub-command was being typed, else the
    /// full palette with `command` highlighted. Nothing outside the palette.
    pub fn command_popup_back_target(&self, command: &str) -> (r: Option<PopupBackTarget>)
        ensures
            match self.mode {
                Mode::Command { selected } => match r {
                    Some(PopupBackTarget::Command { input, selected: s }) => if has_ws(self.input@.text) {
                        input@ == self.input@.text && s == selected
                    } else {
                        input@.len() == 0 && (forall|j: int|
                            0 <= j < filtered_commands(Seq::empty()).len()
                                ==> filtered_commands(Seq::empty())[j].0@ != command@) ==> s == selected
                    },
                    _ => false,
                },
                _ => r is None,
            },
    {
        let selected = match &self.mode {
            Mode::Command { selected } => *selected,
            _ => return None,
        };
        let input = self.input.text();
        if contains_whitespace(input) {
            Some(PopupBackTarget::Command { input: input.to_string(), selected })
        } else {
            let s = match Self::root_command_index(command) {
                Some(i) => i,
                None => selected,
            };
            Some(PopupBackTarget::Command { input: String::new(), selected: s })
        }
    }

    /// Records where going back from a popup opened by `command` returns
    /// to, when it was opened from the palette.
    pub fn push_command_popup_back_target(&mut self, command: &str)
        ensures
            final(self).note_hint == old(self).note_hint,
            match old(self).mode {
                Mode::Command { .. } => final(self).popup_back_stack@.len() == old(self).popup_back_stack@.len() + 1
                    && final(self).popup_back_stack@.drop_last() == old(self).popup_back_stack@,
                _ => final(self).popup_back_stack == old(self).popup_back_stack,
            },
            *final(self) == (App { popup_back_stack: final(self).popup_back_stack, ..*old(self) }),
    {
        match self.command_popup_back_target(command) {
            Some(target) => {
                let ghost prev = self.popup_back_stack@;
                self.popup_back_stack.push(target);
                assert(self.popup_back_stack@.drop_last() =~= prev);
            },
            None => {},
        }
    }

    /// Takes the latest place to go back to and gives the mode to show
    /// there: the palette with its line and highlight as they were (the
    /// highlight kept within the list), or the filter picker.
    pub fn pop_popup_back_target_mode(&mut self) -> (r: Option<Mode>)
        ensures
            old(self).popup_back_stack@.len() == 0 ==> r is None && *final(self) == *old(self),
            old(self).popup_back_stack@.len() > 0 ==> {
                &&& final(self).popup_back_stack@ == old(self).popup_back_stack@.drop_last()
                &&& match old(self).popup_back_stack@.last() {
                    PopupBackTarget::Command { input, selected } => {
                        &&& r == Some(Mode::Command {
                            selected: if selected <= less_one(filtered_commands(input@).len() as int) {
                                selected
                            } else {
                                less_one(filtered_commands(input@).len() as int) as usize
                            },
                        })
                        &&& final(self).input@.text == input@
                        &&& final(self).completions@.len() == 0
                        &&& final(self).completion_index == 0
                        &&& *final(self) == (App {
                            popup_back_stack: final(self).popup_back_stack,
                            input: final(self).input,
                            completions: final(self).completions,
                            completion_index: 0,
                            ..*old(self)
                        })
                    },
                    PopupBackTarget::FilterPicker { selected } => {
                        &&& r == Some(Mode::FilterPicker { selected })
                        &&& *final(self) == (App { popup_back_stack: final(self).popup_back_stack, ..*old(self) })
                    },
                }
            },
    {
        if self.popup_back_stack.len() == 0 {
            return None;
        }
        let target = match self.popup_back_stack.pop() {
            Some(t) => t,
            None => return None,
        };
        match target {
            PopupBackTarget::Command { input, selected } => {
                self.input.set_text(input.as_str());
                self.completions.clear();
                self.completion_index = 0;
                let n = get_filtered_commands(input.as_str()).len();
                let max = if n > 0 {
                    n - 1
                } else {
                    0
                };
                Some(Mode::Command { selected: if selected <= max {
                    selected
                } else {
                    max
                } })
            },
            PopupBackTarget::FilterPicker { selected } => Some(Mode::FilterPicker { selected }),
        }
    }

    /// The last row that the highlight of the current popup can reach.
    pub fn mode_selection_max(&self) -> (r: Option<usize>)
        ensures
            match r {
                Some(v) => selection_max(*self) == Some(v as int),
                None => selection_max(*self) is None,
            },
    {
        match &self.mode {
            Mode::Command { .. } => {
                let n = get_filtered_commands(self.input.text()).len();
                Some(if n > 0 {
                    n - 1
                } else {
                    0
                })
            },
            Mode::ThemePicker { .. } => {
                let n = theme_names().len();
                Some(n - 1)
            },
            Mode::PriorityPicker { .. } => Some(4),
            Mode::SortPicker { .. } => Some(2),
            Mode::ArchivePicker { .. } => {
                let n = archive_picker_labels().len();
                Some(n - 1)
            },
            Mode::FilterPicker { .. } => Some(4),
            Mode::DueDateFilterPicker { .. } => Some(3),
            Mode::CategoryPicker { target, .. } => Some(
                match target {
                    CategoryPickerTarget::MoveCategory(_) => self.root_categories().len(),
                    _ => self.categories().len(),
                },
            ),
            Mode::BulkActionPicker { ids, category_names, .. } => {
                let single = ids.len() == 1 && category_names.len() == 0;
                let n = bulk_action_labels(single).len();
                Some(n - 1)
            },
            Mode::Notes { item_id, .. } => Some(self.data.last_note_index(*item_id)),
            Mode::CategoryFilterPicker { .. } => Some(self.category_entries().len()),
            Mode::CategoryCreateChoice { .. } => Some(1),
            Mode::CategoryParentPicker { .. } => {
                let n = self.root_categories().len();
                Some(if n > 0 {
                    n - 1
                } else {
                    0
                })
            },
            _ => None,
        }
    }

    /// Shows what the highlighted row of a theme or sort picker would give,
    /// as `previewed` says.
    pub fn preview_selected_mode(&mut self)
        ensures
            previewed(*old(self), *final(self)),
    {
        match &self.mode {
            Mode::ThemePicker { selected, .. } => {
                let names = theme_names();
                if *selected < names.len() {
                    proof {
                        assert(is_theme_name(names@[*selected as int]@));
                    }
                    match Theme::by_name(names[*selected]) {
                        Some(t) => {
                            self.theme = t;
                        },
                        None => {},
                    }
                }
            },
            Mode::SortPicker { selected, .. } => {
                match sort_by_index(*selected) {
                    Some(m) => {
                        self.sort_mode = m;
                    },
                    None => {},
                }
            },
            _ => {},
        }
    }

    /// Moves the highlight of the current popup one row up (`direction <
    /// 0`) or down, staying within its list, and previews the new row;
    /// returns whether a popup list took the move.
    pub fn move_mode_selection(&mut self, direction: i32) -> (r: bool)
        ensures
            r == (selection_max(*old(self)) is Some && mode_selected(old(self).mode) is Some),
            !r ==> *final(self) == *old(self),
            r ==> {
                let sel = mode_selected(old(self).mode)->0 as int;
                let max = selection_max(*old(self))->0;
                let next = if direction < 0 {
                    less_one(sel)
                } else if sel + 1 <= max {
                    sel + 1
                } else {
                    max
                };
                if next == sel {
                    *final(self) == *old(self)
                } else {
                    previewed(
                        App { mode: mode_with_selected(old(self).mode, next as usize), ..*old(self) },
                        *final(self),
                    )
                }
            },
    {
        let max = match self.mode_selection_max() {
            Some(m) => m,
            None => return false,
        };
        let selected = match self.mode.selected() {
            Some(s) => s,
            None => return false,
        };
        let next = if direction < 0 {
            if selected > 0 {
                selected - 1
            } else {
                0
            }
        } else if selected < max {
            selected + 1
        } else {
            max
        };
        if next != selected {
            self.mode.set_selected(next);
            self.preview_selected_mode();
        }
        true
    }
}

} // verus!
