//! The pickers: theme, priority filter, filter menu, archive menu, due
//! filter and sort order, and going back from a popup.

use vstd::prelude::*;

use crate::commands::filtered_commands;
use crate::data::Priority;
use crate::defs::{DueFilter, Effect, Mode, MultiSelectCmd, Pane, PopupBackTarget, SortMode};
use crate::menus::{archive_labels, archive_picker_labels, sort_at, sort_by_index, theme_names, theme_table};
use crate::text::str_eq;
use crate::theme::{is_theme_name, preset, Theme};
use super::bulk::{archived_by, kind_done, kind_highlighted, kind_visible};
use super::categories::{clamp_to, parent_row};
use super::popups::less_one;
use super::App;

verus! {

/// The priority filter at a row of the priority picker: none, then urgent
/// down to low.
pub open spec fn priority_at(idx: int) -> Option<Priority> {
    if idx == 1 {
        Some(Priority::Urgent)
    } else if idx == 2 {
        Some(Priority::High)
    } else if idx == 3 {
        Some(Priority::Normal)
    } else if idx == 4 {
        Some(Priority::Low)
    } else {
        None
    }
}

/// The due filter at a row of the due picker: overdue, this week, today,
/// none.
pub open spec fn due_at(idx: int) -> Option<DueFilter> {
    if idx == 0 {
        Some(DueFilter::Overdue)
    } else if idx == 1 {
        Some(DueFilter::Week)
    } else if idx == 2 {
        Some(DueFilter::Today)
    } else {
        None
    }
}

/// Whether `b` is `a` with every filter off: no search, due, priority or
/// category filter, the sidebar on "all", the active view, the default
/// order; the highlight kept within the list.
pub open spec fn filters_cleared(a: App, b: App) -> bool {
    &&& b.filter@.len() == 0
    &&& b.selected_index == clamp_to(a.selected_index as int, b.shown().len() as int)
    &&& b == (App {
        filter: b.filter,
        due_filter: None,
        priority_filter: None,
        category_filter: None,
        category_index: 0,
        show_archived: false,
        sort_mode: SortMode::Default,
        selected_index: b.selected_index,
        ..a
    })
}

/// The mode that going back to the latest recorded place shows, as
/// `pop_popup_back_target_mode` gives it.
pub open spec fn back_mode(t: PopupBackTarget) -> Mode {
    match t {
        PopupBackTarget::Command { input, selected } => Mode::Command {
            selected: if selected <= less_one(filtered_commands(input@).len() as int) {
                selected
            } else {
                less_one(filtered_commands(input@).len() as int) as usize
            },
        },
        PopupBackTarget::FilterPicker { selected } => Mode::FilterPicker { selected },
    }
}

/// Whether `b` is `a` after an archive menu row that archives or restores:
/// the step as `archived_by` says, then back to browsing with the
/// highlight kept within the list.
pub open spec fn menu_archived(a: App, b: App, kind: int, archived: bool) -> bool {
    &&& archived_by(a, App { mode: a.mode, ..b }, kind, archived)
    &&& b.mode is Normal
    &&& b.selected_index == clamp_to(a.selected_index as int, b.shown().len() as int)
}

impl App {
    /// Turns every filter off, as `filters_cleared` says.
    pub fn clear_filters(&mut self)
        requires
            old(self).today.valid(),
        ensures
            final(self).note_hint == old(self).note_hint,
            filters_cleared(*old(self), *final(self)),
    {
        self.filter = String::new();
        self.due_filter = None;
        self.priority_filter = None;
        self.category_filter = None;
        self.category_index = 0;
        self.show_archived = false;
        self.sort_mode = SortMode::Default;
        self.clamp_selection();
    }

    /// Whether `b` is what `theme_select` leaves of `a`.
    pub open spec fn after_theme_select(a: App, b: App, idx: usize, r: Effect) -> bool {
        &&& idx < theme_table().len() ==> {
                &&& b.theme.name@ == theme_table()[idx as int].0@
                &&& Some(b.theme) == preset(theme_table()[idx as int].0@)
                &&& r == Effect::SaveThemeName(theme_table()[idx as int].0)
                &&& b == (App { theme: b.theme, mode: Mode::Normal, ..a })
            }
        &&& idx >= theme_table().len() ==> r is Continue && b == (App { mode: Mode::Normal, ..a })
    }

    /// Chooses the theme at row `idx` of the theme picker and asks to record
    /// its name; closes the picker.
    pub fn theme_select(&mut self, idx: usize) -> (r: Effect)
        ensures
            Self::after_theme_select(*old(self), *final(self), idx, r),
    {
        let names = theme_names();
        let mut effect = Effect::Continue;
        if idx < names.len() {
            let name = names[idx];
            proof {
                assert(is_theme_name(names@[idx as int]@));
            }
            match Theme::by_name(name) {
                Some(t) => {
                    self.theme = t;
                    effect = Effect::SaveThemeName(name);
                },
                None => {},
            }
        }
        self.mode = Mode::Normal;
        effect
    }

    /// Whether `b` is what `cancel_theme_picker` leaves of `a`.
    pub open spec fn after_cancel_theme_picker(a: App, b: App) -> bool {
        match a.mode {
            Mode::ThemePicker { original_theme, .. } => b == (App {
                theme: original_theme,
                mode: Mode::Normal,
                ..a
            }),
            _ => b == (App { mode: Mode::Normal, ..a }),
        }
    }

    /// Closes the theme picker, putting back the theme it was opened with.
    pub fn cancel_theme_picker(&mut self)
        ensures
            Self::after_cancel_theme_picker(*old(self), *final(self)),
    {
        let mut mode = Mode::Normal;
        std::mem::swap(&mut self.mode, &mut mode);
        match mode {
            Mode::ThemePicker { original_theme, .. } => {
                self.theme = original_theme;
            },
            _ => {},
        }
    }

    /// Whether `b` is what `priority_select` leaves of `a`.
    pub open spec fn after_priority_select(a: App, b: App, idx: usize) -> bool {
        &&& b.selected_index == clamp_to(a.selected_index as int, b.shown().len() as int)
        &&& b == (App {
                priority_filter: priority_at(idx as int),
                mode: Mode::Normal,
                selected_index: b.selected_index,
                ..a
            })
    }

    /// Filters by the priority at row `idx` of the priority picker (row 0
    /// shows every priority); closes the picker.
    pub fn priority_select(&mut self, idx: usize)
        requires
            old(self).today.valid(),
            idx < 5,
        ensures
            Self::after_priority_select(*old(self), *final(self), idx),
    {
        self.priority_filter = match idx {
            1 => Some(Priority::Urgent),
            2 => Some(Priority::High),
            3 => Some(Priority::Normal),
            4 => Some(Priority::Low),
            _ => None,
        };
        self.mode = Mode::Normal;
        self.clamp_selection();
    }

    /// Whether `b` is what `due_date_filter_select` leaves of `a`.
    pub open spec fn after_due_date_filter_select(a: App, b: App, idx: usize) -> bool {
        &&& b.selected_index == clamp_to(a.selected_index as int, b.shown().len() as int)
        &&& b == (App {
                due_filter: due_at(idx as int),
                mode: Mode::Normal,
                selected_index: b.selected_index,
                ..a
            })
    }

    /// Filters by the due window at row `idx` of the due picker; closes the
    /// picker.
    pub fn due_date_filter_select(&mut self, idx: usize)
        requires
            old(self).today.valid(),
            idx < 4,
        ensures
            Self::after_due_date_filter_select(*old(self), *final(self), idx),
    {
        self.due_filter = match idx {
            0 => Some(DueFilter::Overdue),
            1 => Some(DueFilter::Week),
            2 => Some(DueFilter::Today),
            _ => None,
        };
        self.mode = Mode::Normal;
        self.clamp_selection();
    }

    /// Whether `b` is what `filter_select` leaves of `a`.
    pub open spec fn after_filter_select(a: App, b: App, idx: usize) -> bool {
        &&& idx == 0 ==> {
                &&& b.selected_index == clamp_to(a.selected_index as int, b.shown().len() as int)
                &&& b == (App {
                    show_archived: !a.show_archived,
                    mode: Mode::Normal,
                    selected_index: b.selected_index,
                    ..a
                })
            }
        &&& 1 <= idx <= 3 ==> {
                &&& b.popup_back_stack@.len() == a.popup_back_stack@.len() + 1
                &&& b.popup_back_stack@.drop_last() == a.popup_back_stack@
                &&& b.popup_back_stack@.last() == (PopupBackTarget::FilterPicker { selected: idx })
                &&& b.mode == (if idx == 1 {
                    Mode::CategoryFilterPicker { selected: 0 }
                } else if idx == 2 {
                    Mode::DueDateFilterPicker { selected: 0 }
                } else {
                    Mode::PriorityPicker { selected: 0 }
                })
                &&& b == (App { popup_back_stack: b.popup_back_stack, mode: b.mode, ..a })
            }
        &&& idx == 4 ==> filters_cleared(App { mode: Mode::Normal, ..a }, b)
        &&& idx > 4 ==> b == (App { mode: Mode::Normal, ..a })
    }

    /// Carries out row `idx` of the filter menu: switch between the active
    /// and archived view, open the category, due or priority picker (going
    /// back returns here), or clear every filter.
    pub fn filter_select(&mut self, idx: usize)
        requires
            old(self).today.valid(),
        ensures
            Self::after_filter_select(*old(self), *final(self), idx),
    {
        self.mode = Mode::Normal;
        if idx == 0 {
            self.show_archived = !self.show_archived;
            self.clamp_selection();
        } else if idx <= 3 {
            let ghost before = self.popup_back_stack@;
            self.popup_back_stack.push(PopupBackTarget::FilterPicker { selected: idx });
            assert(self.popup_back_stack@.drop_last() =~= before);
            self.mode = if idx == 1 {
                Mode::CategoryFilterPicker { selected: 0 }
            } else if idx == 2 {
                Mode::DueDateFilterPicker { selected: 0 }
            } else {
                Mode::PriorityPicker { selected: 0 }
            };
        } else if idx == 4 {
            self.clear_filters();
        }
    }

    /// Whether `b` is what `archive_select` leaves of `a`: rows that
    /// archive or restore do so as `archived_by` says (the highlighted
    /// entry, the done items or everything visible, recorded to undo) and
    /// go back to browsing; the bulk rows open a multi-selection (restoring
    /// shows the archived view); the last row switches the view.
    pub open spec fn after_archive_select(a: App, b: App, idx: usize) -> bool {
        if idx >= archive_labels().len() {
            b == a
        } else {
            let l = archive_labels()[idx as int]@;
            if l == "Archive one"@ {
                menu_archived(a, b, kind_highlighted(), true)
            } else if l == "Archive done"@ {
                menu_archived(a, b, kind_done(), true)
            } else if l == "Archive all"@ {
                menu_archived(a, b, kind_visible(), true)
            } else if l == "Restore one"@ {
                menu_archived(a, b, kind_highlighted(), false)
            } else if l == "Restore all"@ {
                menu_archived(a, b, kind_visible(), false)
            } else if l == "Archive bulk"@ {
                &&& b.mode matches Mode::MultiSelect { cmd, selected, selected_categories } && cmd
                    == MultiSelectCmd::Archive && selected@.len() == 0 && selected_categories@.len() == 0
                &&& b == (App { mode: b.mode, ..a })
            } else if l == "Restore bulk"@ {
                &&& b.mode matches Mode::MultiSelect { cmd, selected, selected_categories } && cmd
                    == MultiSelectCmd::RestoreArchive && selected@.len() == 0 && selected_categories@.len() == 0
                &&& b == (App { mode: b.mode, show_archived: true, ..a })
            } else {
                &&& b.selected_index == clamp_to(a.selected_index as int, b.shown().len() as int)
                &&& b == (App {
                    show_archived: !a.show_archived,
                    mode: Mode::Normal,
                    selected_index: b.selected_index,
                    ..a
                })
            }
        }
    }

    /// Carries out row `idx` of the archive menu. Archiving or restoring
    /// one, the done items or all goes through the helpers that record the
    /// step to undo; the bulk rows open a multi-selection; the last row
    /// switches between the active and archived view. A row past the menu
    /// changes nothing.
    pub fn archive_select(&mut self, idx: usize)
        requires
            old(self).today.valid(),
        ensures
            Self::after_archive_select(*old(self), *final(self), idx),
    {
        let labels = archive_picker_labels();
        if idx >= labels.len() {
            return;
        }
        proof {
            reveal_strlit("Archive one");
            reveal_strlit("Archive bulk");
            reveal_strlit("Archive done");
            reveal_strlit("Archive all");
            reveal_strlit("Restore one");
            reveal_strlit("Restore bulk");
            reveal_strlit("Restore all");
            reveal_strlit("Archived view");
            assert("Archive one"@[8] != "Archive bulk"@[8]);
            assert("Archive done"@[8] != "Archive bulk"@[8]);
            assert("Archive all"@.len() != "Archive bulk"@.len());
            assert("Restore one"@[0] != "Archive bulk"@[0]);
            assert("Restore bulk"@[0] != "Archive bulk"@[0]);
            assert("Restore all"@[0] != "Archive bulk"@[0]);
            assert("Archived view"@.len() != "Archive bulk"@.len());
            assert("Restore one"@[8] != "Restore bulk"@[8]);
            assert("Restore all"@.len() != "Restore bulk"@.len());
            assert("Archive one"@[0] != "Restore bulk"@[0]);
            assert("Archive done"@[0] != "Restore bulk"@[0]);
            assert("Archive all"@[0] != "Restore bulk"@[0]);
            assert("Archived view"@[0] != "Restore bulk"@[0]);
        }
        let label = labels[idx];
        if str_eq(label, "Archive one") {
            if self.pane == Pane::Categories {
                self.set_current_category_archived(true);
            } else {
                self.archive_single_visible_item(true);
            }
        } else if str_eq(label, "Archive bulk") {
            self.mode = Mode::MultiSelect { cmd: MultiSelectCmd::Archive, selected: Vec::new(), selected_categories: Vec::new() };
            return;
        } else if str_eq(label, "Archive done") {
            self.archive_done_items();
        } else if str_eq(label, "Archive all") {
            self.set_visible_archived(true);
        } else if str_eq(label, "Archived view") {
            self.show_archived = !self.show_archived;
        } else if str_eq(label, "Restore one") {
            if self.pane == Pane::Categories {
                self.set_current_category_archived(false);
            } else {
                self.archive_single_visible_item(false);
            }
        } else if str_eq(label, "Restore bulk") {
            self.show_archived = true;
            self.mode = Mode::MultiSelect { cmd: MultiSelectCmd::RestoreArchive, selected: Vec::new(), selected_categories: Vec::new() };
            return;
        } else if str_eq(label, "Restore all") {
            self.set_visible_archived(false);
        }
        self.mode = Mode::Normal;
        self.clamp_selection();
    }

    /// Whether `b` is what `sort_select` leaves of `a`.
    pub open spec fn after_sort_select(a: App, b: App, idx: usize) -> bool {
        match sort_at(idx as int) {
            Some(m) => {
                &&& b.selected_index == clamp_to(a.selected_index as int, b.shown().len() as int)
                &&& b == (App {
                    sort_mode: m,
                    mode: Mode::Normal,
                    selected_index: b.selected_index,
                    ..a
                })
            },
            None => b == (App { mode: Mode::Normal, ..a }),
        }
    }

    /// Chooses the sort order at row `idx` of the sort picker (a row past
    /// it keeps the order); closes the picker.
    pub fn sort_select(&mut self, idx: usize)
        requires
            old(self).today.valid(),
        ensures
            Self::after_sort_select(*old(self), *final(self), idx),
    {
        match sort_by_index(idx) {
            Some(m) => {
                self.sort_mode = m;
                self.clamp_selection();
            },
            None => {},
        }
        self.mode = Mode::Normal;
    }

    /// Whether `b` is what `cancel_sort_picker` leaves of `a`.
    pub open spec fn after_cancel_sort_picker(a: App, b: App) -> bool {
        match a.mode {
            Mode::SortPicker { original_sort, .. } => {
                &&& b.selected_index == clamp_to(a.selected_index as int, b.shown().len() as int)
                &&& b == (App {
                    sort_mode: original_sort,
                    mode: Mode::Normal,
                    selected_index: b.selected_index,
                    ..a
                })
            },
            _ => b == (App { mode: Mode::Normal, ..a }),
        }
    }

    /// Closes the sort picker, putting back the order it was opened with.
    pub fn cancel_sort_picker(&mut self)
        requires
            old(self).today.valid(),
        ensures
            Self::after_cancel_sort_picker(*old(self), *final(self)),
    {
        match &self.mode {
            Mode::SortPicker { original_sort, .. } => {
                self.sort_mode = *original_sort;
                self.clamp_selection();
            },
            _ => {},
        }
        self.mode = Mode::Normal;
    }

    /// The palette as it first opens: an empty line, no completion, the
    /// first command highlighted.
    fn fresh_palette(&mut self) -> (r: Mode)
        ensures
            r == (Mode::Command { selected: 0 }),
            final(self).input@.text.len() == 0,
            final(self).completions@.len() == 0,
            *final(self) == (App { input: final(self).input, completions: final(self).completions, completion_index: 0, ..*old(self) }),
    {
        self.input.clear();
        self.completions.clear();
        self.completion_index = 0;
        Mode::Command { selected: 0 }
    }

    /// Whether `b` is what `popup_back` leaves of `a`.
    pub open spec fn after_popup_back(a: App, b: App) -> bool {
        &&& b.note_hint == a.note_hint
        &&& b.today == a.today
        &&& ({
                let has_back = a.popup_back_stack@.len() > 0;
                let back = if has_back {
                    Some(back_mode(a.popup_back_stack@.last()))
                } else {
                    None
                };
                match a.mode {
                    Mode::CategoryFilterPicker { selected } => {
                        let p = parent_row(a.rows(), selected as int);
                        if p != selected {
                            b.mode == (Mode::CategoryFilterPicker { selected: p as usize })
                        } else {
                            b.mode == (match back {
                                Some(m) => m,
                                None => Mode::FilterPicker { selected: 2 },
                            })
                        }
                    },
                    Mode::DueDateFilterPicker { .. } => b.mode == (match back {
                        Some(m) => m,
                        None => Mode::FilterPicker { selected: 0 },
                    }),
                    Mode::PriorityPicker { .. } => b.mode == (match back {
                        Some(m) => m,
                        None => Mode::FilterPicker { selected: 1 },
                    }),
                    Mode::CategoryCreateChoice { parent, name, .. } => {
                        &&& b.mode == (Mode::CategoryAdd { parent })
                        &&& b.input@.text == name@
                    },
                    Mode::CategoryParentPicker { name, .. } => b.mode == (Mode::CategoryCreateChoice {
                        selected: 0,
                        parent: None,
                        name,
                    }),
                    Mode::ThemePicker { original_theme, .. } => {
                        &&& b.theme == original_theme
                        &&& b.mode == (match back {
                            Some(m) => m,
                            None => Mode::Command { selected: 0 },
                        })
                    },
                    Mode::SortPicker { original_sort, .. } => {
                        &&& b.sort_mode == original_sort
                        &&& b.mode == (match back {
                            Some(m) => m,
                            None => Mode::Command { selected: 0 },
                        })
                    },
                    Mode::CategoryPicker { .. } => b.mode == (match back {
                        Some(m) => m,
                        None => Mode::Command { selected: 0 },
                    }),
                    Mode::ArchivePicker { .. } => b.mode == (match back {
                        Some(m) => m,
                        None => Mode::Command { selected: 0 },
                    }),
                    Mode::FilterPicker { .. } => b.mode == (match back {
                        Some(m) => m,
                        None => Mode::Command { selected: 0 },
                    }),
                    Mode::BulkActionPicker { .. } => b.mode is Normal,
                    _ => b == a,
                }
            })
        &&& b.data == a.data
    }

    /// Goes back one step from a popup: a category picker to the parent
    /// row, then to where it was opened from; a picker opened from the
    /// palette or the filter menu back there (or to the filter menu, or to
    /// the first palette, when nothing was recorded); a theme or sort
    /// preview is put back first; the category creation steps one step
    /// back; the bulk-action picker closes.
    pub fn popup_back(&mut self)
        requires
            old(self).today.valid(),
        ensures
            Self::after_popup_back(*old(self), *final(self)),
    {
        let mut mode = Mode::Normal;
        std::mem::swap(&mut self.mode, &mut mode);
        let next = match mode {
            Mode::CategoryFilterPicker { selected } => {
                let parent_idx = self.parent_category_index_for(selected);
                if parent_idx != selected {
                    Mode::CategoryFilterPicker { selected: parent_idx }
                } else {
                    match self.pop_popup_back_target_mode() {
                        Some(m) => m,
                        None => Mode::FilterPicker { selected: 2 },
                    }
                }
            },
            Mode::DueDateFilterPicker { .. } => match self.pop_popup_back_target_mode() {
                Some(m) => m,
                None => Mode::FilterPicker { selected: 0 },
            },
            Mode::PriorityPicker { .. } => match self.pop_popup_back_target_mode() {
                Some(m) => m,
                None => Mode::FilterPicker { selected: 1 },
            },
            Mode::CategoryCreateChoice { parent, name, .. } => {
                self.input.set_text(name.as_str());
                Mode::CategoryAdd { parent }
            },
            Mode::CategoryParentPicker { name, .. } => Mode::CategoryCreateChoice { selected: 0, parent: None, name },
            Mode::ThemePicker { original_theme, .. } => {
                self.theme = original_theme;
                match self.pop_popup_back_target_mode() {
                    Some(m) => m,
                    None => self.fresh_palette(),
                }
            },
            Mode::SortPicker { original_sort, .. } => {
                self.sort_mode = original_sort;
                self.clamp_selection();
                match self.pop_popup_back_target_mode() {
                    Some(m) => m,
                    None => self.fresh_palette(),
                }
            },
            Mode::CategoryPicker { .. } | Mode::ArchivePicker { .. } | Mode::FilterPicker { .. } => {
                match self.pop_popup_back_target_mode() {
                    Some(m) => m,
                    None => self.fresh_palette(),
                }
            },
            Mode::BulkActionPicker { .. } => Mode::Normal,
            other => other,
        };
        self.mode = next;
    }
}

} // verus!
