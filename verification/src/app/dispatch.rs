//! Carrying out an action: which method handles it, what it needs of the
//! machine's number ranges, and the effect it asks of the caller.

use vstd::prelude::*;

use crate::data::{find_item, next_order};
use crate::date::Date;
use crate::defs::{Action, Effect, Mode};
use crate::menus::theme_table;
use super::calendar::{can_move_days, can_move_months};
use super::history::undo_fits;
use super::{App, UndoEntry};

verus! {

/// What carrying out `action` needs of the number ranges: a new item needs
/// an id and an order left; a move counts in `i32` positions; the priority
/// and due pickers have 5 and 4 rows; the calendar stays within the years
/// an `i32` holds; undoing a delete moves the id counter past the ids it
/// puts back.
pub open spec fn action_fits(a: App, action: Action) -> bool {
    match action {
        Action::SubmitEdit => a.data@.next_id < u64::MAX && next_order(a.data@.items) <= u64::MAX,
        Action::Reorder(id, direction) => a.data@.items.len() <= i32::MAX && (find_item(a.data@.items, id) >= 0
            ==> i32::MIN <= find_item(a.data@.items, id) + direction <= i32::MAX),
        Action::ReorderCategory(_, _) => a.data@.categories.len() <= i32::MAX,
        Action::PrioritySelect(idx) => idx < 5,
        Action::DueDateFilterSelect(idx) => idx < 4,
        Action::CalendarMove(days) => can_move_days(a.mode, days),
        Action::CalendarMonth(months) => can_move_months(a.mode, months),
        Action::Undo => undo_fits(a.undo_stack@),
        _ => true,
    }
}

/// Whether the deleted items that `e` holds have ids below the largest
/// `u64`.
pub open spec fn entry_fits(e: UndoEntry) -> bool {
    match e {
        UndoEntry::Delete(items) => forall|i: int| 0 <= i < items@.len() ==> (#[trigger] items@[i]).id < u64::MAX,
        _ => true,
    }
}

fn entry_fits_exec(e: &UndoEntry) -> (r: bool)
    ensures
        r == entry_fits(*e),
{
    match e {
        UndoEntry::Delete(items) => {
            let mut i: usize = 0;
            while i < items.len()
                invariant
                    0 <= i <= items.len(),
                    *e == UndoEntry::Delete(*items),
                    forall|j: int| 0 <= j < i ==> (#[trigger] items@[j]).id < u64::MAX,
                decreases items.len() - i,
            {
                if items[i].id == u64::MAX {
                    assert(items@[i as int].id == u64::MAX);
                    return false;
                }
                i = i + 1;
            }
            true
        },
        _ => true,
    }
}

/// Whether the date `d` is valid, computed.
fn date_valid(d: Date) -> (r: bool)
    ensures
        r == d.valid(),
{
    Date::new(d.year, d.month, d.day).is_some()
}

impl App {
    /// Whether `action` fits the number ranges, as `action_fits` says.
    pub fn action_within_limits(&self, action: &Action) -> (r: bool)
        ensures
            r == action_fits(*self, *action),
    {
        match action {
            Action::SubmitEdit => {
                let items = self.data.items();
                self.data.next_id() < u64::MAX && (items.len() == 0 || items[items.len() - 1].order < u64::MAX)
            },
            Action::Reorder(id, direction) => {
                let items = self.data.items();
                if items.len() > i32::MAX as usize {
                    return false;
                }
                let mut i: usize = 0;
                while i < items.len()
                    invariant
                        0 <= i <= items.len(),
                        *action == Action::Reorder(*id, *direction),
                        items.len() <= i32::MAX,
                        items@ == self.data@.items,
                        forall|j: int| 0 <= j < i ==> items@[j].id != *id,
                    decreases items.len() - i,
                {
                    if items[i].id == *id {
                        proof {
                            crate::data::lemma_find_item(items@, *id, i as int);
                        }
                        let p = i as i64 + *direction as i64;
                        assert(find_item(self.data@.items, *id) == i);
                        return i32::MIN as i64 <= p && p <= i32::MAX as i64;
                    }
                    i = i + 1;
                }
                proof {
                    crate::data::lemma_find_item(items@, *id, i as int);
                }
                true
            },
            Action::ReorderCategory(_, _) => self.data.stored_categories().len() <= i32::MAX as usize,
            Action::PrioritySelect(idx) => *idx < 5,
            Action::DueDateFilterSelect(idx) => *idx < 4,
            Action::CalendarMove(days) => match &self.mode {
                Mode::DueDateCalendar { selected, .. } => {
                    if !date_valid(*selected) {
                        return false;
                    }
                    let floor = Date { year: i32::MIN, month: 1, day: 1 }.days_since_epoch();
                    let last = Date { year: i32::MAX, month: 12, day: 31 }.days_since_epoch();
                    proof {
                        crate::date::lemma_limits();
                        crate::date::lemma_month_table(i32::MAX as int);
                    }
                    match selected.days_since_epoch().checked_add(*days as i64) {
                        Some(d) => floor <= d && d <= last,
                        None => false,
                    }
                },
                _ => true,
            },
            Action::CalendarMonth(months) => match &self.mode {
                Mode::DueDateCalendar { selected, .. } => {
                    if !date_valid(*selected) {
                        return false;
                    }
                    let y = selected.year as i64 * 12;
                    let i = y + selected.month as i64 - 1 + *months as i64;
                    i32::MIN as i64 <= i && i <= i32::MAX as i64 && i32::MIN as i64 <= y && y <= i32::MAX as i64
                        && y + selected.month as i64 <= i32::MAX as i64
                },
                _ => true,
            },
            Action::Undo => {
                let mut k: usize = 0;
                while k < self.undo_stack.len()
                    invariant
                        0 <= k <= self.undo_stack.len(),
                        *action == Action::Undo,
                        forall|m: int| 0 <= m < k ==> entry_fits(#[trigger] self.undo_stack@[m]),
                    decreases self.undo_stack.len() - k,
                {
                    if !entry_fits_exec(&self.undo_stack[k]) {
                        return false;
                    }
                    k = k + 1;
                }
                true
            },
            _ => true,
        }
    }
}

/// The effect that answers `action` in the state `a`: quitting, reading or
/// writing the clipboard, or recording a setting.
pub open spec fn action_effect(a: App, action: Action, r: Effect) -> bool {
    match action {
        Action::Quit => r is Quit,
        Action::Paste => r is ReadClipboard,
        Action::ThemeSelect(idx) => if idx < theme_table().len() {
            r == Effect::SaveThemeName(theme_table()[idx as int].0)
        } else {
            r is Continue
        },
        Action::ConfirmResizeSidebar => r == (match a.mode {
            Mode::ResizeSidebar { original_width, .. } => if original_width != a.sidebar_width {
                Effect::SaveSidebarWidth(a.sidebar_width)
            } else {
                Effect::Continue
            },
            _ => Effect::Continue,
        }),
        Action::YankNote => match a.mode {
            Mode::Notes { item_id, selected } => {
                let i = find_item(a.data@.items, item_id);
                if i < 0 || selected >= a.data@.items[i].notes@.len() {
                    r is Continue
                } else {
                    r matches Effect::WriteClipboard(t) && t@ == a.data@.items[i].notes@[selected as int].text@
                }
            },
            _ => r is Continue,
        },
        _ => r is Continue,
    }
}

impl App {
    /// Carries out `action`: clears the note hint, then lets the method
    /// for that action change the state, and returns what the caller has
    /// to do outside (quit, use the clipboard, save a setting; a change of
    /// how notes show is always saved).
    #[verifier::rlimit(60)]
    #[verifier::spinoff_prover]
    pub fn handle_action(&mut self, action: Action) -> (r: Effect)
        requires
            old(self).today.valid(),
            action_fits(*old(self), action),
        ensures
            final(self).today == old(self).today,
            final(self).note_hint ==> action is ToggleDone,
            final(self).note_display == old(self).note_display ==> action_effect(*old(self), action, r),
            final(self).note_display != old(self).note_display ==> r == Effect::SaveNoteDisplay(
                final(self).note_display,
            ),
            ({
                let pre = App { note_hint: false, ..*old(self) };
                let post = *final(self);
                match action {
                    Action::SelectPrev => App::after_select_prev(pre, post),
                    Action::SelectNext => App::after_select_next(pre, post),
                    Action::StartNewItem => App::after_start_new_item(pre, post, None),
                    Action::StartNewItemWithChar(c) => App::after_start_new_item(pre, post, Some(c)),
                    Action::EditItem(id) => App::after_edit_item(pre, post, id),
                    Action::SubmitEdit => App::after_submit_edit(pre, post),
                    Action::CancelEdit => App::after_cancel_edit(pre, post),
                    Action::ToggleDone(id) => App::after_toggle_done_action(pre, post, id),
                    Action::ToggleDoing(id) => App::after_toggle_doing_action(pre, post, id),
                    Action::DeleteItem(id) => App::after_delete_item_action(pre, post, id),
                    Action::CyclePriority(id) => App::after_cycle_priority_action(pre, post, id),
                    Action::Reorder(id, direction) => App::after_reorder_action(pre, post, id, direction),
                    Action::ReorderCategory(path, direction) => App::after_reorder_category_action(pre, post, path, direction),
                    Action::ApplySearch => App::after_apply_search(pre, post),
                    Action::ClearSearch => App::after_clear_search(pre, post),
                    Action::StartCommand => App::after_start_command(pre, post),
                    Action::ExecuteCommand(raw) => App::after_execute_command(pre, post, raw@),
                    Action::TabComplete => App::after_tab_complete(pre, post),
                    Action::ToggleMultiSelect(id) => App::after_toggle_multi_select(pre, post, id),
                    Action::ToggleCategoryMultiSelect(name) => App::after_toggle_category_multi_select(pre, post, name),
                    Action::SelectAllMultiSelect => App::after_select_all_multi_select(pre, post),
                    Action::ConfirmMultiSelect => App::after_confirm_multi_select(pre, post),
                    Action::CancelMultiSelect => post == (App { mode: Mode::Normal, ..pre }),
                    Action::ThemeSelect(idx) => App::after_theme_select(pre, post, idx, r),
                    Action::CancelThemePicker => App::after_cancel_theme_picker(pre, post),
                    Action::ConfirmDeleteYes => App::after_confirm_delete_yes(pre, post),
                    Action::ConfirmDeleteNo => App::after_confirm_delete_no(pre, post),
                    Action::ConfirmDeleteArchive => App::after_confirm_delete_archive(pre, post),
                    Action::PrioritySelect(idx) => App::after_priority_select(pre, post, idx),
                    Action::CancelPriorityPicker => post == (App { mode: Mode::Normal, ..pre }),
                    Action::Paste => post == pre,
                    Action::TogglePin(id) => App::after_toggle_pin_action(pre, post, id),
                    Action::SetDueDate => App::after_set_due_date_action(pre, post),
                    Action::SwitchPane => App::after_switch_pane(pre, post),
                    Action::OpenCategoryPicker => App::after_open_category_picker(pre, post),
                    Action::OpenCategoryMovePicker(category) => App::after_open_category_move_picker(pre, post, category),
                    Action::CategorySelect(idx) => App::after_category_select(pre, post, idx),
                    Action::CategoryFilterSelect(idx) => App::after_category_filter_select(pre, post, idx),
                    Action::CategoryFilterParent(idx) => App::after_category_filter_parent(pre, post, idx),
                    Action::AddCategory(name) => App::after_add_category_action(pre, post, name),
                    Action::AddCategoryChoice(choice) => App::after_add_category_choice(pre, post, choice),
                    Action::SelectCategoryParent(idx) => App::after_select_category_parent(pre, post, idx),
                    Action::CreateAndAssignCategory(name) => App::after_create_and_assign_category(pre, post, name),
                    Action::DeleteCategory(name) => App::after_delete_category_action(pre, post, name),
                    Action::CancelCategoryPicker => App::after_cancel_category_picker(pre, post),
                    Action::StartCategoryAddWithChar(c) => App::after_start_category_add_with_char(pre, post, c),
                    Action::CancelCategoryAdd => App::after_cancel_category_add(pre, post),
                    Action::SortSelect(idx) => App::after_sort_select(pre, post, idx),
                    Action::CancelSortPicker => App::after_cancel_sort_picker(pre, post),
                    Action::SubmitRename => App::after_submit_rename(pre, post),
                    Action::CancelArchivePicker => post == (App { mode: Mode::Normal, ..pre }),
                    Action::ArchiveSelect(idx) => App::after_archive_select(pre, post, idx),
                    Action::BulkActionSelect(idx) => App::after_bulk_action_select(pre, post, idx),
                    Action::CancelBulkActionPicker => App::after_return_after_secondary_mode(pre, post),
                    Action::CancelFilterPicker => post == (App { mode: Mode::Normal, ..pre }),
                    Action::FilterSelect(idx) => App::after_filter_select(pre, post, idx),
                    Action::CancelDueDateFilterPicker => post == (App { mode: Mode::Normal, ..pre }),
                    Action::DueDateFilterSelect(idx) => App::after_due_date_filter_select(pre, post, idx),
                    Action::PopupBack => App::after_popup_back(pre, post),
                    Action::SubmitDueDate => App::after_submit_due_date(pre, post),
                    Action::CancelDueDate => App::after_cancel_due_date(pre, post),
                    Action::CalendarMove(days) => App::after_calendar_move(pre, post, days),
                    Action::CalendarMonth(months) => App::after_calendar_month(pre, post, months),
                    Action::CalendarToday => App::after_calendar_today(pre, post),
                    Action::CalendarClear => App::after_calendar_clear(pre, post),
                    Action::CalendarTextChanged => App::after_calendar_text_changed(pre, post),
                    Action::CalendarToggleFocus => App::after_calendar_toggle_focus(pre, post),
                    Action::SwitchCategoryFilter(direction, parent_only) => App::after_switch_category_filter(pre, post, direction, parent_only),
                    Action::Undo => App::after_undo(pre, post),
                    Action::Quit => post == pre,
                    Action::OpenNotes(id) => App::after_open_notes(pre, post, id),
                    Action::CloseNotes => App::after_close_notes(pre, post),
                    Action::CycleNoteDisplay => App::after_cycle_note_display(pre, post),
                    Action::SetNoteDisplay(d) => App::after_set_note_display(pre, post, d),
                    Action::StartNoteAppend => App::after_start_note_append(pre, post, None),
                    Action::StartNoteAppendWithChar(c) => App::after_start_note_append(pre, post, Some(c)),
                    Action::StartNoteEdit => App::after_start_note_edit(pre, post),
                    Action::SubmitNote => App::after_submit_note(pre, post),
                    Action::CancelNote => App::after_cancel_note(pre, post),
                    Action::DeleteNote => App::after_delete_note(pre, post),
                    Action::YankNote => post == pre,
                    Action::EnterResizeSidebar => App::after_enter_resize_sidebar(pre, post),
                    Action::ResizeSidebar(delta) => App::after_resize_sidebar(pre, post, delta),
                    Action::ResetSidebarWidth => App::after_reset_sidebar_width(pre, post),
                    Action::ConfirmResizeSidebar => App::after_confirm_resize_sidebar(pre, post, r),
                    Action::CancelResizeSidebar => App::after_cancel_resize_sidebar(pre, post),
                }
            }),
    {
        self.note_hint = false;
        let before = self.note_display;
        match action {
            Action::SelectPrev => self.select_prev(),
            Action::SelectNext => self.select_next(),
            Action::StartNewItem => self.start_new_item(None),
            Action::StartNewItemWithChar(c) => self.start_new_item(Some(c)),
            Action::EditItem(id) => self.edit_item(id),
            Action::SubmitEdit => self.submit_edit(),
            Action::CancelEdit => self.cancel_edit(),
            Action::ToggleDone(id) => self.toggle_done_action(id),
            Action::ToggleDoing(id) => self.toggle_doing_action(id),
            Action::DeleteItem(id) => self.delete_item_action(id),
            Action::CyclePriority(id) => self.cycle_priority_action(id),
            Action::Reorder(id, direction) => self.reorder_action(id, direction),
            Action::ReorderCategory(path, direction) => self.reorder_category_action(path, direction),
            Action::ApplySearch => self.apply_search(),
            Action::ClearSearch => self.clear_search(),
            Action::StartCommand => self.start_command(),
            Action::ExecuteCommand(raw) => self.execute_command(raw.as_str()),
            Action::TabComplete => self.tab_complete(),
            Action::ToggleMultiSelect(id) => self.toggle_multi_select(id),
            Action::ToggleCategoryMultiSelect(name) => self.toggle_category_multi_select(name),
            Action::SelectAllMultiSelect => self.select_all_multi_select(),
            Action::ConfirmMultiSelect => self.confirm_multi_select(),
            Action::CancelMultiSelect => self.mode = Mode::Normal,
            Action::ThemeSelect(idx) => return self.theme_select(idx),
            Action::CancelThemePicker => self.cancel_theme_picker(),
            Action::ConfirmDeleteYes => self.confirm_delete_yes(),
            Action::ConfirmDeleteNo => self.confirm_delete_no(),
            Action::ConfirmDeleteArchive => self.confirm_delete_archive(),
            Action::PrioritySelect(idx) => self.priority_select(idx),
            Action::CancelPriorityPicker => self.mode = Mode::Normal,
            Action::Paste => return Effect::ReadClipboard,
            Action::TogglePin(id) => self.toggle_pin_action(id),
            Action::SetDueDate => self.set_due_date_action(),
            Action::SwitchPane => self.switch_pane(),
            Action::OpenCategoryPicker => self.open_category_picker(),
            Action::OpenCategoryMovePicker(category) => self.open_category_move_picker(category),
            Action::CategorySelect(idx) => self.category_select(idx),
            Action::CategoryFilterSelect(idx) => self.category_filter_select(idx),
            Action::CategoryFilterParent(idx) => self.category_filter_parent(idx),
            Action::AddCategory(name) => self.add_category_action(name),
            Action::AddCategoryChoice(choice) => self.add_category_choice(choice),
            Action::SelectCategoryParent(idx) => self.select_category_parent(idx),
            Action::CreateAndAssignCategory(name) => self.create_and_assign_category(name),
            Action::DeleteCategory(name) => self.delete_category_action(name),
            Action::CancelCategoryPicker => self.cancel_category_picker(),
            Action::StartCategoryAddWithChar(c) => self.start_category_add_with_char(c),
            Action::CancelCategoryAdd => self.cancel_category_add(),
            Action::SortSelect(idx) => self.sort_select(idx),
            Action::CancelSortPicker => self.cancel_sort_picker(),
            Action::SubmitRename => self.submit_rename(),
            Action::CancelArchivePicker => self.mode = Mode::Normal,
            Action::ArchiveSelect(idx) => self.archive_select(idx),
            Action::BulkActionSelect(idx) => self.bulk_action_select(idx),
            Action::CancelBulkActionPicker => self.return_after_secondary_mode(),
            Action::CancelFilterPicker => self.mode = Mode::Normal,
            Action::FilterSelect(idx) => self.filter_select(idx),
            Action::CancelDueDateFilterPicker => self.mode = Mode::Normal,
            Action::DueDateFilterSelect(idx) => self.due_date_filter_select(idx),
            Action::PopupBack => self.popup_back(),
            Action::SubmitDueDate => self.submit_due_date(),
            Action::CancelDueDate => self.cancel_due_date(),
            Action::CalendarMove(days) => self.calendar_move(days),
            Action::CalendarMonth(months) => self.calendar_month(months),
            Action::CalendarToday => self.calendar_today(),
            Action::CalendarClear => self.calendar_clear(),
            Action::CalendarTextChanged => self.calendar_text_changed(),
            Action::CalendarToggleFocus => self.calendar_toggle_focus(),
            Action::SwitchCategoryFilter(direction, parent_only) => self.switch_category_filter(direction, parent_only),
            Action::Undo => self.undo(),
            Action::Quit => return Effect::Quit,
            Action::OpenNotes(id) => self.open_notes(id),
            Action::CloseNotes => self.close_notes(),
            Action::CycleNoteDisplay => self.cycle_note_display(),
            Action::SetNoteDisplay(d) => self.set_note_display(d),
            Action::StartNoteAppend => self.start_note_append(None),
            Action::StartNoteAppendWithChar(c) => self.start_note_append(Some(c)),
            Action::StartNoteEdit => self.start_note_edit(),
            Action::SubmitNote => self.submit_note(),
            Action::CancelNote => self.cancel_note(),
            Action::DeleteNote => self.delete_note(),
            Action::YankNote => return self.yank_note(),
            Action::EnterResizeSidebar => self.enter_resize_sidebar(),
            Action::ResizeSidebar(delta) => self.resize_sidebar(delta),
            Action::ResetSidebarWidth => self.reset_sidebar_width(),
            Action::ConfirmResizeSidebar => return self.confirm_resize_sidebar(),
            Action::CancelResizeSidebar => self.cancel_resize_sidebar(),
        }
        if self.note_display != before {
            Effect::SaveNoteDisplay(self.note_display)
        } else {
            Effect::Continue
        }
    }
}

} // verus!
