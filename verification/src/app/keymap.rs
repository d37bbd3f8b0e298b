//! From a key press to an action: the keys every screen shares, then the
//! keys of the screen in front.

use vstd::prelude::*;

use crate::commands::resolve_command_input;
use crate::input::{view_insert, InputView};
use crate::defs::{Action, CategoryPickerTarget, Mode, MultiSelectCmd, Pane, PopupBackTarget};
use crate::keys::{
    confirm_delete_key, handle_bulk_action_picker, handle_archive_picker, handle_category_add,
    handle_category_create_choice, handle_category_multiselect, handle_category_parent_picker,
    handle_category_picker, handle_command, handle_confirm_delete, handle_due_date_calendar,
    handle_due_date_filter_picker, handle_editing, handle_filter_picker, handle_multiselect, handle_normal,
    handle_note_input, handle_notes, handle_priority_picker, handle_search, handle_sidebar, handle_sort_picker,
    handle_theme_picker, multiselect_key, normal_key, notes_key, search_key, KeyCode, KeyEvent, KeyModifiers, calendar_input, calendar_key,
    editing_input, editing_key, key_edit, nav_key, typed, create_choice_key, parent_picker_key, sort_picker_key,
};
use super::pickers::back_mode;
use super::App;

verus! {

/// Whether typed characters go to a prompt (or a typed filter) in `mode`,
/// so that the one-key shortcuts stay off.
pub open spec fn is_text_mode(mode: Mode) -> bool {
    ||| mode is Editing
    ||| mode is Command
    ||| mode is Searching
    ||| mode is CategoryAdd
    ||| mode is RenameInput
    ||| mode is CategoryPicker
    ||| mode is DueDateCalendar
    ||| mode is Notes
    ||| mode is NoteInput
}

/// Whether `mode` is a popup list, where Left and Backspace go back.
pub open spec fn is_popup_list(mode: Mode) -> bool {
    ||| mode is ThemePicker
    ||| mode is PriorityPicker
    ||| mode is CategoryPicker
    ||| mode is CategoryFilterPicker
    ||| mode is CategoryCreateChoice
    ||| mode is CategoryParentPicker
    ||| mode is SortPicker
    ||| mode is ArchivePicker
    ||| mode is BulkActionPicker
    ||| mode is FilterPicker
    ||| mode is DueDateFilterPicker
}

/// Whether `mode` is a popup list, computed.
pub fn is_popup_list_mode(mode: &Mode) -> (r: bool)
    ensures
        r == is_popup_list(*mode),
{
    match mode {
        Mode::ThemePicker { .. } | Mode::PriorityPicker { .. } | Mode::CategoryPicker { .. }
        | Mode::CategoryFilterPicker { .. } | Mode::CategoryCreateChoice { .. }
        | Mode::CategoryParentPicker { .. } | Mode::SortPicker { .. } | Mode::ArchivePicker { .. }
        | Mode::BulkActionPicker { .. } | Mode::FilterPicker { .. } | Mode::DueDateFilterPicker { .. } => true,
        _ => false,
    }
}

fn is_text_mode_exec(mode: &Mode) -> (r: bool)
    ensures
        r == is_text_mode(*mode),
{
    match mode {
        Mode::Editing { .. } | Mode::Command { .. } | Mode::Searching | Mode::CategoryAdd { .. }
        | Mode::RenameInput { .. } | Mode::CategoryPicker { .. } | Mode::DueDateCalendar { .. }
        | Mode::Notes { .. } | Mode::NoteInput { .. } => true,
        _ => false,
    }
}

/// Whether `key` is one of the shortcuts that every screen checks first
/// and it applies in `a`: outside prompts `/`, Control-K and Control-H;
/// Control-C anywhere; Control-D and Control-N on a highlighted item of the
/// list or the search; Control-Z with something to undo, on the list or
/// the note log; Control-B and Control-L on the list screens.
pub open spec fn shared_fires(a: App, key: KeyEvent) -> bool {
    let ctrl = key.modifiers.control;
    let text = is_text_mode(a.mode);
    let on_item = (a.mode is Normal || a.mode is Searching) && a.pane == Pane::Items && a.sel() < a.shown().len();
    ||| key.code == KeyCode::Char('k') && ctrl && !text
    ||| key.code == KeyCode::Char('/') && !text
    ||| key.code == KeyCode::Char('c') && ctrl
    ||| key.code == KeyCode::Char('h') && ctrl && !text
    ||| key.code == KeyCode::Char('d') && ctrl && on_item
    ||| key.code == KeyCode::Char('n') && ctrl && on_item
    ||| key.code == KeyCode::Char('z') && ctrl && (a.mode is Normal || a.mode is Notes) && a.undo_stack@.len() > 0
    ||| key.code == KeyCode::Char('b') && ctrl && a.mode is Normal
    ||| key.code == KeyCode::Char('l') && ctrl && a.mode is Normal
}

/// The keys while resizing the sidebar: Left and Right by one column (by
/// five with Shift), `r` back to the default, Enter or Control-B to keep,
/// Esc to cancel.
pub open spec fn resize_key(key: KeyEvent) -> Option<Action> {
    match key.code {
        KeyCode::Left => Some(Action::ResizeSidebar(if key.modifiers.shift { -5i16 } else { -1i16 })),
        KeyCode::Right => Some(Action::ResizeSidebar(if key.modifiers.shift { 5i16 } else { 1i16 })),
        KeyCode::Char(c) => if c == 'r' && key.modifiers == KeyModifiers::spec_none() {
            Some(Action::ResetSidebarWidth)
        } else if c == 'b' && key.modifiers.control {
            Some(Action::ConfirmResizeSidebar)
        } else {
            None
        },
        KeyCode::Enter => Some(Action::ConfirmResizeSidebar),
        KeyCode::Esc => Some(Action::CancelResizeSidebar),
        _ => None,
    }
}

/// The keys of a popup list whose Enter does `enter`: Right does it too,
/// Left and Backspace go back, Up and Down move, Esc does `cancel`.
pub open spec fn list_key(key: KeyEvent, enter: Action, cancel: Action) -> Option<Action> {
    let plain = key.modifiers == KeyModifiers::spec_none();
    match key.code {
        KeyCode::Right => if plain {
            Some(enter)
        } else {
            None
        },
        KeyCode::Left => if plain {
            Some(Action::PopupBack)
        } else {
            None
        },
        KeyCode::Backspace => if plain {
            Some(Action::PopupBack)
        } else {
            None
        },
        KeyCode::Up => Some(Action::SelectPrev),
        KeyCode::Down => Some(Action::SelectNext),
        KeyCode::Esc => Some(cancel),
        KeyCode::Enter => Some(enter),
        _ => None,
    }
}

/// The keys of the item list: Left, Tab, PageUp and PageDown switch the
/// pane or the category filter; the rest as `normal_key` says.
pub open spec fn items_pane_key(key: KeyEvent, sel: Option<u64>) -> Option<Action> {
    match key.code {
        KeyCode::Left => Some(Action::SwitchPane),
        KeyCode::Tab => if key.modifiers == KeyModifiers::spec_none() {
            Some(Action::SwitchPane)
        } else {
            normal_key(key, sel)
        },
        KeyCode::PageUp => Some(Action::SwitchCategoryFilter(-1i32, true)),
        KeyCode::PageDown => Some(Action::SwitchCategoryFilter(1i32, true)),
        _ => normal_key(key, sel),
    }
}

/// A prompt after `key` when the key only edits it: as `key_edit` says, or
/// unchanged.
pub open spec fn typed_edit(key: KeyEvent, v: InputView) -> InputView {
    match key_edit(key, v) {
        Some(w) => w,
        None => v,
    }
}

/// The action of `key`, and the prompt after it, on the screens whose keys
/// need nothing but the prompt: the item prompt (a new item's prompt left
/// empty leaves it), the rename prompt, the calendar, the note prompt and
/// the help and key lists (Esc or `q` close them); `None` on other screens.
pub open spec fn prompt_screen_key(a: App, key: KeyEvent) -> Option<(Option<Action>, InputView)> {
    let v = a.input@;
    match a.mode {
        Mode::Editing { edit_id } => {
            let act = editing_key(key);
            let w = if act is Some { v } else { editing_input(key, v) };
            Some((if edit_id is None && act is None && w.text.len() == 0 { Some(Action::CancelEdit) } else { act }, w))
        },
        Mode::RenameInput { .. } => if key.code is Enter {
            Some((Some(Action::SubmitRename), v))
        } else if key.code is Esc {
            Some((Some(Action::CancelEdit), v))
        } else {
            let act = editing_key(key);
            Some((act, if act is Some { v } else { editing_input(key, v) }))
        },
        Mode::DueDateCalendar { prompt_focused, .. } => Some(
            (calendar_key(key, prompt_focused, v), calendar_input(key, prompt_focused, v)),
        ),
        Mode::NoteInput { .. } => if key.code is Enter {
            Some((Some(Action::SubmitNote), v))
        } else if key.code is Esc {
            Some((Some(Action::CancelNote), v))
        } else {
            Some((None, typed_edit(key, v)))
        },
        Mode::Help => Some((if key.code is Esc || key.code == KeyCode::Char('q') { Some(Action::CancelEdit) } else { None }, v)),
        Mode::Keybindings => Some((if key.code is Esc || key.code == KeyCode::Char('q') { Some(Action::CancelEdit) } else { None }, v)),
        _ => None,
    }
}

/// The keys of bulk selection on the item list: Left, Tab, PageUp and
/// PageDown switch the pane or the category filter; the rest as
/// `multiselect_key` says.
pub open spec fn items_multiselect_key(key: KeyEvent, sel: Option<u64>) -> Option<Action> {
    match key.code {
        KeyCode::Left => Some(Action::SwitchPane),
        KeyCode::Tab => if key.modifiers == KeyModifiers::spec_none() {
            Some(Action::SwitchPane)
        } else {
            multiselect_key(key, sel)
        },
        KeyCode::PageUp => Some(Action::SwitchCategoryFilter(-1i32, true)),
        KeyCode::PageDown => Some(Action::SwitchCategoryFilter(1i32, true)),
        _ => multiselect_key(key, sel),
    }
}

/// Whether `key` switches the pane or the category filter on the list
/// screens with `pane` in front: Left from the items, Right from the
/// sidebar, Tab without modifiers, PageUp and PageDown.
pub open spec fn pane_switch_key(key: KeyEvent, pane: Pane) -> bool {
    match key.code {
        KeyCode::Left => pane == Pane::Items,
        KeyCode::Right => pane == Pane::Categories,
        KeyCode::Tab => key.modifiers == KeyModifiers::spec_none(),
        KeyCode::PageUp => true,
        KeyCode::PageDown => true,
        _ => false,
    }
}

/// The action of a key that `pane_switch_key` accepts.
pub open spec fn pane_switch_action(key: KeyEvent) -> Option<Action> {
    match key.code {
        KeyCode::PageUp => Some(Action::SwitchCategoryFilter(-1i32, true)),
        KeyCode::PageDown => Some(Action::SwitchCategoryFilter(1i32, true)),
        _ => Some(Action::SwitchPane),
    }
}

/// Whether `r` is what the sidebar of `a` gives for `key`: Up and Down
/// move, Enter filters by the highlighted row (by "All" past the end),
/// Delete asks to delete the highlighted category, a typed character starts
/// a new category with it.
pub open spec fn sidebar_keyed(a: App, key: KeyEvent, r: Option<Action>) -> bool {
    let ci = a.category_index;
    let n = a.rows().len();
    match key.code {
        KeyCode::Up => r == Some(Action::SelectPrev),
        KeyCode::Down => r == Some(Action::SelectNext),
        KeyCode::Enter => r == Some(Action::CategorySelect(if ci <= n { ci } else { 0 })),
        KeyCode::Delete => if 0 < ci <= n {
            r matches Some(Action::DeleteCategory(name)) && name@ == a.rows()[ci - 1].path
        } else {
            r is None
        },
        KeyCode::Char(c) => r == if typed(key.modifiers) {
            Some(Action::StartCategoryAddWithChar(c))
        } else {
            None
        },
        _ => r is None,
    }
}

/// Whether `r` is what bulk selection in the sidebar of `a` gives for
/// `key`: Space picks or drops the highlighted category; the rest as
/// `multiselect_key` says with no item highlighted.
pub open spec fn sidebar_multiselect_keyed(a: App, key: KeyEvent, r: Option<Action>) -> bool {
    let ci = a.category_index;
    if key.code == KeyCode::Char(' ') {
        if 0 < ci <= a.rows().len() {
            r matches Some(Action::ToggleCategoryMultiSelect(name)) && name@ == a.rows()[ci - 1].path
        } else {
            r is None
        }
    } else {
        r == multiselect_key(key, None)
    }
}

/// Whether the popup lists take `key` before the list's own keys: Right,
/// Left or Backspace without modifiers.
pub open spec fn popup_nav(key: KeyEvent) -> bool {
    key.modifiers == KeyModifiers::spec_none() && (key.code is Right || key.code is Left || key.code is Backspace)
}

/// The keys of a popup list whose Enter does `enter` and whose other keys
/// are `rest`: Enter, and Right without modifiers, do `enter`; Left and
/// Backspace without modifiers go back.
pub open spec fn popup_key(key: KeyEvent, enter: Action, rest: Option<Action>) -> Option<Action> {
    let plain = key.modifiers == KeyModifiers::spec_none();
    if key.code is Enter || (key.code is Right && plain) {
        Some(enter)
    } else if (key.code is Left || key.code is Backspace) && plain {
        Some(Action::PopupBack)
    } else {
        rest
    }
}

/// The category filter picker's own keys: Up, Down and Esc as `nav_key`
/// says; Backspace goes to the parent of the highlighted category.
pub open spec fn category_filter_rest(code: KeyCode, selected: usize) -> Option<Action> {
    match nav_key(code, Action::CancelCategoryPicker) {
        Some(x) => Some(x),
        None => if code is Backspace {
            Some(Action::CategoryFilterParent(selected))
        } else {
            None
        },
    }
}

/// Whether `b` and `r` are what `key` does in the category picker of `a`,
/// highlighting `selected`, for `target`: Enter (and Right without
/// modifiers) takes the highlighted category, or creates the typed name
/// unless a branch is being moved; Left and Backspace without modifiers go
/// back; Up, Down and Esc as `nav_key` says; a typed character goes into
/// the name when an item is being filed.
pub open spec fn category_picked(
    a: App,
    b: App,
    key: KeyEvent,
    selected: usize,
    target: CategoryPickerTarget,
    r: Option<Action>,
) -> bool {
    let plain = key.modifiers == KeyModifiers::spec_none();
    if key.code is Enter || (key.code is Right && plain) {
        &&& b == a
        &&& if a.input@.text.len() == 0 || target is MoveCategory {
            r == Some(Action::CategorySelect(selected))
        } else {
            r matches Some(Action::CreateAndAssignCategory(t)) && t@ == a.input@.text
        }
    } else if (key.code is Left || key.code is Backspace) && plain {
        r == Some(Action::PopupBack) && b == a
    } else if nav_key(key.code, Action::CancelCategoryPicker) is Some {
        r == nav_key(key.code, Action::CancelCategoryPicker) && b == a
    } else {
        &&& r is None
        &&& b.input@ == match key.code {
            KeyCode::Char(c) => if target is AssignItem && typed(key.modifiers) {
                view_insert(a.input@, c)
            } else {
                a.input@
            },
            _ => a.input@,
        }
        &&& b == (App { input: b.input, ..a })
    }
}

/// Whether `b` and `r` are what `key` does in the command palette of `a`
/// with entry `selected` highlighted: Enter (and Right without modifiers,
/// when there is a command to run) runs the resolved command; Left and
/// Backspace without modifiers go back (to where the palette was opened
/// from, or to the full list); Tab completes; Up (without modifiers) and
/// Down move; Esc empties the line and leaves; any other key edits the
/// line, and a character starts the list afresh.
pub open spec fn command_keyed(a: App, b: App, key: KeyEvent, selected: usize, r: Option<Action>) -> bool {
    let plain = key.modifiers == KeyModifiers::spec_none();
    let res = crate::commands::resolved(a.input@.text, selected);
    if key.code is Enter || (key.code is Right && plain && res is Some) {
        &&& b == a
        &&& match r {
            Some(Action::ExecuteCommand(c)) => res == Some(c@),
            None => res is None,
            _ => false,
        }
    } else if (key.code is Left || key.code is Backspace) && plain {
        r is None && command_backed(a, b, key.code is Backspace)
    } else if key.code is Tab {
        r == Some(Action::TabComplete) && b == a
    } else if key.code is Up {
        r == (if plain { Some(Action::SelectPrev) } else { None }) && b == a
    } else if key.code is Down {
        r == Some(Action::SelectNext) && b == a
    } else if key.code is Esc {
        &&& r == Some(Action::CancelEdit)
        &&& b.input@ == (InputView { text: Seq::empty(), cursor: 0 })
        &&& b.completions@.len() == 0
        &&& b == (App { input: b.input, completions: b.completions, completion_index: 0, ..a })
    } else {
        &&& r is None
        &&& b.input@ == typed_edit(key, a.input@)
        &&& if key.code is Char {
            &&& b.completions@.len() == 0
            &&& b == (App {
                input: b.input,
                completions: b.completions,
                completion_index: 0,
                mode: Mode::Command { selected: 0 },
                ..a
            })
        } else {
            b == (App { input: b.input, ..a })
        }
    }
}

/// Whether `b` and `r` are what `key` does on the new-category prompt of
/// `a`: Enter adds the typed name; Esc empties the prompt and leaves; any
/// other key edits it, and emptying it leaves too.
pub open spec fn category_add_keyed(a: App, b: App, key: KeyEvent, r: Option<Action>) -> bool {
    if key.code is Enter {
        &&& b.input@ == a.input@
        &&& b == (App { input: b.input, ..a })
        &&& r matches Some(Action::AddCategory(n)) && n@ == a.input@.text
    } else if key.code is Esc {
        &&& r == Some(Action::CancelCategoryAdd)
        &&& b.input@ == (InputView { text: Seq::empty(), cursor: 0 })
        &&& b == (App { input: b.input, ..a })
    } else {
        &&& b.input@ == typed_edit(key, a.input@)
        &&& r == (if b.input@.text.len() == 0 { Some(Action::CancelCategoryAdd) } else { None })
        &&& b == (App { input: b.input, ..a })
    }
}

/// Whether `b` is `a` after `key` on the search prompt, which returned `r`:
/// the action as `search_key` says; a key without one edits the query; the
/// search follows the query.
pub open spec fn searched(a: App, b: App, key: KeyEvent, r: Option<Action>) -> bool {
    &&& r == search_key(key.code)
    &&& b.input@ == if r is Some { a.input@ } else { typed_edit(key, a.input@) }
    &&& b.filter@ == b.input@.text
    &&& b == (App { input: b.input, filter: b.filter, ..a })
}

/// Whether `b` and `r` are what `key`, held with Control, does on the
/// search prompt of `a`: on the highlighted item, `p` cycles its priority,
/// `*` pins it, `e` opens it for editing and `o` files it in a category
/// (both putting the search aside, `o` emptying the prompt), Up and Down
/// move it; any other key as on the prompt.
pub open spec fn search_control_keyed(a: App, b: App, key: KeyEvent, r: Option<Action>) -> bool {
    let idx = a.sel() as int;
    let on_item = idx < a.shown().len();
    let id = a.shown()[idx].id;
    if on_item && key.code is Up {
        r == Some(Action::Reorder(id, -1i32)) && b == a
    } else if on_item && key.code is Down {
        r == Some(Action::Reorder(id, 1i32)) && b == a
    } else if on_item && (key.code == KeyCode::Char('p') || key.code == KeyCode::Char('P')) {
        r == Some(Action::CyclePriority(id)) && b == a
    } else if on_item && key.code == KeyCode::Char('*') {
        r == Some(Action::TogglePin(id)) && b == a
    } else if on_item && key.code == KeyCode::Char('e') {
        &&& r == Some(Action::EditItem(id))
        &&& b.saved_search matches Some(t) && t@ == a.input@.text
        &&& b == (App { saved_search: b.saved_search, ..a })
    } else if on_item && key.code == KeyCode::Char('o') {
        &&& r == Some(Action::OpenCategoryPicker)
        &&& b.saved_search matches Some(t) && t@ == a.input@.text
        &&& b.input@ == (InputView { text: Seq::empty(), cursor: 0 })
        &&& b == (App { saved_search: b.saved_search, input: b.input, ..a })
    } else {
        searched(a, b, key, r)
    }
}

/// Whether `b` is what Tab on the search prompt of `a` leaves: the query
/// kept as the filter, the prompt emptied, and bulk selection of the found
/// items open on the item list.
pub open spec fn search_tabbed(a: App, b: App) -> bool {
    &&& b.filter@ == a.input@.text
    &&& b.input@ == (InputView { text: Seq::empty(), cursor: 0 })
    &&& b.mode matches Mode::MultiSelect { cmd, selected, selected_categories } && cmd == MultiSelectCmd::PickAction
        && selected@.len() == 0 && selected_categories@.len() == 0
    &&& b.pane == Pane::Items
    &&& b.selected_index == (App { selected_index: a.selected_index, ..b }).sel()
    &&& b == (App { filter: b.filter, input: b.input, mode: b.mode, pane: Pane::Items, selected_index: b.selected_index, ..a })
}

/// Whether `b` is what going back in the command palette of `a` leaves
/// (Backspace, with `only_if_typed`, only when something is typed): the
/// latest recorded place, as `back_mode` gives it, the palette line as it
/// was there; with nothing recorded, the full command list with the line
/// emptied.
pub open spec fn command_backed(a: App, b: App, only_if_typed: bool) -> bool {
    if only_if_typed && a.input@.text.len() == 0 {
        b == a
    } else if a.popup_back_stack@.len() > 0 {
        let t = a.popup_back_stack@.last();
        &&& b.popup_back_stack@ == a.popup_back_stack@.drop_last()
        &&& b.mode == back_mode(t)
        &&& match t {
            PopupBackTarget::Command { input, .. } => {
                &&& b.input@.text == input@
                &&& b.completions@.len() == 0
                &&& b == (App {
                    popup_back_stack: b.popup_back_stack,
                    input: b.input,
                    completions: b.completions,
                    completion_index: 0,
                    mode: b.mode,
                    ..a
                })
            },
            PopupBackTarget::FilterPicker { .. } => b == (App { popup_back_stack: b.popup_back_stack, mode: b.mode, ..a }),
        }
    } else if only_if_typed || a.input@.text.len() > 0 {
        &&& b.input@ == (InputView { text: Seq::empty(), cursor: 0 })
        &&& b.completions@.len() == 0
        &&& b == (App { input: b.input, completions: b.completions, completion_index: 0, mode: Mode::Command { selected: 0 }, ..a })
    } else {
        b == a
    }
}

/// The id of the row `idx` of the shown list of `a`, if there is one.
pub open spec fn shown_id(a: App, idx: int) -> Option<u64> {
    if 0 <= idx < a.shown().len() {
        Some(a.shown()[idx].id)
    } else {
        None
    }
}

impl App {
    /// What Enter does in a popup list (and Right, which behaves alike):
    /// run the highlighted command, or take the highlighted row.
    pub fn popup_list_enter_action(&self) -> (r: Option<Action>)
        ensures
            match self.mode {
                Mode::Command { selected } => match r {
                    Some(Action::ExecuteCommand(c)) => crate::commands::resolved(self.input@.text, selected)
                        == Some(c@),
                    None => crate::commands::resolved(self.input@.text, selected) is None,
                    _ => false,
                },
                Mode::ThemePicker { selected, .. } => r == Some(Action::ThemeSelect(selected)),
                Mode::PriorityPicker { selected } => r == Some(Action::PrioritySelect(selected)),
                Mode::CategoryPicker { selected, target } => if self.input@.text.len() == 0
                    || target is MoveCategory {
                    r == Some(Action::CategorySelect(selected))
                } else {
                    r matches Some(Action::CreateAndAssignCategory(t)) && t@ == self.input@.text
                },
                Mode::CategoryFilterPicker { selected } => r == Some(Action::CategoryFilterSelect(selected)),
                Mode::CategoryCreateChoice { .. } => r == Some(Action::AddCategoryChoice(usize::MAX)),
                Mode::CategoryParentPicker { .. } => r == Some(Action::SelectCategoryParent(usize::MAX)),
                Mode::SortPicker { selected, .. } => r == Some(Action::SortSelect(selected)),
                Mode::ArchivePicker { selected } => r == Some(Action::ArchiveSelect(selected)),
                Mode::BulkActionPicker { selected, .. } => r == Some(Action::BulkActionSelect(selected)),
                Mode::FilterPicker { selected } => r == Some(Action::FilterSelect(selected)),
                Mode::DueDateFilterPicker { selected } => r == Some(Action::DueDateFilterSelect(selected)),
                _ => r is None,
            },
    {
        match &self.mode {
            Mode::Command { selected } => match resolve_command_input(self.input.text(), *selected) {
                Some(c) => Some(Action::ExecuteCommand(c)),
                None => None,
            },
            Mode::ThemePicker { selected, .. } => Some(Action::ThemeSelect(*selected)),
            Mode::PriorityPicker { selected } => Some(Action::PrioritySelect(*selected)),
            Mode::CategoryPicker { selected, target } => {
                let is_move = match target {
                    CategoryPickerTarget::MoveCategory(_) => true,
                    _ => false,
                };
                if self.input.is_empty() || is_move {
                    Some(Action::CategorySelect(*selected))
                } else {
                    Some(Action::CreateAndAssignCategory(self.input.text().to_string()))
                }
            },
            Mode::CategoryFilterPicker { selected } => Some(Action::CategoryFilterSelect(*selected)),
            Mode::CategoryCreateChoice { .. } => Some(Action::AddCategoryChoice(usize::MAX)),
            Mode::CategoryParentPicker { .. } => Some(Action::SelectCategoryParent(usize::MAX)),
            Mode::SortPicker { selected, .. } => Some(Action::SortSelect(*selected)),
            Mode::ArchivePicker { selected } => Some(Action::ArchiveSelect(*selected)),
            Mode::BulkActionPicker { selected, .. } => Some(Action::BulkActionSelect(*selected)),
            Mode::FilterPicker { selected } => Some(Action::FilterSelect(*selected)),
            Mode::DueDateFilterPicker { selected } => Some(Action::DueDateFilterSelect(*selected)),
            _ => None,
        }
    }

    /// Turns a key press into an action, editing the prompt, the search
    /// and the mode on the way where a key does that by itself. Control-C
    /// quits from anywhere; outside prompts `/` opens the command palette,
    /// Control-K the key list and Control-H the help; Control-D, Control-N
    /// and Control-Z work on the list (Control-Z in the note log too);
    /// Control-B starts resizing the sidebar and Control-L cycles how notes
    /// show. Then the keys of the screen in front apply. The stored items
    /// are never changed here.
    #[verifier::rlimit(80)]
    #[verifier::spinoff_prover]
    pub fn dispatch_key(&mut self, key: KeyEvent) -> (r: Option<Action>)
        requires
            old(self).today.valid(),
        ensures
            *final(self) == (App {
                input: final(self).input,
                mode: final(self).mode,
                filter: final(self).filter,
                completions: final(self).completions,
                completion_index: final(self).completion_index,
                saved_search: final(self).saved_search,
                pane: final(self).pane,
                selected_index: final(self).selected_index,
                popup_back_stack: final(self).popup_back_stack,
                ..*old(self)
            }),
            key.code == KeyCode::Char('c') && key.modifiers.control ==> r == Some(Action::Quit),
            key.code == KeyCode::Char('k') && key.modifiers.control && !is_text_mode(old(self).mode) ==> (r matches Some(
                Action::ExecuteCommand(s),
            ) && s@ == "keybindings"@) && *final(self) == *old(self),
            key.code == KeyCode::Char('/') && !is_text_mode(old(self).mode) ==> r == Some(Action::StartCommand)
                && *final(self) == *old(self),
            key.code == KeyCode::Char('h') && key.modifiers.control && !is_text_mode(old(self).mode) ==> (r matches Some(
                Action::ExecuteCommand(s),
            ) && s@ == "help"@) && *final(self) == *old(self),
            key.code == KeyCode::Char('d') && key.modifiers.control && (old(self).mode is Normal
                || old(self).mode is Searching) && old(self).pane == Pane::Items && old(self).sel()
                < old(self).shown().len() ==> r == Some(Action::SetDueDate) && *final(self) == *old(self),
            key.code == KeyCode::Char('n') && key.modifiers.control && (old(self).mode is Normal
                || old(self).mode is Searching) && old(self).pane == Pane::Items && old(self).sel()
                < old(self).shown().len() ==> {
                &&& r == Some(Action::OpenNotes(old(self).shown()[old(self).sel() as int].id))
                &&& old(self).mode is Normal ==> *final(self) == *old(self)
                &&& old(self).mode is Searching ==> {
                    &&& final(self).saved_search matches Some(t) && t@ == old(self).input@.text
                    &&& final(self).input@ == (InputView { text: Seq::empty(), cursor: 0 })
                    &&& *final(self) == (App { saved_search: final(self).saved_search, input: final(self).input, ..*old(self) })
                }
            },
            key.code == KeyCode::Char('b') && key.modifiers.control && old(self).mode is Normal ==> r == Some(
                Action::EnterResizeSidebar,
            ) && *final(self) == *old(self),
            key.code == KeyCode::Char('l') && key.modifiers.control && old(self).mode is Normal ==> r == Some(
                Action::CycleNoteDisplay,
            ) && *final(self) == *old(self),
            key.code == KeyCode::Char('z') && key.modifiers.control && (old(self).mode is Normal
                || old(self).mode is Notes) && old(self).undo_stack@.len() > 0 ==> r == Some(Action::Undo),
            !shared_fires(*old(self), key) && old(self).mode is ResizeSidebar ==> r == resize_key(key) && *final(self)
                == *old(self),
            !shared_fires(*old(self), key) && old(self).mode is ConfirmDelete ==> r == confirm_delete_key(key.code)
                && *final(self) == *old(self),
            !shared_fires(*old(self), key) && old(self).mode is Notes ==> r == notes_key(key) && *final(self) == *old(self),
            !shared_fires(*old(self), key) ==> (prompt_screen_key(*old(self), key) matches Some((act, w)) ==> r == act
                && final(self).input@ == w && *final(self) == (App { input: final(self).input, ..*old(self) })),
            !shared_fires(*old(self), key) && old(self).mode is Searching ==> if key.code is Tab {
                r is None && search_tabbed(*old(self), *final(self))
            } else if key.modifiers.control {
                search_control_keyed(*old(self), *final(self), key, r)
            } else {
                searched(*old(self), *final(self), key, r)
            },
            !shared_fires(*old(self), key) && old(self).mode is MultiSelect && old(self).pane == Pane::Items ==> r
                == items_multiselect_key(key, shown_id(*old(self), old(self).selected_index as int)) && *final(self)
                == *old(self),
            !shared_fires(*old(self), key) && old(self).mode is Normal && old(self).pane == Pane::Items ==> r == items_pane_key(
                key,
                shown_id(*old(self), old(self).selected_index as int),
            ) && *final(self) == *old(self),
            !shared_fires(*old(self), key) && (old(self).mode is Normal || old(self).mode is MultiSelect) && old(self).pane
                == Pane::Categories ==> *final(self) == *old(self) && if pane_switch_key(key, Pane::Categories) {
                r == pane_switch_action(key)
            } else if old(self).mode is Normal {
                sidebar_keyed(*old(self), key, r)
            } else {
                sidebar_multiselect_keyed(*old(self), key, r)
            },
            !shared_fires(*old(self), key) ==> match old(self).mode {
                Mode::ThemePicker { selected, .. } => r == list_key(
                    key,
                    Action::ThemeSelect(selected),
                    Action::CancelThemePicker,
                ) && *final(self) == *old(self),
                Mode::PriorityPicker { selected } => r == list_key(
                    key,
                    Action::PrioritySelect(selected),
                    Action::CancelPriorityPicker,
                ) && *final(self) == *old(self),
                Mode::ArchivePicker { selected } => r == list_key(
                    key,
                    Action::ArchiveSelect(selected),
                    Action::CancelArchivePicker,
                ) && *final(self) == *old(self),
                Mode::BulkActionPicker { selected, .. } => r == list_key(
                    key,
                    Action::BulkActionSelect(selected),
                    Action::CancelBulkActionPicker,
                ) && *final(self) == *old(self),
                Mode::FilterPicker { selected } => r == list_key(
                    key,
                    Action::FilterSelect(selected),
                    Action::CancelFilterPicker,
                ) && *final(self) == *old(self),
                Mode::DueDateFilterPicker { selected } => r == list_key(
                    key,
                    Action::DueDateFilterSelect(selected),
                    Action::CancelDueDateFilterPicker,
                ) && *final(self) == *old(self),
                Mode::Command { selected } => command_keyed(*old(self), *final(self), key, selected, r),
                Mode::CategoryPicker { selected, target } => category_picked(
                    *old(self),
                    *final(self),
                    key,
                    selected,
                    target,
                    r,
                ),
                Mode::CategoryFilterPicker { selected } => r == popup_key(
                    key,
                    Action::CategoryFilterSelect(selected),
                    category_filter_rest(key.code, selected),
                ) && *final(self) == *old(self),
                Mode::CategoryCreateChoice { .. } => r == popup_key(
                    key,
                    Action::AddCategoryChoice(usize::MAX),
                    create_choice_key(key.code),
                ) && *final(self) == *old(self),
                Mode::CategoryParentPicker { .. } => r == popup_key(
                    key,
                    Action::SelectCategoryParent(usize::MAX),
                    parent_picker_key(key.code),
                ) && *final(self) == *old(self),
                Mode::SortPicker { selected, .. } => r == popup_key(
                    key,
                    Action::SortSelect(selected),
                    sort_picker_key(key.code),
                ) && *final(self) == *old(self),
                Mode::CategoryAdd { .. } => category_add_keyed(*old(self), *final(self), key, r),
                _ => true,
            },
    {
        let m = key.modifiers;
        let text_mode = is_text_mode_exec(&self.mode);
        let normal = match self.mode {
            Mode::Normal => true,
            _ => false,
        };
        let searching = match self.mode {
            Mode::Searching => true,
            _ => false,
        };
        let in_notes = match self.mode {
            Mode::Notes { .. } => true,
            _ => false,
        };
        if key.code == KeyCode::Char('k') && m.control && !text_mode {
            return Some(Action::ExecuteCommand("keybindings".to_string()));
        }
        if key.code == KeyCode::Char('/') && !text_mode {
            return Some(Action::StartCommand);
        }
        if key.code == KeyCode::Char('c') && m.control {
            return Some(Action::Quit);
        }
        if key.code == KeyCode::Char('h') && m.control && !text_mode {
            return Some(Action::ExecuteCommand("help".to_string()));
        }
        if key.code == KeyCode::Char('d') && m.control && (normal || searching) && self.pane == Pane::Items {
            let n = self.items().len();
            if self.selected_index() < n {
                return Some(Action::SetDueDate);
            }
        }
        if key.code == KeyCode::Char('n') && m.control && (normal || searching) && self.pane == Pane::Items {
            let items = self.items();
            let idx = self.selected_index();
            if idx < items.len() {
                let id = items[idx].id;
                if searching {
                    self.saved_search = Some(self.input.text().to_string());
                    self.input.clear();
                }
                return Some(Action::OpenNotes(id));
            }
        }
        if key.code == KeyCode::Char('z') && m.control && (normal || in_notes) && self.undo_stack.len() > 0 {
            return Some(Action::Undo);
        }
        if key.code == KeyCode::Char('b') && m.control && normal {
            return Some(Action::EnterResizeSidebar);
        }
        if key.code == KeyCode::Char('l') && m.control && normal {
            return Some(Action::CycleNoteDisplay);
        }
        if let Mode::ResizeSidebar { .. } = self.mode {
            return match key.code {
                KeyCode::Left => Some(Action::ResizeSidebar(if m.shift { -5 } else { -1 })),
                KeyCode::Right => Some(Action::ResizeSidebar(if m.shift { 5 } else { 1 })),
                KeyCode::Char(c) => if c == 'r' && m.is_empty() {
                    Some(Action::ResetSidebarWidth)
                } else if c == 'b' && m.control {
                    Some(Action::ConfirmResizeSidebar)
                } else {
                    None
                },
                KeyCode::Enter => Some(Action::ConfirmResizeSidebar),
                KeyCode::Esc => Some(Action::CancelResizeSidebar),
                _ => None,
            };
        }
        if searching && key.code == KeyCode::Tab {
            self.filter = self.input.text().to_string();
            self.input.clear();
            self.mode = Mode::MultiSelect {
                cmd: MultiSelectCmd::PickAction,
                selected: Vec::new(),
                selected_categories: Vec::new(),
            };
            self.pane = Pane::Items;
            self.clamp_selection();
            return None;
        }
        if searching && m.control {
            let items = self.items();
            let idx = self.selected_index();
            if idx < items.len() {
                let id = items[idx].id;
                match key.code {
                    KeyCode::Char(c) => {
                        if c == 'p' || c == 'P' {
                            return Some(Action::CyclePriority(id));
                        } else if c == '*' {
                            return Some(Action::TogglePin(id));
                        } else if c == 'e' {
                            self.saved_search = Some(self.input.text().to_string());
                            return Some(Action::EditItem(id));
                        } else if c == 'o' {
                            self.saved_search = Some(self.input.text().to_string());
                            self.input.clear();
                            return Some(Action::OpenCategoryPicker);
                        }
                    },
                    KeyCode::Up => return Some(Action::Reorder(id, -1)),
                    KeyCode::Down => return Some(Action::Reorder(id, 1)),
                    _ => {},
                }
            }
        }
        let pane_mode = match self.mode {
            Mode::Normal | Mode::MultiSelect { .. } => true,
            _ => false,
        };
        if pane_mode {
            match key.code {
                KeyCode::Left => if self.pane == Pane::Items {
                    return Some(Action::SwitchPane);
                },
                KeyCode::Right => if self.pane == Pane::Categories {
                    return Some(Action::SwitchPane);
                },
                KeyCode::Tab => if m.is_empty() {
                    return Some(Action::SwitchPane);
                },
                KeyCode::PageUp => return Some(Action::SwitchCategoryFilter(-1, true)),
                KeyCode::PageDown => return Some(Action::SwitchCategoryFilter(1, true)),
                _ => {},
            }
        }
        let in_command = match self.mode {
            Mode::Command { .. } => true,
            _ => false,
        };
        let popup_list = is_popup_list_mode(&self.mode);
        if m.is_empty() {
            match key.code {
                KeyCode::Right => {
                    let a = self.popup_list_enter_action();
                    if a.is_some() {
                        return a;
                    }
                },
                KeyCode::Left => {
                    if in_command {
                        self.command_back(false);
                        return None;
                    }
                    if popup_list {
                        return Some(Action::PopupBack);
                    }
                },
                KeyCode::Backspace => {
                    if in_command {
                        self.command_back(true);
                        return None;
                    }
                    if popup_list {
                        return Some(Action::PopupBack);
                    }
                },
                _ => {},
            }
        }
        self.mode_key(key)
    }

    /// Going back in the command palette (Left, or Backspace with
    /// `only_if_typed`): to where the palette was opened from, else to the
    /// full command list.
    fn command_back(&mut self, only_if_typed: bool)
        requires
            old(self).mode is Command,
        ensures
            *final(self) == (App {
                input: final(self).input,
                mode: final(self).mode,
                completions: final(self).completions,
                completion_index: final(self).completion_index,
                popup_back_stack: final(self).popup_back_stack,
                ..*old(self)
            }),
            command_backed(*old(self), *final(self), only_if_typed),
    {
        if only_if_typed && self.input.is_empty() {
            return;
        }
        match self.pop_popup_back_target_mode() {
            Some(mode) => {
                self.mode = mode;
            },
            None => {
                if only_if_typed || !self.input.is_empty() {
                    self.input.clear();
                    self.completions.clear();
                    self.completion_index = 0;
                    self.mode = Mode::Command { selected: 0 };
                }
            },
        }
    }

    /// The keys of the screen in front.
    #[verifier::rlimit(60)]
    #[verifier::spinoff_prover]
    fn mode_key(&mut self, key: KeyEvent) -> (r: Option<Action>)
        requires
            old(self).today.valid(),
        ensures
            *final(self) == (App {
                input: final(self).input,
                mode: final(self).mode,
                filter: final(self).filter,
                completions: final(self).completions,
                completion_index: final(self).completion_index,
                ..*old(self)
            }),
            old(self).mode is Notes ==> r == notes_key(key) && *final(self) == *old(self),
            old(self).mode is ConfirmDelete ==> r == confirm_delete_key(key.code) && *final(self) == *old(self),
            prompt_screen_key(*old(self), key) matches Some((act, w)) ==> r == act && final(self).input@ == w
                && *final(self) == (App { input: final(self).input, ..*old(self) }),
            old(self).mode is Searching ==> searched(*old(self), *final(self), key, r),
            old(self).mode is MultiSelect && old(self).pane == Pane::Items ==> r == crate::keys::multiselect_key(
                key,
                shown_id(*old(self), old(self).selected_index as int),
            ) && *final(self) == *old(self),
            old(self).mode is Normal && old(self).pane == Pane::Items ==> r == normal_key(
                key,
                shown_id(*old(self), old(self).selected_index as int),
            ) && *final(self) == *old(self),
            old(self).mode is Normal && old(self).pane == Pane::Categories ==> sidebar_keyed(*old(self), key, r)
                && *final(self) == *old(self),
            old(self).mode is MultiSelect && old(self).pane == Pane::Categories ==> sidebar_multiselect_keyed(
                *old(self),
                key,
                r,
            ) && *final(self) == *old(self),
            match old(self).mode {
                Mode::ThemePicker { selected, .. } => r == (if key.code is Enter {
                    Some(Action::ThemeSelect(selected))
                } else {
                    crate::keys::nav_key(key.code, Action::CancelThemePicker)
                }) && *final(self) == *old(self),
                Mode::PriorityPicker { selected } => r == (if key.code is Enter {
                    Some(Action::PrioritySelect(selected))
                } else {
                    crate::keys::nav_key(key.code, Action::CancelPriorityPicker)
                }) && *final(self) == *old(self),
                Mode::ArchivePicker { selected } => r == (if key.code is Enter {
                    Some(Action::ArchiveSelect(selected))
                } else {
                    crate::keys::nav_key(key.code, Action::CancelArchivePicker)
                }) && *final(self) == *old(self),
                Mode::BulkActionPicker { selected, .. } => r == (if key.code is Enter {
                    Some(Action::BulkActionSelect(selected))
                } else {
                    crate::keys::nav_key(key.code, Action::CancelBulkActionPicker)
                }) && *final(self) == *old(self),
                Mode::FilterPicker { selected } => r == (if key.code is Enter {
                    Some(Action::FilterSelect(selected))
                } else {
                    crate::keys::nav_key(key.code, Action::CancelFilterPicker)
                }) && *final(self) == *old(self),
                Mode::DueDateFilterPicker { selected } => r == (if key.code is Enter {
                    Some(Action::DueDateFilterSelect(selected))
                } else {
                    crate::keys::nav_key(key.code, Action::CancelDueDateFilterPicker)
                }) && *final(self) == *old(self),
                Mode::Command { selected } => !((key.code is Left || key.code is Backspace) && key.modifiers
                    == KeyModifiers::spec_none()) && !(key.code is Right && key.modifiers == KeyModifiers::spec_none()
                    && crate::commands::resolved(old(self).input@.text, selected) is Some) ==> command_keyed(
                    *old(self),
                    *final(self),
                    key,
                    selected,
                    r,
                ),
                Mode::CategoryPicker { selected, target } => !popup_nav(key) ==> category_picked(
                    *old(self),
                    *final(self),
                    key,
                    selected,
                    target,
                    r,
                ),
                Mode::CategoryFilterPicker { selected } => !popup_nav(key) ==> r == popup_key(
                    key,
                    Action::CategoryFilterSelect(selected),
                    category_filter_rest(key.code, selected),
                ) && *final(self) == *old(self),
                Mode::CategoryCreateChoice { .. } => !popup_nav(key) ==> r == popup_key(
                    key,
                    Action::AddCategoryChoice(usize::MAX),
                    create_choice_key(key.code),
                ) && *final(self) == *old(self),
                Mode::CategoryParentPicker { .. } => !popup_nav(key) ==> r == popup_key(
                    key,
                    Action::SelectCategoryParent(usize::MAX),
                    parent_picker_key(key.code),
                ) && *final(self) == *old(self),
                Mode::SortPicker { selected, .. } => !popup_nav(key) ==> r == popup_key(
                    key,
                    Action::SortSelect(selected),
                    sort_picker_key(key.code),
                ) && *final(self) == *old(self),
                Mode::CategoryAdd { .. } => category_add_keyed(*old(self), *final(self), key, r),
                _ => true,
            },
    {
        let enter = key.code == KeyCode::Enter;
        match self.mode {
            Mode::Normal => {
                if self.pane == Pane::Categories {
                    let entries = self.category_entries();
                    handle_sidebar(key, entries.as_slice(), self.category_index)
                } else {
                    let items = self.items();
                    handle_normal(key, items.as_slice(), self.selected_index)
                }
            },
            Mode::Editing { edit_id } => {
                let action = handle_editing(key, &mut self.input);
                if edit_id.is_none() && action.is_none() && self.input.is_empty() {
                    Some(Action::CancelEdit)
                } else {
                    action
                }
            },
            Mode::RenameInput { .. } => {
                if enter {
                    Some(Action::SubmitRename)
                } else if key.code == KeyCode::Esc {
                    Some(Action::CancelEdit)
                } else {
                    handle_editing(key, &mut self.input)
                }
            },
            Mode::Searching => {
                let action = handle_search(key, &mut self.input);
                self.filter = self.input.text().to_string();
                action
            },
            Mode::Command { selected } => self.command_mode_key(key, selected),
            Mode::MultiSelect { .. } => {
                if self.pane == Pane::Categories {
                    let entries = self.category_entries();
                    handle_category_multiselect(key, entries.as_slice(), self.category_index)
                } else {
                    let items = self.items();
                    handle_multiselect(key, items.as_slice(), self.selected_index)
                }
            },
            Mode::ThemePicker { selected, .. } => {
                let action = handle_theme_picker(key);
                if action.is_none() && enter {
                    Some(Action::ThemeSelect(selected))
                } else {
                    action
                }
            },
            Mode::PriorityPicker { selected } => {
                let action = handle_priority_picker(key);
                if action.is_none() && enter {
                    Some(Action::PrioritySelect(selected))
                } else {
                    action
                }
            },
            Mode::CategoryPicker { .. } => self.category_picker_mode_key(key),
            Mode::CategoryFilterPicker { selected } => {
                let action = handle_category_picker(key);
                if action.is_none() {
                    match key.code {
                        KeyCode::Backspace => Some(Action::CategoryFilterParent(selected)),
                        KeyCode::Enter => Some(Action::CategoryFilterSelect(selected)),
                        _ => None,
                    }
                } else {
                    action
                }
            },
            Mode::CategoryCreateChoice { .. } => handle_category_create_choice(key),
            Mode::CategoryParentPicker { .. } => handle_category_parent_picker(key),
            Mode::CategoryAdd { .. } => {
                let action = handle_category_add(key, &mut self.input);
                if action.is_none() && self.input.is_empty() {
                    Some(Action::CancelCategoryAdd)
                } else {
                    action
                }
            },
            Mode::SortPicker { selected, .. } => {
                let action = handle_sort_picker(key);
                if action.is_none() && enter {
                    Some(Action::SortSelect(selected))
                } else {
                    action
                }
            },
            Mode::ArchivePicker { selected } => {
                let action = handle_archive_picker(key);
                if action.is_none() && enter {
                    Some(Action::ArchiveSelect(selected))
                } else {
                    action
                }
            },
            Mode::BulkActionPicker { selected, .. } => {
                let action = handle_bulk_action_picker(key);
                if action.is_none() && enter {
                    Some(Action::BulkActionSelect(selected))
                } else {
                    action
                }
            },
            Mode::FilterPicker { selected } => {
                let action = handle_filter_picker(key);
                if action.is_none() && enter {
                    Some(Action::FilterSelect(selected))
                } else {
                    action
                }
            },
            Mode::DueDateFilterPicker { selected } => {
                let action = handle_due_date_filter_picker(key);
                if action.is_none() && enter {
                    Some(Action::DueDateFilterSelect(selected))
                } else {
                    action
                }
            },
            Mode::ConfirmDelete { .. } => handle_confirm_delete(key),
            Mode::DueDateCalendar { prompt_focused, .. } => handle_due_date_calendar(
                key,
                &mut self.input,
                prompt_focused,
            ),
            Mode::Notes { .. } => handle_notes(key),
            Mode::NoteInput { .. } => handle_note_input(key, &mut self.input),
            Mode::Help | Mode::Keybindings => match key.code {
                KeyCode::Esc => Some(Action::CancelEdit),
                KeyCode::Char(c) => if c == 'q' {
                    Some(Action::CancelEdit)
                } else {
                    None
                },
                _ => None,
            },
            Mode::ResizeSidebar { .. } => None,
        }
    }

    /// The keys of the command palette highlighting `selected`, past the
    /// ones that going back and Right take first.
    fn command_mode_key(&mut self, key: KeyEvent, selected: usize) -> (r: Option<Action>)
        requires
            old(self).mode == (Mode::Command { selected }),
        ensures
            *final(self) == (App {
                input: final(self).input,
                mode: final(self).mode,
                completions: final(self).completions,
                completion_index: final(self).completion_index,
                ..*old(self)
            }),
            !((key.code is Left || key.code is Backspace) && key.modifiers == KeyModifiers::spec_none()) && !(
            key.code is Right && key.modifiers == KeyModifiers::spec_none() && crate::commands::resolved(
                old(self).input@.text,
                selected,
            ) is Some) ==> command_keyed(*old(self), *final(self), key, selected, r),
    {
        if key.code == KeyCode::Enter {
            return match resolve_command_input(self.input.text(), selected) {
                Some(c) => Some(Action::ExecuteCommand(c)),
                None => None,
            };
        }
        match key.code {
            KeyCode::Tab => return Some(Action::TabComplete),
            KeyCode::Up => return if key.modifiers.is_empty() {
                Some(Action::SelectPrev)
            } else {
                None
            },
            KeyCode::Down => return Some(Action::SelectNext),
            _ => {},
        }
        let action = handle_command(key, &mut self.input);
        if action.is_some() {
            self.completions.clear();
            self.completion_index = 0;
        } else if let KeyCode::Char(_) = key.code {
            self.completions.clear();
            self.completion_index = 0;
            self.mode = Mode::Command { selected: 0 };
        }
        action
    }

    /// The keys of the category picker, past the ones that going back and
    /// Right take first.
    fn category_picker_mode_key(&mut self, key: KeyEvent) -> (r: Option<Action>)
        requires
            old(self).mode is CategoryPicker,
        ensures
            *final(self) == (App { input: final(self).input, ..*old(self) }),
            match old(self).mode {
                Mode::CategoryPicker { selected, target } => !popup_nav(key) ==> category_picked(
                    *old(self),
                    *final(self),
                    key,
                    selected,
                    target,
                    r,
                ),
                _ => true,
            },
    {
        let (selected, is_move, assign_item) = match &self.mode {
            Mode::CategoryPicker { selected, target } => match target {
                CategoryPickerTarget::MoveCategory(_) => (*selected, true, false),
                CategoryPickerTarget::AssignItem => (*selected, false, true),
                _ => (*selected, false, false),
            },
            _ => (0, false, false),
        };
        let nav_action = handle_category_picker(key);
        if nav_action.is_some() {
            return nav_action;
        }
        match key.code {
            KeyCode::Enter => {
                if self.input.is_empty() || is_move {
                    Some(Action::CategorySelect(selected))
                } else {
                    Some(Action::CreateAndAssignCategory(self.input.text().to_string()))
                }
            },
            KeyCode::Char(c) => {
                if assign_item && !key.modifiers.control && !key.modifiers.alt {
                    self.input.insert_char(c);
                }
                None
            },
            _ => None,
        }
    }
}

} // verus!
