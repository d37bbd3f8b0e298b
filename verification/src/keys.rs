//! Keys: what a key press is, how a prompt edits its text on one, and
//! which action each screen maps a key to.

use vstd::prelude::*;

use crate::data::{CategoryEntry, TodoItem};
use crate::defs::Action;
use crate::text::{chars_of, is_ascii_digit, string_of};
use crate::input::{
    view_backspace, view_delete, view_delete_word_back, view_delete_word_forward, view_end, view_home,
    view_insert, view_left, view_right, view_word_left, view_word_right, InputBuffer, InputView,
};

verus! {

/// The key that was pressed.
#[derive(Clone, Copy, PartialEq, Eq, Structural, Debug)]
pub enum KeyCode {
    Char(char),
    Enter,
    Esc,
    Tab,
    BackTab,
    Backspace,
    Delete,
    Insert,
    Left,
    Right,
    Up,
    Down,
    Home,
    End,
    PageUp,
    PageDown,
    /// Any key the screens do not map (function keys, media keys, ...).
    Other,
}

/// The modifier keys held with a key: `other` stands for any modifier
/// besides Control, Alt and Shift.
#[derive(Clone, Copy, PartialEq, Eq, Structural, Debug)]
pub struct KeyModifiers {
    pub control: bool,
    pub alt: bool,
    pub shift: bool,
    pub other: bool,
}

/// A key press with its modifiers.
#[derive(Clone, Copy, PartialEq, Eq, Structural, Debug)]
pub struct KeyEvent {
    pub code: KeyCode,
    pub modifiers: KeyModifiers,
}

impl KeyModifiers {
    /// No modifier held.
    pub open spec fn spec_none() -> KeyModifiers {
        KeyModifiers { control: false, alt: false, shift: false, other: false }
    }

    /// Control and nothing else held.
    pub open spec fn spec_control() -> KeyModifiers {
        KeyModifiers { control: true, ..Self::spec_none() }
    }

    /// Control and Shift and nothing else held.
    pub open spec fn spec_control_shift() -> KeyModifiers {
        KeyModifiers { control: true, shift: true, ..Self::spec_none() }
    }

    /// No modifier held.
    pub fn none() -> (r: KeyModifiers)
        ensures
            r == Self::spec_none(),
    {
        KeyModifiers { control: false, alt: false, shift: false, other: false }
    }

    /// Control alone.
    pub fn control() -> (r: KeyModifiers)
        ensures
            r == Self::spec_control(),
    {
        KeyModifiers { control: true, alt: false, shift: false, other: false }
    }

    /// Shift alone.
    pub fn shift() -> (r: KeyModifiers)
        ensures
            r == (KeyModifiers { shift: true, ..Self::spec_none() }),
    {
        KeyModifiers { control: false, alt: false, shift: true, other: false }
    }

    /// Alt alone.
    pub fn alt() -> (r: KeyModifiers)
        ensures
            r == (KeyModifiers { alt: true, ..Self::spec_none() }),
    {
        KeyModifiers { control: false, alt: true, shift: false, other: false }
    }

    /// Control and Shift.
    pub fn control_shift() -> (r: KeyModifiers)
        ensures
            r == Self::spec_control_shift(),
    {
        KeyModifiers { control: true, alt: false, shift: true, other: false }
    }

    /// Whether no modifier is held.
    pub fn is_empty(&self) -> (r: bool)
        ensures
            r == (*self == Self::spec_none()),
    {
        !self.control && !self.alt && !self.shift && !self.other
    }

    /// Whether exactly Control is held.
    pub fn is_control_only(&self) -> (r: bool)
        ensures
            r == (*self == Self::spec_control()),
    {
        self.control && !self.alt && !self.shift && !self.other
    }
}

impl KeyEvent {
    /// A key press.
    pub fn new(code: KeyCode, modifiers: KeyModifiers) -> (r: KeyEvent)
        ensures
            r == (KeyEvent { code, modifiers }),
    {
        KeyEvent { code, modifiers }
    }
}

/// Whether a character typed with `m` is text: neither Control nor Alt is
/// held.
pub open spec fn typed(m: KeyModifiers) -> bool {
    !m.control && !m.alt
}

/// How a text prompt changes on `key`, or `None` when the prompt does not
/// take the key. Backspace and Delete remove a character, or a word with
/// Control; the arrows move by a character, or by a word with Control or
/// Alt; Home goes to the start, End to the end; Control with
/// `a`, `e`, `h` or `w` go to the start, go to the end, and remove the word
/// before the cursor; any other character without Control or Alt is typed.
pub open spec fn key_edit(key: KeyEvent, v: InputView) -> Option<InputView> {
    let m = key.modifiers;
    match key.code {
        KeyCode::Backspace => Some(if m.control { view_delete_word_back(v) } else { view_backspace(v) }),
        KeyCode::Delete => Some(if m.control { view_delete_word_forward(v) } else { view_delete(v) }),
        KeyCode::Left => Some(if m.control || m.alt { view_word_left(v) } else { view_left(v) }),
        KeyCode::Right => Some(if m.control || m.alt { view_word_right(v) } else { view_right(v) }),
        KeyCode::Home => Some(view_home(v)),
        KeyCode::End => Some(view_end(v)),
        KeyCode::Char(c) => if m == KeyModifiers::spec_control() {
            if c == 'a' {
                Some(view_home(v))
            } else if c == 'e' {
                Some(view_end(v))
            } else if c == 'h' || c == 'w' {
                Some(view_delete_word_back(v))
            } else {
                None
            }
        } else if typed(m) {
            Some(view_insert(v, c))
        } else {
            None
        },
        _ => None,
    }
}

/// Edits `input` by `key` as `key_edit` says, and returns whether the
/// prompt took the key.
pub fn handle_text_input_key(key: KeyEvent, input: &mut InputBuffer) -> (r: bool)
    ensures
        r == key_edit(key, old(input)@) is Some,
        r ==> final(input)@ == key_edit(key, old(input)@)->0,
        !r ==> final(input)@ == old(input)@,
{
    let m = key.modifiers;
    match key.code {
        KeyCode::Backspace => {
            if m.control {
                input.delete_word_back();
            } else {
                input.backspace();
            }
            true
        },
        KeyCode::Delete => {
            if m.control {
                input.delete_word_forward();
            } else {
                input.delete();
            }
            true
        },
        KeyCode::Left => {
            if m.control || m.alt {
                input.move_word_left();
            } else {
                input.move_left();
            }
            true
        },
        KeyCode::Right => {
            if m.control || m.alt {
                input.move_word_right();
            } else {
                input.move_right();
            }
            true
        },
        KeyCode::Home => {
            input.move_home();
            true
        },
        KeyCode::End => {
            input.move_end();
            true
        },
        KeyCode::Char(c) => {
            if m.is_control_only() {
                if c == 'a' {
                    input.move_home();
                    true
                } else if c == 'e' {
                    input.move_end();
                    true
                } else if c == 'h' || c == 'w' {
                    input.delete_word_back();
                    true
                } else {
                    false
                }
            } else if !m.control && !m.alt {
                input.insert_char(c);
                true
            } else {
                false
            }
        },
        _ => false,
    }
}


/// The list keys of a popup: Up and Down move the highlight and Esc does
/// `cancel`.
pub open spec fn nav_key(code: KeyCode, cancel: Action) -> Option<Action> {
    match code {
        KeyCode::Up => Some(Action::SelectPrev),
        KeyCode::Down => Some(Action::SelectNext),
        KeyCode::Esc => Some(cancel),
        _ => None,
    }
}

/// The id of the item at `idx` of `items`, if there is one.
pub open spec fn id_at(items: Seq<&TodoItem>, idx: int) -> Option<u64> {
    if 0 <= idx < items.len() {
        Some(items[idx].id)
    } else {
        None
    }
}

/// The action of `key` on the item list with `sel` highlighted: Up and
/// Down move; Control (or Alt) with them moves the item; Enter marks it
/// done, Space in progress; Control-E edits it (or starts a new one on an
/// empty list); Delete asks to delete it; Control-P cycles its priority;
/// `*` pins it; Control-O files it; `/` opens the command palette; any
/// other character typed starts a new item with it.
pub open spec fn normal_key(key: KeyEvent, sel: Option<u64>) -> Option<Action> {
    let m = key.modifiers;
    match key.code {
        KeyCode::Up => if !m.alt && !m.control {
            Some(Action::SelectPrev)
        } else {
            match sel {
                Some(id) => Some(Action::Reorder(id, -1i32)),
                None => None,
            }
        },
        KeyCode::Down => if !m.alt && !m.control {
            Some(Action::SelectNext)
        } else {
            match sel {
                Some(id) => Some(Action::Reorder(id, 1i32)),
                None => None,
            }
        },
        KeyCode::Enter => match sel {
            Some(id) => Some(Action::ToggleDone(id)),
            None => None,
        },
        KeyCode::Delete => match sel {
            Some(id) => Some(Action::DeleteItem(id)),
            None => None,
        },
        KeyCode::Char(c) => if c == '*' {
            match sel {
                Some(id) => Some(Action::TogglePin(id)),
                None => None,
            }
        } else if m.control && !m.alt {
            if c == 'e' {
                match sel {
                    Some(id) => Some(Action::EditItem(id)),
                    None => Some(Action::StartNewItem),
                }
            } else if c == 'p' || c == 'P' {
                match sel {
                    Some(id) => Some(Action::CyclePriority(id)),
                    None => None,
                }
            } else if c == 'o' {
                Some(Action::OpenCategoryPicker)
            } else {
                None
            }
        } else if m.alt {
            None
        } else if c == ' ' {
            match sel {
                Some(id) => Some(Action::ToggleDoing(id)),
                None => None,
            }
        } else if c == '/' {
            Some(Action::StartCommand)
        } else {
            Some(Action::StartNewItemWithChar(c))
        },
        _ => None,
    }
}

/// The action of `key` on the item list, with the item at `selected_index`
/// of `items` highlighted, as `normal_key` says.
pub fn handle_normal(key: KeyEvent, items: &[&TodoItem], selected_index: usize) -> (r: Option<Action>)
    ensures
        r == normal_key(key, id_at(items@, selected_index as int)),
{
    let sel: Option<u64> = if selected_index < items.len() {
        Some(items[selected_index].id)
    } else {
        None
    };
    let m = key.modifiers;
    match key.code {
        KeyCode::Up => if !m.alt && !m.control {
            Some(Action::SelectPrev)
        } else {
            match sel {
                Some(id) => Some(Action::Reorder(id, -1)),
                None => None,
            }
        },
        KeyCode::Down => if !m.alt && !m.control {
            Some(Action::SelectNext)
        } else {
            match sel {
                Some(id) => Some(Action::Reorder(id, 1)),
                None => None,
            }
        },
        KeyCode::Enter => match sel {
            Some(id) => Some(Action::ToggleDone(id)),
            None => None,
        },
        KeyCode::Delete => match sel {
            Some(id) => Some(Action::DeleteItem(id)),
            None => None,
        },
        KeyCode::Char(c) => if c == '*' {
            match sel {
                Some(id) => Some(Action::TogglePin(id)),
                None => None,
            }
        } else if m.control && !m.alt {
            if c == 'e' {
                match sel {
                    Some(id) => Some(Action::EditItem(id)),
                    None => Some(Action::StartNewItem),
                }
            } else if c == 'p' || c == 'P' {
                match sel {
                    Some(id) => Some(Action::CyclePriority(id)),
                    None => None,
                }
            } else if c == 'o' {
                Some(Action::OpenCategoryPicker)
            } else {
                None
            }
        } else if m.alt {
            None
        } else if c == ' ' {
            match sel {
                Some(id) => Some(Action::ToggleDoing(id)),
                None => None,
            }
        } else if c == '/' {
            Some(Action::StartCommand)
        } else {
            Some(Action::StartNewItemWithChar(c))
        },
        _ => None,
    }
}

/// The command prompt: Enter runs the typed text, Esc clears it and
/// leaves, and any other key edits it.
pub fn handle_command(key: KeyEvent, input: &mut InputBuffer) -> (r: Option<Action>)
    ensures
        key.code is Enter ==> final(input)@ == old(input)@ && (r matches Some(Action::ExecuteCommand(c))
            && c@ == old(input)@.text),
        key.code is Esc ==> r == Some(Action::CancelEdit) && final(input)@ == (InputView {
            text: Seq::empty(),
            cursor: 0,
        }),
        !(key.code is Enter) && !(key.code is Esc) ==> r is None && final(input)@ == match key_edit(key, old(input)@) {
            Some(v) => v,
            None => old(input)@,
        },
{
    match key.code {
        KeyCode::Enter => {
            let cmd = input.text().to_string();
            Some(Action::ExecuteCommand(cmd))
        },
        KeyCode::Esc => {
            input.clear();
            Some(Action::CancelEdit)
        },
        _ => {
            handle_text_input_key(key, input);
            None
        },
    }
}

/// The keys of bulk selection on the item list: Up and Down move,
/// Control-A picks everything, Space picks or drops the highlighted item,
/// Enter goes on with the picked ones and Esc leaves.
pub open spec fn multiselect_key(key: KeyEvent, sel: Option<u64>) -> Option<Action> {
    match key.code {
        KeyCode::Up => Some(Action::SelectPrev),
        KeyCode::Down => Some(Action::SelectNext),
        KeyCode::Char(c) => if c == 'a' && key.modifiers.control {
            Some(Action::SelectAllMultiSelect)
        } else if c == ' ' {
            match sel {
                Some(id) => Some(Action::ToggleMultiSelect(id)),
                None => None,
            }
        } else {
            None
        },
        KeyCode::Enter => Some(Action::ConfirmMultiSelect),
        KeyCode::Esc => Some(Action::CancelMultiSelect),
        _ => None,
    }
}

/// Bulk selection on the item list, as `multiselect_key` says.
pub fn handle_multiselect(key: KeyEvent, items: &[&TodoItem], selected_index: usize) -> (r: Option<Action>)
    ensures
        r == multiselect_key(key, id_at(items@, selected_index as int)),
{
    let sel: Option<u64> = if selected_index < items.len() {
        Some(items[selected_index].id)
    } else {
        None
    };
    match key.code {
        KeyCode::Up => Some(Action::SelectPrev),
        KeyCode::Down => Some(Action::SelectNext),
        KeyCode::Char(c) => if c == 'a' && key.modifiers.control {
            Some(Action::SelectAllMultiSelect)
        } else if c == ' ' {
            match sel {
                Some(id) => Some(Action::ToggleMultiSelect(id)),
                None => None,
            }
        } else {
            None
        },
        KeyCode::Enter => Some(Action::ConfirmMultiSelect),
        KeyCode::Esc => Some(Action::CancelMultiSelect),
        _ => None,
    }
}

/// Bulk selection in the sidebar: as on the item list, Space picking or
/// dropping the highlighted category (row `category_index`, whose category
/// is `categories[category_index - 1]`).
pub fn handle_category_multiselect(key: KeyEvent, categories: &[CategoryEntry], category_index: usize) -> (r: Option<Action>)
    ensures
        key.code == KeyCode::Char(' ') ==> if 0 < category_index <= categories@.len() {
            r matches Some(Action::ToggleCategoryMultiSelect(name)) && name@ == categories@[category_index - 1].path@
        } else {
            r is None
        },
        key.code != KeyCode::Char(' ') ==> r == multiselect_key(key, None),
{
    match key.code {
        KeyCode::Up => Some(Action::SelectPrev),
        KeyCode::Down => Some(Action::SelectNext),
        KeyCode::Char(c) => if c == 'a' && key.modifiers.control {
            Some(Action::SelectAllMultiSelect)
        } else if c == ' ' {
            if category_index > 0 && category_index <= categories.len() {
                Some(Action::ToggleCategoryMultiSelect(categories[category_index - 1].path.clone()))
            } else {
                None
            }
        } else {
            None
        },
        KeyCode::Enter => Some(Action::ConfirmMultiSelect),
        KeyCode::Esc => Some(Action::CancelMultiSelect),
        _ => None,
    }
}

/// The item prompt: Enter saves, Esc leaves, Control-D opens the calendar,
/// Control-Shift-V pastes, and any other key edits the text.
pub open spec fn editing_key(key: KeyEvent) -> Option<Action> {
    match key.code {
        KeyCode::Enter => Some(Action::SubmitEdit),
        KeyCode::Esc => Some(Action::CancelEdit),
        KeyCode::Char(c) => if key.modifiers.control && c == 'd' {
            Some(Action::SetDueDate)
        } else if key.modifiers == KeyModifiers::spec_control_shift() && c == 'V' {
            Some(Action::Paste)
        } else {
            None
        },
        _ => None,
    }
}

/// How the item prompt's text changes on a key that gives no action: Up
/// goes to the start, Down to the end, other keys as `key_edit` says.
pub open spec fn editing_input(key: KeyEvent, v: InputView) -> InputView {
    if key.code is Up {
        view_home(v)
    } else if key.code is Down {
        view_end(v)
    } else {
        match key_edit(key, v) {
            Some(w) => w,
            None => v,
        }
    }
}

/// The item prompt, as `editing_key` says; a key that gives no action
/// edits the text, as `editing_input` says.
pub fn handle_editing(key: KeyEvent, input: &mut InputBuffer) -> (r: Option<Action>)
    ensures
        r == editing_key(key),
        r is Some ==> final(input)@ == old(input)@,
        r is None ==> final(input)@ == editing_input(key, old(input)@),
{
    match key.code {
        KeyCode::Enter => Some(Action::SubmitEdit),
        KeyCode::Esc => Some(Action::CancelEdit),
        _ => {
            if key.modifiers.control && key.code == KeyCode::Char('d') {
                return Some(Action::SetDueDate);
            }
            if key.modifiers.control && key.modifiers.shift && !key.modifiers.alt && !key.modifiers.other
                && key.code == KeyCode::Char('V') {
                return Some(Action::Paste);
            }
            if key.code == KeyCode::Up {
                input.move_home();
            } else if key.code == KeyCode::Down {
                input.move_end();
            } else {
                handle_text_input_key(key, input);
            }
            None
        },
    }
}

/// The delete confirmation: Enter or `y` deletes, `a` archives instead,
/// `n` or Esc keeps; other keys do nothing.
pub open spec fn confirm_delete_key(code: KeyCode) -> Option<Action> {
    match code {
        KeyCode::Enter => Some(Action::ConfirmDeleteYes),
        KeyCode::Esc => Some(Action::ConfirmDeleteNo),
        KeyCode::Char(c) => if c == 'y' || c == 'Y' {
            Some(Action::ConfirmDeleteYes)
        } else if c == 'n' || c == 'N' {
            Some(Action::ConfirmDeleteNo)
        } else if c == 'a' || c == 'A' {
            Some(Action::ConfirmDeleteArchive)
        } else {
            None
        },
        _ => None,
    }
}

/// The delete confirmation, as `confirm_delete_key` says.
pub fn handle_confirm_delete(key: KeyEvent) -> (r: Option<Action>)
    ensures
        r == confirm_delete_key(key.code),
{
    match key.code {
        KeyCode::Enter => Some(Action::ConfirmDeleteYes),
        KeyCode::Esc => Some(Action::ConfirmDeleteNo),
        KeyCode::Char(c) => if c == 'y' || c == 'Y' {
            Some(Action::ConfirmDeleteYes)
        } else if c == 'n' || c == 'N' {
            Some(Action::ConfirmDeleteNo)
        } else if c == 'a' || c == 'A' {
            Some(Action::ConfirmDeleteArchive)
        } else {
            None
        },
        _ => None,
    }
}

fn nav(code: KeyCode, cancel: Action) -> (r: Option<Action>)
    ensures
        r == nav_key(code, cancel),
{
    match code {
        KeyCode::Up => Some(Action::SelectPrev),
        KeyCode::Down => Some(Action::SelectNext),
        KeyCode::Esc => Some(cancel),
        _ => None,
    }
}

/// The theme picker's list keys.
pub fn handle_theme_picker(key: KeyEvent) -> (r: Option<Action>)
    ensures
        r == nav_key(key.code, Action::CancelThemePicker),
{
    nav(key.code, Action::CancelThemePicker)
}

/// The priority filter picker's list keys.
pub fn handle_priority_picker(key: KeyEvent) -> (r: Option<Action>)
    ensures
        r == nav_key(key.code, Action::CancelPriorityPicker),
{
    nav(key.code, Action::CancelPriorityPicker)
}

/// The archive menu's list keys.
pub fn handle_archive_picker(key: KeyEvent) -> (r: Option<Action>)
    ensures
        r == nav_key(key.code, Action::CancelArchivePicker),
{
    nav(key.code, Action::CancelArchivePicker)
}

/// The filter menu's list keys.
pub fn handle_filter_picker(key: KeyEvent) -> (r: Option<Action>)
    ensures
        r == nav_key(key.code, Action::CancelFilterPicker),
{
    nav(key.code, Action::CancelFilterPicker)
}

/// The due filter picker's list keys.
pub fn handle_due_date_filter_picker(key: KeyEvent) -> (r: Option<Action>)
    ensures
        r == nav_key(key.code, Action::CancelDueDateFilterPicker),
{
    nav(key.code, Action::CancelDueDateFilterPicker)
}

/// The category picker's list keys.
pub fn handle_category_picker(key: KeyEvent) -> (r: Option<Action>)
    ensures
        r == nav_key(key.code, Action::CancelCategoryPicker),
{
    nav(key.code, Action::CancelCategoryPicker)
}

/// The bulk action menu's list keys.
pub fn handle_bulk_action_picker(key: KeyEvent) -> (r: Option<Action>)
    ensures
        r == nav_key(key.code, Action::CancelBulkActionPicker),
{
    nav(key.code, Action::CancelBulkActionPicker)
}

/// The sidebar with row `category_index` highlighted (row 0 is "All", row
/// `i` the category `categories[i - 1]`): Up and Down move, Enter filters
/// by the row (by "All" past the end), Delete asks to delete the
/// highlighted category, and a typed character starts a new category with
/// it.
pub fn handle_sidebar(key: KeyEvent, categories: &[CategoryEntry], category_index: usize) -> (r: Option<Action>)
    ensures
        key.code is Up ==> r == Some(Action::SelectPrev),
        key.code is Down ==> r == Some(Action::SelectNext),
        key.code is Enter ==> r == Some(Action::CategorySelect(
            if category_index <= categories@.len() { category_index } else { 0 },
        )),
        key.code is Delete ==> if 0 < category_index <= categories@.len() {
            r matches Some(Action::DeleteCategory(name)) && name@ == categories@[category_index - 1].path@
        } else {
            r is None
        },
        key.code matches KeyCode::Char(c) ==> r == if typed(key.modifiers) {
            Some(Action::StartCategoryAddWithChar(c))
        } else {
            None
        },
        !(key.code is Up || key.code is Down || key.code is Enter || key.code is Delete || key.code is Char) ==> r is None,
{
    match key.code {
        KeyCode::Up => Some(Action::SelectPrev),
        KeyCode::Down => Some(Action::SelectNext),
        KeyCode::Enter => {
            if category_index <= categories.len() {
                Some(Action::CategorySelect(category_index))
            } else {
                Some(Action::CategorySelect(0))
            }
        },
        KeyCode::Delete => {
            if category_index > 0 && category_index <= categories.len() {
                Some(Action::DeleteCategory(categories[category_index - 1].path.clone()))
            } else {
                None
            }
        },
        KeyCode::Char(c) => {
            if !key.modifiers.control && !key.modifiers.alt {
                Some(Action::StartCategoryAddWithChar(c))
            } else {
                None
            }
        },
        _ => None,
    }
}

/// Where to put a new category: Up and Down move, `1` attaches it under
/// the highlighted category, `2` puts it at the root, Enter takes the
/// highlighted choice, Esc leaves.
pub open spec fn create_choice_key(code: KeyCode) -> Option<Action> {
    match code {
        KeyCode::Up => Some(Action::SelectPrev),
        KeyCode::Down => Some(Action::SelectNext),
        KeyCode::Char(c) => if c == '1' {
            Some(Action::AddCategoryChoice(0))
        } else if c == '2' {
            Some(Action::AddCategoryChoice(1))
        } else {
            None
        },
        KeyCode::Enter => Some(Action::AddCategoryChoice(usize::MAX)),
        KeyCode::Esc => Some(Action::CancelCategoryAdd),
        _ => None,
    }
}

/// The placement popup of a new category, as `create_choice_key` says.
pub fn handle_category_create_choice(key: KeyEvent) -> (r: Option<Action>)
    ensures
        r == create_choice_key(key.code),
{
    match key.code {
        KeyCode::Up => Some(Action::SelectPrev),
        KeyCode::Down => Some(Action::SelectNext),
        KeyCode::Char(c) => if c == '1' {
            Some(Action::AddCategoryChoice(0))
        } else if c == '2' {
            Some(Action::AddCategoryChoice(1))
        } else {
            None
        },
        KeyCode::Enter => Some(Action::AddCategoryChoice(usize::MAX)),
        KeyCode::Esc => Some(Action::CancelCategoryAdd),
        _ => None,
    }
}

/// The parent picker of a new category: Up and Down move, Enter takes the
/// highlighted parent, Esc leaves.
pub open spec fn parent_picker_key(code: KeyCode) -> Option<Action> {
    match code {
        KeyCode::Up => Some(Action::SelectPrev),
        KeyCode::Down => Some(Action::SelectNext),
        KeyCode::Enter => Some(Action::SelectCategoryParent(usize::MAX)),
        KeyCode::Esc => Some(Action::CancelCategoryAdd),
        _ => None,
    }
}

/// The parent picker of a new category, as `parent_picker_key` says.
pub fn handle_category_parent_picker(key: KeyEvent) -> (r: Option<Action>)
    ensures
        r == parent_picker_key(key.code),
{
    match key.code {
        KeyCode::Up => Some(Action::SelectPrev),
        KeyCode::Down => Some(Action::SelectNext),
        KeyCode::Enter => Some(Action::SelectCategoryParent(usize::MAX)),
        KeyCode::Esc => Some(Action::CancelCategoryAdd),
        _ => None,
    }
}

/// The new-category prompt: Enter adds the typed name, Esc clears it and
/// leaves, any other key edits it.
pub fn handle_category_add(key: KeyEvent, input: &mut InputBuffer) -> (r: Option<Action>)
    ensures
        key.code is Enter ==> final(input)@ == old(input)@ && (r matches Some(Action::AddCategory(n)) && n@
            == old(input)@.text),
        key.code is Esc ==> r == Some(Action::CancelCategoryAdd) && final(input)@ == (InputView {
            text: Seq::empty(),
            cursor: 0,
        }),
        !(key.code is Enter) && !(key.code is Esc) ==> r is None && final(input)@ == match key_edit(key, old(input)@) {
            Some(v) => v,
            None => old(input)@,
        },
{
    match key.code {
        KeyCode::Enter => {
            let text = input.text().to_string();
            Some(Action::AddCategory(text))
        },
        KeyCode::Esc => {
            input.clear();
            Some(Action::CancelCategoryAdd)
        },
        _ => {
            handle_text_input_key(key, input);
            None
        },
    }
}

/// The sort picker: Up and Down move, `p` sorts by priority, `d` by due
/// date, `n` restores the stored order, Esc leaves.
pub open spec fn sort_picker_key(code: KeyCode) -> Option<Action> {
    match code {
        KeyCode::Up => Some(Action::SelectPrev),
        KeyCode::Down => Some(Action::SelectNext),
        KeyCode::Char(c) => if c == 'p' {
            Some(Action::SortSelect(2))
        } else if c == 'd' {
            Some(Action::SortSelect(1))
        } else if c == 'n' {
            Some(Action::SortSelect(0))
        } else {
            None
        },
        KeyCode::Esc => Some(Action::CancelSortPicker),
        _ => None,
    }
}

/// The sort picker, as `sort_picker_key` says.
pub fn handle_sort_picker(key: KeyEvent) -> (r: Option<Action>)
    ensures
        r == sort_picker_key(key.code),
{
    match key.code {
        KeyCode::Up => Some(Action::SelectPrev),
        KeyCode::Down => Some(Action::SelectNext),
        KeyCode::Char(c) => if c == 'p' {
            Some(Action::SortSelect(2))
        } else if c == 'd' {
            Some(Action::SortSelect(1))
        } else if c == 'n' {
            Some(Action::SortSelect(0))
        } else {
            None
        },
        KeyCode::Esc => Some(Action::CancelSortPicker),
        _ => None,
    }
}

/// The search prompt: Enter opens the actions on the highlighted result,
/// Esc clears the search, Up and Down move through the results, and any
/// other key edits the query.
pub open spec fn search_key(code: KeyCode) -> Option<Action> {
    match code {
        KeyCode::Enter => Some(Action::ApplySearch),
        KeyCode::Esc => Some(Action::ClearSearch),
        KeyCode::Up => Some(Action::SelectPrev),
        KeyCode::Down => Some(Action::SelectNext),
        _ => None,
    }
}

/// The search prompt, as `search_key` says; a key that gives no action
/// edits the query.
pub fn handle_search(key: KeyEvent, query: &mut InputBuffer) -> (r: Option<Action>)
    ensures
        r == search_key(key.code),
        r is Some ==> final(query)@ == old(query)@,
        r is None ==> final(query)@ == match key_edit(key, old(query)@) {
            Some(v) => v,
            None => old(query)@,
        },
{
    match key.code {
        KeyCode::Enter => Some(Action::ApplySearch),
        KeyCode::Esc => Some(Action::ClearSearch),
        KeyCode::Up => Some(Action::SelectPrev),
        KeyCode::Down => Some(Action::SelectNext),
        _ => {
            handle_text_input_key(key, query);
            None
        },
    }
}

/// The note log: Up and Down walk the entries, Enter or a typed character
/// starts a new entry (with the character), Control-E edits the
/// highlighted entry, Delete removes it, Control-Y copies it, Esc closes.
pub open spec fn notes_key(key: KeyEvent) -> Option<Action> {
    let m = key.modifiers;
    match key.code {
        KeyCode::Up => Some(Action::SelectPrev),
        KeyCode::Down => Some(Action::SelectNext),
        KeyCode::Enter => Some(Action::StartNoteAppend),
        KeyCode::Delete => Some(Action::DeleteNote),
        KeyCode::Esc => Some(Action::CloseNotes),
        KeyCode::Char(c) => if m.control && !m.alt {
            if c == 'e' {
                Some(Action::StartNoteEdit)
            } else if c == 'y' {
                Some(Action::YankNote)
            } else {
                None
            }
        } else if typed(m) {
            Some(Action::StartNoteAppendWithChar(c))
        } else {
            None
        },
        _ => None,
    }
}

/// The note log, as `notes_key` says.
pub fn handle_notes(key: KeyEvent) -> (r: Option<Action>)
    ensures
        r == notes_key(key),
{
    let m = key.modifiers;
    match key.code {
        KeyCode::Up => Some(Action::SelectPrev),
        KeyCode::Down => Some(Action::SelectNext),
        KeyCode::Enter => Some(Action::StartNoteAppend),
        KeyCode::Delete => Some(Action::DeleteNote),
        KeyCode::Esc => Some(Action::CloseNotes),
        KeyCode::Char(c) => if m.control && !m.alt {
            if c == 'e' {
                Some(Action::StartNoteEdit)
            } else if c == 'y' {
                Some(Action::YankNote)
            } else {
                None
            }
        } else if !m.control && !m.alt {
            Some(Action::StartNoteAppendWithChar(c))
        } else {
            None
        },
        _ => None,
    }
}

/// The note prompt: Enter saves the entry, Esc drops it, any other key
/// edits it.
pub fn handle_note_input(key: KeyEvent, input: &mut InputBuffer) -> (r: Option<Action>)
    ensures
        key.code is Enter ==> r == Some(Action::SubmitNote) && final(input)@ == old(input)@,
        key.code is Esc ==> r == Some(Action::CancelNote) && final(input)@ == old(input)@,
        !(key.code is Enter) && !(key.code is Esc) ==> r is None && final(input)@ == match key_edit(key, old(input)@) {
            Some(v) => v,
            None => old(input)@,
        },
{
    match key.code {
        KeyCode::Enter => Some(Action::SubmitNote),
        KeyCode::Esc => Some(Action::CancelNote),
        _ => {
            handle_text_input_key(key, input);
            None
        },
    }
}


/// The digits of `s`, in order.
pub open spec fn digits_in(s: Seq<char>) -> Seq<char>
    decreases s.len(),
{
    if s.len() == 0 {
        Seq::empty()
    } else {
        digits_in(s.drop_last()) + if is_ascii_digit(s.last()) {
            seq![s.last()]
        } else {
            Seq::empty()
        }
    }
}

/// `ds` written as a date: a `-` before the fifth and the seventh digit.
pub open spec fn dashed(ds: Seq<char>) -> Seq<char>
    decreases ds.len(),
{
    if ds.len() == 0 {
        Seq::empty()
    } else {
        let i = ds.len() - 1;
        dashed(ds.drop_last()) + (if i == 4 || i == 6 {
            seq!['-']
        } else {
            Seq::empty()
        }) + seq![ds.last()]
    }
}

/// The date prompt after the digit `d` is typed on the calendar: the
/// digits already there (none once there are eight) and `d`, written
/// `YYYY-MM-DD` as far as they go.
pub open spec fn calendar_typed(text: Seq<char>, d: char) -> Seq<char> {
    let ds = digits_in(text);
    dashed((if ds.len() >= 8 { Seq::empty() } else { ds }).push(d))
}

/// Types the digit `digit` on the calendar, as `calendar_typed` says.
pub fn insert_calendar_digit(input: &mut InputBuffer, digit: char)
    ensures
        final(input)@.text == calendar_typed(old(input)@.text, digit),
        final(input)@.cursor == calendar_typed(old(input)@.text, digit).len(),
{
    let cs = chars_of(input.text());
    let mut digits: Vec<char> = Vec::new();
    let mut i: usize = 0;
    while i < cs.len()
        invariant
            0 <= i <= cs.len(),
            digits@ == digits_in(cs@.take(i as int)),
        decreases cs.len() - i,
    {
        proof {
            assert(cs@.take(i + 1).drop_last() =~= cs@.take(i as int));
        }
        let c = cs[i];
        if '0' <= c && c <= '9' {
            digits.push(c);
        }
        i = i + 1;
    }
    proof {
        assert(cs@.take(cs@.len() as int) =~= cs@);
    }
    if digits.len() >= 8 {
        digits = Vec::new();
    }
    digits.push(digit);
    let ghost ds = digits@;
    let mut formatted: Vec<char> = Vec::new();
    let mut k: usize = 0;
    while k < digits.len()
        invariant
            0 <= k <= digits.len(),
            digits@ == ds,
            formatted@ == dashed(ds.take(k as int)),
        decreases digits.len() - k,
    {
        proof {
            assert(ds.take(k + 1).drop_last() =~= ds.take(k as int));
        }
        if k == 4 || k == 6 {
            formatted.push('-');
        }
        formatted.push(digits[k]);
        proof {
            assert(formatted@ =~= dashed(ds.take(k + 1)));
        }
        k = k + 1;
    }
    proof {
        assert(ds.take(ds.len() as int) =~= ds);
    }
    let text = string_of(formatted.as_slice());
    input.set_text(text.as_str());
}

/// The action of `key` on the due-date calendar; with `prompt_focused`
/// the keys go to the date prompt below it. Tab switches between the two.
/// On the prompt, Enter saves, Esc cancels, digits and `-` are typed and
/// the editing keys edit. On the calendar, the arrows move by a day or a
/// week, PageUp and PageDown by a month, `t` goes to today, Delete clears
/// the date, Enter saves, Esc cancels, a digit is typed into the date and
/// `-` starts it again.
pub open spec fn calendar_key(key: KeyEvent, prompt_focused: bool, v: InputView) -> Option<Action> {
    let m = key.modifiers;
    if key.code is Tab {
        Some(Action::CalendarToggleFocus)
    } else if prompt_focused {
        match key.code {
            KeyCode::Enter => Some(Action::SubmitDueDate),
            KeyCode::Esc => Some(Action::CancelDueDate),
            KeyCode::Char(c) => if (is_ascii_digit(c) || c == '-') && typed(m) {
                Some(Action::CalendarTextChanged)
            } else {
                None
            },
            _ => if key_edit(key, v) is Some {
                Some(Action::CalendarTextChanged)
            } else {
                None
            },
        }
    } else {
        match key.code {
            KeyCode::Left => Some(Action::CalendarMove(-1i32)),
            KeyCode::Right => Some(Action::CalendarMove(1i32)),
            KeyCode::Up => Some(Action::CalendarMove(-7i32)),
            KeyCode::Down => Some(Action::CalendarMove(7i32)),
            KeyCode::PageUp => Some(Action::CalendarMonth(-1i32)),
            KeyCode::PageDown => Some(Action::CalendarMonth(1i32)),
            KeyCode::Delete => Some(Action::CalendarClear),
            KeyCode::Enter => Some(Action::SubmitDueDate),
            KeyCode::Esc => Some(Action::CancelDueDate),
            KeyCode::Char(c) => if c == 't' {
                Some(Action::CalendarToday)
            } else if (is_ascii_digit(c) || c == '-') && typed(m) {
                Some(Action::CalendarTextChanged)
            } else {
                None
            },
            _ => None,
        }
    }
}

/// The date prompt after `key` on the calendar, as `calendar_key` says.
pub open spec fn calendar_input(key: KeyEvent, prompt_focused: bool, v: InputView) -> InputView {
    let m = key.modifiers;
    if key.code is Tab {
        v
    } else if prompt_focused {
        match key.code {
            KeyCode::Enter => v,
            KeyCode::Esc => v,
            KeyCode::Char(c) => if (is_ascii_digit(c) || c == '-') && typed(m) {
                view_insert(v, c)
            } else {
                v
            },
            _ => match key_edit(key, v) {
                Some(w) => w,
                None => v,
            },
        }
    } else {
        match key.code {
            KeyCode::Char(c) => if c != 't' && is_ascii_digit(c) && typed(m) {
                InputView { text: calendar_typed(v.text, c), cursor: calendar_typed(v.text, c).len() }
            } else if c == '-' && typed(m) {
                InputView { text: seq!['-'], cursor: 1 }
            } else {
                v
            },
            _ => v,
        }
    }
}

/// The due-date calendar, as `calendar_key` and `calendar_input` say.
pub fn handle_due_date_calendar(key: KeyEvent, input: &mut InputBuffer, prompt_focused: bool) -> (r: Option<Action>)
    ensures
        r == calendar_key(key, prompt_focused, old(input)@),
        final(input)@ == calendar_input(key, prompt_focused, old(input)@),
{
    let m = key.modifiers;
    if key.code == KeyCode::Tab {
        return Some(Action::CalendarToggleFocus);
    }
    if prompt_focused {
        return match key.code {
            KeyCode::Enter => Some(Action::SubmitDueDate),
            KeyCode::Esc => Some(Action::CancelDueDate),
            KeyCode::Char(c) => if (('0' <= c && c <= '9') || c == '-') && !m.control && !m.alt {
                input.insert_char(c);
                Some(Action::CalendarTextChanged)
            } else {
                None
            },
            _ => if handle_text_input_key(key, input) {
                Some(Action::CalendarTextChanged)
            } else {
                None
            },
        };
    }
    match key.code {
        KeyCode::Left => Some(Action::CalendarMove(-1)),
        KeyCode::Right => Some(Action::CalendarMove(1)),
        KeyCode::Up => Some(Action::CalendarMove(-7)),
        KeyCode::Down => Some(Action::CalendarMove(7)),
        KeyCode::PageUp => Some(Action::CalendarMonth(-1)),
        KeyCode::PageDown => Some(Action::CalendarMonth(1)),
        KeyCode::Delete => Some(Action::CalendarClear),
        KeyCode::Enter => Some(Action::SubmitDueDate),
        KeyCode::Esc => Some(Action::CancelDueDate),
        KeyCode::Char(c) => if c == 't' {
            Some(Action::CalendarToday)
        } else if '0' <= c && c <= '9' && !m.control && !m.alt {
            insert_calendar_digit(input, c);
            Some(Action::CalendarTextChanged)
        } else if c == '-' && !m.control && !m.alt {
            input.clear();
            input.insert_char('-');
            proof {
                assert(input@.text =~= seq!['-']);
            }
            Some(Action::CalendarTextChanged)
        } else {
            None
        },
        _ => None,
    }
}

} // verus!
