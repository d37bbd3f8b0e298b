//! The small enumerations of the application state: sort orders, filters,
//! panes, pickers and the actions that keys map to.

use vstd::prelude::*;

use crate::date::Date;
use crate::text::{chars_of, chars_eq};
use crate::theme::Theme;

verus! {

#[derive(Debug, Clone, Copy, PartialEq, Eq, Structural)]
pub enum SortMode {
    Default,
    Priority,
    DueDate,
}

/// How much of an item's note log is shown inline in the list.
#[derive(Debug, Clone, Copy, PartialEq, Eq, Structural)]
pub enum NoteDisplay {
    /// Only the note counter on the status row.
    Hidden,
    /// The newest entry, cut to a single line.
    Latest,
    /// Every entry, wrapped. The default: notes exist to be read.
    All,
}

impl Default for NoteDisplay {
    fn default() -> (r: Self)
        ensures
            r == NoteDisplay::All,
    {
        NoteDisplay::All
    }
}

/// The display that comes after `d`: All, Latest, Hidden, All.
pub open spec fn next_display(d: NoteDisplay) -> NoteDisplay {
    match d {
        NoteDisplay::All => NoteDisplay::Latest,
        NoteDisplay::Latest => NoteDisplay::Hidden,
        NoteDisplay::Hidden => NoteDisplay::All,
    }
}

/// The name under which a display is saved and typed.
pub open spec fn display_label(d: NoteDisplay) -> Seq<char> {
    match d {
        NoteDisplay::Hidden => "hidden"@,
        NoteDisplay::Latest => "latest"@,
        NoteDisplay::All => "all"@,
    }
}

/// The display a saved or typed name stands for.
pub open spec fn display_from_label(label: Seq<char>) -> Option<NoteDisplay> {
    if label == "hidden"@ {
        Some(NoteDisplay::Hidden)
    } else if label == "latest"@ {
        Some(NoteDisplay::Latest)
    } else if label == "all"@ {
        Some(NoteDisplay::All)
    } else {
        None
    }
}

impl NoteDisplay {
    /// Steps down in verbosity, so one press from the default shows less
    /// rather than nothing.
    pub fn next(self) -> (r: Self)
        ensures
            r == next_display(self),
    {
        match self {
            NoteDisplay::All => NoteDisplay::Latest,
            NoteDisplay::Latest => NoteDisplay::Hidden,
            NoteDisplay::Hidden => NoteDisplay::All,
        }
    }

    /// The name under which the display is saved and typed.
    pub fn label(self) -> (r: &'static str)
        ensures
            r@ == display_label(self),
    {
        match self {
            NoteDisplay::Hidden => "hidden",
            NoteDisplay::Latest => "latest",
            NoteDisplay::All => "all",
        }
    }

    /// The display a name stands for.
    pub fn from_label(label: &str) -> (r: Option<Self>)
        ensures
            r == display_from_label(label@),
    {
        let l = chars_of(label);
        let h = chars_of("hidden");
        let t = chars_of("latest");
        let a = chars_of("all");
        if chars_eq(l.as_slice(), h.as_slice()) {
            Some(NoteDisplay::Hidden)
        } else if chars_eq(l.as_slice(), t.as_slice()) {
            Some(NoteDisplay::Latest)
        } else if chars_eq(l.as_slice(), a.as_slice()) {
            Some(NoteDisplay::All)
        } else {
            None
        }
    }
}

/// Three steps of the inline note display come back to where they started,
/// and every display reads back from its name.
pub proof fn law_note_display_cycle(d: NoteDisplay)
    ensures
        next_display(next_display(next_display(d))) == d,
        display_from_label(display_label(d)) == Some(d),
{
    reveal_strlit("hidden");
    reveal_strlit("latest");
    reveal_strlit("all");
    assert("hidden"@ != "latest"@) by {
        assert("hidden"@[0] != "latest"@[0]);
    }
    assert("hidden"@ != "all"@) by {
        assert("hidden"@.len() != "all"@.len());
    }
    assert("latest"@ != "all"@) by {
        assert("latest"@.len() != "all"@.len());
    }
}

#[derive(Debug, Clone, Copy, PartialEq, Eq, Structural)]
pub enum DueFilter {
    Today,
    Week,
    Overdue,
}

#[derive(Debug, Clone, Copy, PartialEq, Eq, Structural)]
pub enum Pane {
    Items,
    Categories,
}

#[derive(Debug, Clone, Copy, PartialEq, Eq, Structural)]
pub enum MultiSelectCmd {
    Delete,
    ToggleDone,
    Archive,
    RestoreArchive,
    PickAction,
}

#[derive(Clone, Debug, PartialEq, Eq)]
pub enum RenameTarget {
    Item(u64),
    Category(String),
}

#[derive(Clone, Debug, PartialEq, Eq)]
pub enum CategoryPickerTarget {
    AssignItem,
    MoveCategory(String),
    AssignBulk(Vec<u64>),
}

/// What a key press asks the application to do.
#[derive(Clone, Debug, PartialEq, Eq)]
pub enum Action {
    SelectPrev,
    SelectNext,
    StartNewItem,
    StartNewItemWithChar(char),
    EditItem(u64),
    SubmitEdit,
    CancelEdit,
    ToggleDone(u64),
    ToggleDoing(u64),
    DeleteItem(u64),
    CyclePriority(u64),
    Reorder(u64, i32),
    ReorderCategory(String, i32),
    ApplySearch,
    ClearSearch,
    StartCommand,
    ExecuteCommand(String),
    TabComplete,
    ToggleMultiSelect(u64),
    ToggleCategoryMultiSelect(String),
    SelectAllMultiSelect,
    ConfirmMultiSelect,
    CancelMultiSelect,
    ThemeSelect(usize),
    CancelThemePicker,
    ConfirmDeleteYes,
    ConfirmDeleteNo,
    ConfirmDeleteArchive,
    PrioritySelect(usize),
    CancelPriorityPicker,
    Paste,
    TogglePin(u64),
    SetDueDate,
    SwitchPane,
    OpenCategoryPicker,
    OpenCategoryMovePicker(String),
    CategorySelect(usize),
    CategoryFilterSelect(usize),
    CategoryFilterParent(usize),
    AddCategory(String),
    AddCategoryChoice(usize),
    SelectCategoryParent(usize),
    CreateAndAssignCategory(String),
    DeleteCategory(String),
    CancelCategoryPicker,
    StartCategoryAddWithChar(char),
    CancelCategoryAdd,
    SortSelect(usize),
    CancelSortPicker,
    SubmitRename,
    CancelArchivePicker,
    ArchiveSelect(usize),
    BulkActionSelect(usize),
    CancelBulkActionPicker,
    CancelFilterPicker,
    FilterSelect(usize),
    CancelDueDateFilterPicker,
    DueDateFilterSelect(usize),
    PopupBack,
    SubmitDueDate,
    CancelDueDate,
    CalendarMove(i32),
    CalendarMonth(i32),
    CalendarToday,
    CalendarClear,
    CalendarTextChanged,
    CalendarToggleFocus,
    SwitchCategoryFilter(i32, bool),
    Undo,
    Quit,
    OpenNotes(u64),
    CloseNotes,
    CycleNoteDisplay,
    SetNoteDisplay(NoteDisplay),
    StartNoteAppend,
    StartNoteAppendWithChar(char),
    StartNoteEdit,
    SubmitNote,
    CancelNote,
    DeleteNote,
    YankNote,
    EnterResizeSidebar,
    ResizeSidebar(i16),
    ResetSidebarWidth,
    ConfirmResizeSidebar,
    CancelResizeSidebar,
}

/// What the screen is doing: browsing, typing into a prompt, or showing one
/// of the pickers and popups, with what each needs to remember.
pub enum Mode {
    Normal,
    Editing { edit_id: Option<u64> },
    Command { selected: usize },
    Searching,
    /// Choosing items (and, in the sidebar, categories) for `cmd`; each id
    /// and name is held once, in the order it was picked.
    MultiSelect { cmd: MultiSelectCmd, selected: Vec<u64>, selected_categories: Vec<String> },
    ThemePicker { selected: usize, original_theme: Theme },
    PriorityPicker { selected: usize },
    Help,
    Keybindings,
    ConfirmDelete { ids: Vec<u64>, texts: Vec<String>, category_names: Vec<String> },
    CategoryPicker { selected: usize, target: CategoryPickerTarget },
    CategoryFilterPicker { selected: usize },
    CategoryCreateChoice { selected: usize, parent: Option<String>, name: String },
    CategoryParentPicker { selected: usize, name: String },
    CategoryAdd { parent: Option<String> },
    SortPicker { selected: usize, original_sort: SortMode },
    ArchivePicker { selected: usize },
    BulkActionPicker { ids: Vec<u64>, category_names: Vec<String>, selected: usize },
    RenameInput { target: RenameTarget },
    FilterPicker { selected: usize },
    DueDateFilterPicker { selected: usize },
    DueDateCalendar {
        edit_id: Option<u64>,
        saved_text: String,
        from_new: bool,
        from_normal: bool,
        selected: Date,
        prompt_focused: bool,
    },
    ResizeSidebar { return_pane: Pane, original_width: u16 },
    Notes { item_id: u64, selected: usize },
    NoteInput { item_id: u64, edit_index: Option<usize> },
}

/// The highlighted row of a mode that shows a list, if it shows one.
pub open spec fn mode_selected(m: Mode) -> Option<usize> {
    match m {
        Mode::Command { selected } => Some(selected),
        Mode::ThemePicker { selected, .. } => Some(selected),
        Mode::PriorityPicker { selected } => Some(selected),
        Mode::CategoryPicker { selected, .. } => Some(selected),
        Mode::CategoryFilterPicker { selected } => Some(selected),
        Mode::CategoryCreateChoice { selected, .. } => Some(selected),
        Mode::CategoryParentPicker { selected, .. } => Some(selected),
        Mode::SortPicker { selected, .. } => Some(selected),
        Mode::ArchivePicker { selected } => Some(selected),
        Mode::BulkActionPicker { selected, .. } => Some(selected),
        Mode::FilterPicker { selected } => Some(selected),
        Mode::DueDateFilterPicker { selected } => Some(selected),
        Mode::Notes { selected, .. } => Some(selected),
        _ => None,
    }
}

/// `m` with its highlighted row moved to `v`; other modes unchanged.
pub open spec fn mode_with_selected(m: Mode, v: usize) -> Mode {
    match m {
        Mode::Command { .. } => Mode::Command { selected: v },
        Mode::ThemePicker { original_theme, .. } => Mode::ThemePicker { selected: v, original_theme },
        Mode::PriorityPicker { .. } => Mode::PriorityPicker { selected: v },
        Mode::CategoryPicker { target, .. } => Mode::CategoryPicker { selected: v, target },
        Mode::CategoryFilterPicker { .. } => Mode::CategoryFilterPicker { selected: v },
        Mode::CategoryCreateChoice { parent, name, .. } => Mode::CategoryCreateChoice {
            selected: v,
            parent,
            name,
        },
        Mode::CategoryParentPicker { name, .. } => Mode::CategoryParentPicker { selected: v, name },
        Mode::SortPicker { original_sort, .. } => Mode::SortPicker { selected: v, original_sort },
        Mode::ArchivePicker { .. } => Mode::ArchivePicker { selected: v },
        Mode::BulkActionPicker { ids, category_names, .. } => Mode::BulkActionPicker {
            ids,
            category_names,
            selected: v,
        },
        Mode::FilterPicker { .. } => Mode::FilterPicker { selected: v },
        Mode::DueDateFilterPicker { .. } => Mode::DueDateFilterPicker { selected: v },
        Mode::Notes { item_id, .. } => Mode::Notes { item_id, selected: v },
        _ => m,
    }
}

impl Mode {
    /// The highlighted row, for the modes that show a list.
    pub fn selected(&self) -> (r: Option<usize>)
        ensures
            r == mode_selected(*self),
    {
        match self {
            Mode::Command { selected } => Some(*selected),
            Mode::ThemePicker { selected, .. } => Some(*selected),
            Mode::PriorityPicker { selected } => Some(*selected),
            Mode::CategoryPicker { selected, .. } => Some(*selected),
            Mode::CategoryFilterPicker { selected } => Some(*selected),
            Mode::CategoryCreateChoice { selected, .. } => Some(*selected),
            Mode::CategoryParentPicker { selected, .. } => Some(*selected),
            Mode::SortPicker { selected, .. } => Some(*selected),
            Mode::ArchivePicker { selected } => Some(*selected),
            Mode::BulkActionPicker { selected, .. } => Some(*selected),
            Mode::FilterPicker { selected } => Some(*selected),
            Mode::DueDateFilterPicker { selected } => Some(*selected),
            Mode::Notes { selected, .. } => Some(*selected),
            _ => None,
        }
    }

    /// Moves the highlighted row to `v`, for the modes that show a list.
    pub fn set_selected(&mut self, v: usize)
        ensures
            *final(self) == mode_with_selected(*old(self), v),
    {
        match self {
            Mode::Command { selected } => *selected = v,
            Mode::ThemePicker { selected, .. } => *selected = v,
            Mode::PriorityPicker { selected } => *selected = v,
            Mode::CategoryPicker { selected, .. } => *selected = v,
            Mode::CategoryFilterPicker { selected } => *selected = v,
            Mode::CategoryCreateChoice { selected, .. } => *selected = v,
            Mode::CategoryParentPicker { selected, .. } => *selected = v,
            Mode::SortPicker { selected, .. } => *selected = v,
            Mode::ArchivePicker { selected } => *selected = v,
            Mode::BulkActionPicker { selected, .. } => *selected = v,
            Mode::FilterPicker { selected } => *selected = v,
            Mode::DueDateFilterPicker { selected } => *selected = v,
            Mode::Notes { selected, .. } => *selected = v,
            _ => {},
        }
    }
}

/// Where going back from a popup returns to.
pub enum PopupBackTarget {
    Command { input: String, selected: usize },
    FilterPicker { selected: usize },
}

/// What an action asks of the world outside the application state, which
/// the caller carries out.
pub enum Effect {
    /// Nothing; keep going.
    Continue,
    /// Leave the application.
    Quit,
    /// Record the chosen theme's name in the settings.
    SaveThemeName(&'static str),
    /// Record the sidebar width in the settings.
    SaveSidebarWidth(u16),
    /// Record how inline notes show in the settings.
    SaveNoteDisplay(NoteDisplay),
    /// Read the system clipboard and hand its text to `App::paste_text`.
    ReadClipboard,
    /// Put this text on the system clipboard.
    WriteClipboard(String),
}

} // verus!
