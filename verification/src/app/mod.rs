//! The application state and what each action does to it.
//!
//! The state holds the list, the line editor, the mode (which popup or
//! prompt is open), the filters of the item list, the sidebar position and
//! an undo stack. Reading and writing files, the clock and the clipboard
//! are the caller's: the caller sets `today`, and carries out the `Effect`
//! that an action returns.

pub mod view;
pub mod categories;
pub mod history;
pub mod popups;
pub mod bulk;
pub mod select;
pub mod notes;
pub mod calendar;
pub mod pickers;
pub mod filing;
pub mod palette;
pub mod actions;
pub mod editing;
pub mod dispatch;
pub mod keymap;
pub mod laws;

use vstd::prelude::*;

use crate::data::sidebar::{entry_views, rows_from};
use crate::data::{listed_categories, next_order, CategoryEntry, Note, Priority, TodoData, TodoItem};
use crate::date::Date;
use crate::defs::{DueFilter, Mode, NoteDisplay, Pane, PopupBackTarget, SortMode};
use crate::data::category::texts;
use crate::input::InputBuffer;
use crate::theme::Theme;
use self::view::{derefs, visible, visible_items, ExecFilter, ViewFilter};

verus! {

/// Sidebar width before any resizing.
pub const SIDEBAR_WIDTH_DEFAULT: u16 = 22;

/// Narrowest sidebar.
pub const SIDEBAR_WIDTH_MIN: u16 = 12;

/// Widest sidebar.
pub const SIDEBAR_WIDTH_MAX: u16 = 60;

/// How many steps can be undone.
pub const UNDO_STACK_LIMIT: usize = 20;

/// A step that can be undone.
pub enum UndoEntry {
    /// Items that were deleted, as they were.
    Delete(Vec<TodoItem>),
    /// Items and category branches whose archived flag was set; undoing
    /// sets it back to `previous_archived`.
    Archive { item_ids: Vec<u64>, category_names: Vec<String>, previous_archived: bool },
    /// The note that stood at `index` of the item `item_id`.
    NoteDelete { item_id: u64, index: usize, note: Note },
}

/// The whole state of the application.
pub struct App {
    pub data: TodoData,
    pub selected_index: usize,
    pub input: InputBuffer,
    pub mode: Mode,
    pub filter: String,
    pub priority_filter: Option<Priority>,
    pub due_filter: Option<DueFilter>,
    pub category_filter: Option<String>,
    pub show_archived: bool,
    pub pane: Pane,
    pub category_index: usize,
    pub sort_mode: SortMode,
    pub theme: Theme,
    pub completions: Vec<String>,
    pub completion_index: usize,
    /// Whether the list changed since it was last saved.
    pub dirty: bool,
    pub pending_due_date: Option<String>,
    pub sidebar_width: u16,
    /// Whether to suggest logging a note on the item just marked done.
    pub note_hint: bool,
    pub note_display: NoteDisplay,
    /// The current date, which the due filters and new notes go by.
    pub today: Date,
    /// The highlighted row remembered for each category filter, by path
    /// (the empty path for no filter).
    pub category_selection_memory: Vec<(String, usize)>,
    /// Where going back from nested popups returns to, innermost last.
    pub popup_back_stack: Vec<PopupBackTarget>,
    /// The steps that can be undone, latest last.
    pub undo_stack: Vec<UndoEntry>,
    /// The search that a popup opened from the search prompt returns to.
    pub saved_search: Option<String>,
}

/// The sidebar width to start with: the stored one, or the default, kept
/// within the allowed range.
pub fn initial_sidebar_width(stored: Option<u16>) -> (r: u16)
    ensures
        r == (match stored {
            Some(w) => if w < SIDEBAR_WIDTH_MIN {
                SIDEBAR_WIDTH_MIN
            } else if w > SIDEBAR_WIDTH_MAX {
                SIDEBAR_WIDTH_MAX
            } else {
                w
            },
            None => SIDEBAR_WIDTH_DEFAULT,
        }),
{
    let w = match stored {
        Some(w) => w,
        None => SIDEBAR_WIDTH_DEFAULT,
    };
    if w < SIDEBAR_WIDTH_MIN {
        SIDEBAR_WIDTH_MIN
    } else if w > SIDEBAR_WIDTH_MAX {
        SIDEBAR_WIDTH_MAX
    } else {
        w
    }
}

impl App {
    /// The filter that the list is shown through.
    pub open spec fn view_filter(&self) -> ViewFilter {
        ViewFilter {
            show_archived: self.show_archived,
            priority: self.priority_filter,
            category: match self.category_filter {
                Some(c) => Some(c@),
                None => None,
            },
            due: self.due_filter,
            query: self.filter@,
            today: self.today,
        }
    }

    /// The items as the list shows them.
    pub open spec fn shown(&self) -> Seq<TodoItem> {
        visible(self.data@.items, self.view_filter(), self.sort_mode)
    }

    /// The highlighted row of the list, kept within it.
    pub open spec fn sel(&self) -> int {
        let n = self.shown().len();
        if n == 0 {
            0
        } else if self.selected_index < n {
            self.selected_index as int
        } else {
            n - 1
        }
    }

    /// The category paths of the current view (active or archived).
    pub open spec fn cats(&self) -> Seq<Seq<char>> {
        listed_categories(self.data@, self.show_archived)
    }

    /// The sidebar rows of the current view.
    pub open spec fn rows(&self) -> Seq<crate::data::EntryView> {
        rows_from(self.cats(), 0)
    }

    /// The id of the highlighted item, if the list is not empty.
    pub open spec fn selected_id(&self) -> Option<u64> {
        if self.sel() < self.shown().len() {
            Some(self.shown()[self.sel()].id)
        } else {
            None
        }
    }

    /// The numbers that the list's operations count up stay below the
    /// largest `u64`: the next id, every id, and the next order; and the
    /// lists stay within `i32` positions, as moves count in `i32`.
    pub open spec fn fits(&self) -> bool {
        &&& self.data@.next_id < u64::MAX
        &&& next_order(self.data@.items) < u64::MAX
        &&& forall|i: int| 0 <= i < self.data@.items.len() ==> #[trigger] self.data@.items[i].id < u64::MAX
        &&& self.data@.items.len() <= i32::MAX
        &&& self.data@.categories.len() <= i32::MAX
    }

    /// A new state over the list `data`, with the theme `theme`, the
    /// sidebar width `sidebar_width` and the date `today`: browsing the
    /// items, no filter, nothing to undo.
    pub fn new(data: TodoData, theme: Theme, sidebar_width: u16, today: Date) -> (r: Self)
        requires
            today.valid(),
        ensures
            r.data@ == data@,
            r.theme == theme,
            r.sidebar_width == sidebar_width,
            r.today == today,
            r.selected_index == 0,
            r.input@.text.len() == 0,
            r.mode is Normal,
            r.filter@.len() == 0,
            r.priority_filter is None,
            r.due_filter is None,
            r.category_filter is None,
            !r.show_archived,
            r.pane == Pane::Items,
            r.category_index == 0,
            r.sort_mode == SortMode::Default,
            r.completions@.len() == 0,
            r.completion_index == 0,
            !r.dirty,
            r.pending_due_date is None,
            !r.note_hint,
            r.note_display == NoteDisplay::All,
            r.undo_depth() == 0,
            r.saved_search is None,
            r.popup_back_stack@.len() == 0,
            r.category_selection_memory@.len() == 0,
    {
        App {
            data,
            selected_index: 0,
            input: InputBuffer::new(),
            mode: Mode::Normal,
            filter: String::new(),
            priority_filter: None,
            due_filter: None,
            category_filter: None,
            show_archived: false,
            pane: Pane::Items,
            category_index: 0,
            sort_mode: SortMode::Default,
            theme,
            completions: Vec::new(),
            completion_index: 0,
            dirty: false,
            pending_due_date: None,
            sidebar_width,
            note_hint: false,
            note_display: NoteDisplay::All,
            today,
            category_selection_memory: Vec::new(),
            popup_back_stack: Vec::new(),
            undo_stack: Vec::new(),
            saved_search: None,
        }
    }

    /// How many steps can be undone.
    pub open spec fn undo_depth(&self) -> nat {
        self.undo_stack@.len()
    }

    /// Whether the numbers of `fits` hold, computed.
    pub fn within_limits(&self) -> (r: bool)
        ensures
            r == self.fits(),
    {
        let items = self.data.items();
        if self.data.next_id() == u64::MAX {
            return false;
        }
        if items.len() > 0 && items[items.len() - 1].order >= u64::MAX - 1 {
            return false;
        }
        if items.len() > i32::MAX as usize {
            return false;
        }
        if self.data.stored_categories().len() > i32::MAX as usize {
            return false;
        }
        let mut i: usize = 0;
        while i < items.len()
            invariant
                0 <= i <= items.len(),
                items@ == self.data@.items,
                forall|j: int| 0 <= j < i ==> #[trigger] items@[j].id < u64::MAX,
            decreases items.len() - i,
        {
            if items[i].id == u64::MAX {
                return false;
            }
            i = i + 1;
        }
        true
    }

    /// Whether anything can be undone.
    pub fn can_undo(&self) -> (r: bool)
        ensures
            r == (self.undo_depth() > 0),
    {
        self.undo_stack.len() > 0
    }

    fn exec_filter(&self) -> (r: ExecFilter)
        ensures
            r.spec() == self.view_filter(),
    {
        ExecFilter {
            show_archived: self.show_archived,
            priority: self.priority_filter,
            category: match &self.category_filter {
                Some(c) => Some(c.clone()),
                None => None,
            },
            due: self.due_filter,
            query: self.filter.clone(),
            today: self.today,
        }
    }

    /// The items as the list shows them: those that pass the filters,
    /// stably sorted by the sort mode, pinned ones first.
    pub fn items(&self) -> (r: Vec<&TodoItem>)
        requires
            self.today.valid(),
        ensures
            derefs(r@) == self.shown(),
    {
        let f = self.exec_filter();
        visible_items(self.data.items(), &f, self.sort_mode)
    }

    /// How many items the list shows.
    pub fn item_count(&self) -> (r: usize)
        requires
            self.today.valid(),
        ensures
            r == self.shown().len(),
    {
        let v = self.items();
        v.len()
    }

    /// The highlighted row of the list: the stored one, kept within the
    /// list.
    pub fn selected_index(&self) -> (r: usize)
        requires
            self.today.valid(),
        ensures
            r == self.sel(),
    {
        let n = self.item_count();
        if n == 0 {
            0
        } else if self.selected_index < n {
            self.selected_index
        } else {
            n - 1
        }
    }

    /// The id of the highlighted item, if the list shows any.
    pub fn selected_item_id(&self) -> (r: Option<u64>)
        requires
            self.today.valid(),
        ensures
            r == self.selected_id(),
    {
        let items = self.items();
        let s = self.selected_index();
        proof {
            assert(derefs(items@).len() == items@.len());
        }
        if s < items.len() {
            Some(items[s].id)
        } else {
            None
        }
    }

    /// How many items are not done.
    pub fn pending_count(&self) -> (r: usize)
        ensures
            r == crate::data::pending(self.data@.items),
    {
        self.data.pending_count()
    }

    /// Keeps the stored highlight within the list.
    fn clamp_selection(&mut self)
        requires
            old(self).today.valid(),
        ensures
            final(self).selected_index == old(self).sel(),
            *final(self) == (App { selected_index: final(self).selected_index, ..*old(self) }),
    {
        self.selected_index = self.selected_index();
    }

    /// The category paths of the current view.
    pub fn categories(&self) -> (r: Vec<String>)
        ensures
            texts(r@) == self.cats(),
    {
        self.data.categories_for_archived(self.show_archived)
    }

    /// The sidebar rows of the current view.
    pub fn category_entries(&self) -> (r: Vec<CategoryEntry>)
        ensures
            entry_views(r@) == self.rows(),
    {
        self.data.category_entries_for_archived(self.show_archived)
    }
}

} // verus!
