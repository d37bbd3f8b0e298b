//! The note log of an item: browsing it, writing and editing entries,
//! deleting one (which can be undone), and copying one out.

use vstd::prelude::*;

use crate::data::{find_item, note_added, note_deleted, note_updated};
use crate::defs::{Effect, Mode};
use crate::text::{chars_of, string_of, trim, trim_chars};
use super::history::pushed;
use super::popups::{last_note, returned};
use super::{App, UndoEntry};

verus! {

impl App {
    /// Whether `b` is what `close_notes` leaves of `a`.
    pub open spec fn after_close_notes(a: App, b: App) -> bool {
        returned(a, b)
    }

    /// Closes the note log, going back to the previous mode.
    pub fn close_notes(&mut self)
        requires
            old(self).today.valid(),
        ensures
            Self::after_close_notes(*old(self), *final(self)),
    {
        self.input.clear();
        self.return_after_secondary_mode();
    }

    /// Whether `b` is what `start_note_append` leaves of `a`.
    pub open spec fn after_start_note_append(a: App, b: App, first: Option<char>) -> bool {
        match a.mode {
            Mode::Notes { item_id, .. } => {
                &&& b.mode == (Mode::NoteInput { item_id, edit_index: None })
                &&& b.input@.text == (match first {
                    Some(c) => seq![c],
                    None => Seq::empty(),
                })
                &&& b == (App { mode: b.mode, input: b.input, ..a })
            },
            _ => b == a,
        }
    }

    /// From the note log, starts writing a new entry, with `first` typed
    /// when given.
    pub fn start_note_append(&mut self, first: Option<char>)
        ensures
            Self::after_start_note_append(*old(self), *final(self), first),
    {
        let item_id = match &self.mode {
            Mode::Notes { item_id, .. } => *item_id,
            _ => return,
        };
        self.input.clear();
        match first {
            Some(c) => {
                self.input.insert_char(c);
                assert(self.input@.text =~= seq![c]);
            },
            None => {},
        }
        self.mode = Mode::NoteInput { item_id, edit_index: None };
    }

    /// Whether `b` is what `start_note_edit` leaves of `a`.
    pub open spec fn after_start_note_edit(a: App, b: App) -> bool {
        match a.mode {
            Mode::Notes { item_id, selected } => {
                let i = find_item(a.data@.items, item_id);
                if i < 0 || selected >= a.data@.items[i].notes@.len() {
                    b == a
                } else {
                    &&& b.mode == (Mode::NoteInput { item_id, edit_index: Some(selected) })
                    &&& b.input@.text == a.data@.items[i].notes@[selected as int].text@
                    &&& b == (App { mode: b.mode, input: b.input, ..a })
                }
            },
            _ => b == a,
        }
    }

    /// From the note log, starts editing the highlighted entry, its text on
    /// the line.
    pub fn start_note_edit(&mut self)
        ensures
            Self::after_start_note_edit(*old(self), *final(self)),
    {
        let (item_id, selected) = match &self.mode {
            Mode::Notes { item_id, selected } => (*item_id, *selected),
            _ => return,
        };
        let text = match self.data.get(item_id) {
            Some(item) => {
                if selected < item.notes.len() {
                    item.notes[selected].text.clone()
                } else {
                    return;
                }
            },
            None => return,
        };
        self.input.set_text(text.as_str());
        self.mode = Mode::NoteInput { item_id, edit_index: Some(selected) };
    }

    /// Whether `b` is what `submit_note` leaves of `a`.
    pub open spec fn after_submit_note(a: App, b: App) -> bool {
        match a.mode {
            Mode::NoteInput { item_id, edit_index } => {
                let t = trim(a.input@.text);
                &&& (match edit_index {
                    Some(index) => {
                        &&& exists|r: bool| #![auto]
                            note_updated(a.data@, b.data@, item_id, index, t, r)
                                && b.dirty == (a.dirty || r)
                        &&& b.mode == (Mode::Notes { item_id, selected: index })
                    },
                    None => {
                        &&& exists|r: bool| #![auto]
                            note_added(a.data@, b.data@, item_id, t, a.today, r)
                                && b.dirty == (a.dirty || r)
                        &&& b.mode == (Mode::Notes {
                            item_id,
                            selected: last_note(b.data@, item_id) as usize,
                        })
                    },
                })
                &&& b.input@.text.len() == 0
                &&& b == (App {
                    data: b.data,
                    mode: b.mode,
                    input: b.input,
                    dirty: b.dirty,
                    ..a
                })
            },
            _ => b == a,
        }
    }

    /// Saves the line as the entry being edited, or as a new entry dated
    /// today, and goes back to the log with that entry highlighted. An empty
    /// line changes no entry.
    pub fn submit_note(&mut self)
        requires
            old(self).today.valid(),
        ensures
            Self::after_submit_note(*old(self), *final(self)),
    {
        let (item_id, edit_index) = match &self.mode {
            Mode::NoteInput { item_id, edit_index } => (*item_id, *edit_index),
            _ => return,
        };
        let cs = chars_of(self.input.text());
        let tc = trim_chars(cs.as_slice());
        let text = string_of(tc.as_slice());
        let selected = match edit_index {
            Some(index) => {
                if self.data.update_note(item_id, index, text.as_str()) {
                    self.mark_dirty();
                }
                index
            },
            None => {
                let today = self.today;
                if self.data.add_note_on(item_id, text.as_str(), today) {
                    self.mark_dirty();
                }
                self.data.last_note_index(item_id)
            },
        };
        self.input.clear();
        self.mode = Mode::Notes { item_id, selected };
    }

    /// Whether `b` is what `cancel_note` leaves of `a`.
    pub open spec fn after_cancel_note(a: App, b: App) -> bool {
        match a.mode {
            Mode::NoteInput { item_id, edit_index } => {
                &&& b.mode == (Mode::Notes {
                    item_id,
                    selected: match edit_index {
                        Some(i) => i,
                        None => last_note(a.data@, item_id) as usize,
                    },
                })
                &&& b.input@.text.len() == 0
                &&& b == (App { mode: b.mode, input: b.input, ..a })
            },
            _ => b == a,
        }
    }

    /// Leaves the line without saving, back to the log on the entry being
    /// edited, or on the newest entry.
    pub fn cancel_note(&mut self)
        ensures
            Self::after_cancel_note(*old(self), *final(self)),
    {
        let (item_id, edit_index) = match &self.mode {
            Mode::NoteInput { item_id, edit_index } => (*item_id, *edit_index),
            _ => return,
        };
        let selected = match edit_index {
            Some(i) => i,
            None => self.data.last_note_index(item_id),
        };
        self.input.clear();
        self.mode = Mode::Notes { item_id, selected };
    }

    /// Whether `b` is what `delete_note` leaves of `a`.
    pub open spec fn after_delete_note(a: App, b: App) -> bool {
        match a.mode {
            Mode::Notes { item_id, selected } => {
                let i = find_item(a.data@.items, item_id);
                if i < 0 || selected >= a.data@.items[i].notes@.len() {
                    b == a
                } else {
                    let note = a.data@.items[i].notes@[selected as int];
                    &&& note_deleted(a.data@, b.data@, item_id, selected, Some(note))
                    &&& b.undo_stack@ == pushed(a.undo_stack@, UndoEntry::NoteDelete { item_id, index: selected, note })
                    &&& b.mode == (Mode::Notes {
                        item_id,
                        selected: if (selected as int) < last_note(b.data@, item_id) {
                            selected
                        } else {
                            last_note(b.data@, item_id) as usize
                        },
                    })
                    &&& b == (App {
                        data: b.data,
                        undo_stack: b.undo_stack,
                        dirty: true,
                        mode: b.mode,
                        ..a
                    })
                }
            },
            _ => b == a,
        }
    }

    /// Deletes the highlighted entry of the log, recording it to undo, and
    /// keeps the highlight within the log.
    pub fn delete_note(&mut self)
        ensures
            Self::after_delete_note(*old(self), *final(self)),
    {
        let (item_id, selected) = match &self.mode {
            Mode::Notes { item_id, selected } => (*item_id, *selected),
            _ => return,
        };
        let exists = match self.data.get(item_id) {
            Some(item) => selected < item.notes.len(),
            None => false,
        };
        if !exists {
            return;
        }
        match self.data.delete_note(item_id, selected) {
            Some(note) => {
                self.push_undo(UndoEntry::NoteDelete { item_id, index: selected, note });
                self.mark_dirty();
                let last = self.data.last_note_index(item_id);
                let next = if selected < last {
                    selected
                } else {
                    last
                };
                self.mode = Mode::Notes { item_id, selected: next };
            },
            None => {},
        }
    }

    /// The text of the highlighted entry of the log, to put on the system
    /// clipboard.
    pub fn yank_note(&self) -> (r: Effect)
        ensures
            match self.mode {
                Mode::Notes { item_id, selected } => {
                    let i = find_item(self.data@.items, item_id);
                    if i < 0 || selected >= self.data@.items[i].notes@.len() {
                        r is Continue
                    } else {
                        r matches Effect::WriteClipboard(t) && t@ == self.data@.items[i].notes@[selected as int].text@
                    }
                },
                _ => r is Continue,
            },
    {
        let (item_id, selected) = match &self.mode {
            Mode::Notes { item_id, selected } => (*item_id, *selected),
            _ => return Effect::Continue,
        };
        match self.data.get(item_id) {
            Some(item) => {
                if selected < item.notes.len() {
                    Effect::WriteClipboard(item.notes[selected].text.clone())
                } else {
                    Effect::Continue
                }
            },
            None => Effect::Continue,
        }
    }

    /// Whether `b` is what `cycle_note_display` leaves of `a`.
    pub open spec fn after_cycle_note_display(a: App, b: App) -> bool {
        b == (App { note_display: crate::defs::next_display(a.note_display), ..a })
    }

    /// Shows less of the notes inline (all, latest, hidden, all again).
    pub fn cycle_note_display(&mut self)
        ensures
            Self::after_cycle_note_display(*old(self), *final(self)),
    {
        self.note_display = self.note_display.next();
    }
}

} // verus!
