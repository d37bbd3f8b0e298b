//! Choosing a due date: opening the calendar on the date to start from,
//! moving through it or typing a date, and saving or dropping the choice.

use vstd::prelude::*;

use crate::data::{find_item, map_item, TodoItem};
use crate::date::{add_months_spec, epoch_day_floor, epoch_day_limit, iso_text, parse_date, Date};
use crate::defs::Mode;
use crate::text::{chars_of, string_of, trim, trim_chars};
use super::popups::returned;
use super::App;

verus! {

/// The date the calendar opens on: the due date of the item being edited,
/// else the date chosen for the item being written, else today.
pub open spec fn start_date(a: App, edit_id: Option<u64>) -> Date {
    let from_item = match edit_id {
        Some(id) => {
            let i = find_item(a.data@.items, id);
            if i < 0 {
                None
            } else {
                match a.data@.items[i].due_date {
                    Some(d) => parse_date(d@),
                    None => None,
                }
            }
        },
        None => None,
    };
    match from_item {
        Some(d) => d,
        None => match a.pending_due_date {
            Some(p) => match parse_date(p@) {
                Some(d) => d,
                None => a.today,
            },
            None => a.today,
        },
    }
}

/// Whether `b` is `a` after leaving the calendar: back to the previous mode
/// when the calendar was opened for a new item or from browsing, else back
/// to editing with the line as it was.
pub open spec fn back_from_calendar(a: App, b: App, edit_id: Option<u64>, saved_text: Seq<char>, from_new: bool, from_normal: bool) -> bool {
    if from_new || from_normal {
        returned(a, b)
    } else {
        &&& b.input@.text == saved_text
        &&& b.mode == (Mode::Editing { edit_id })
        &&& b == (App { input: b.input, mode: b.mode, ..a })
    }
}

impl App {
    /// The date the calendar opens on, as `start_date` says.
    pub fn initial_due_date(&self, edit_id: Option<u64>) -> (r: Date)
        ensures
            r == start_date(*self, edit_id),
    {
        let from_item = match edit_id {
            Some(id) => match self.data.get(id) {
                Some(item) => match &item.due_date {
                    Some(d) => Date::parse(d.as_str()),
                    None => None,
                },
                None => None,
            },
            None => None,
        };
        match from_item {
            Some(d) => d,
            None => match &self.pending_due_date {
                Some(p) => match Date::parse(p.as_str()) {
                    Some(d) => d,
                    None => self.today,
                },
                None => self.today,
            },
        }
    }

    /// Leaves the calendar, as `back_from_calendar` says.
    pub fn restore_after_due_date(&mut self, edit_id: Option<u64>, saved_text: String, from_new: bool, from_normal: bool)
        requires
            old(self).today.valid(),
        ensures
            back_from_calendar(*old(self), *final(self), edit_id, saved_text@, from_new, from_normal),
    {
        if from_new || from_normal {
            self.return_after_secondary_mode();
        } else {
            self.input.set_text(saved_text.as_str());
            self.mode = Mode::Editing { edit_id };
        }
    }

    /// Whether `b` is what `set_due_date_action` leaves of `a`.
    pub open spec fn after_set_due_date_action(a: App, b: App) -> bool {
        ({
            let target = match a.mode {
                Mode::Editing { edit_id } => Some((edit_id, false)),
                Mode::Normal => Some((a.selected_id(), true)),
                Mode::Searching => Some((a.selected_id(), true)),
                _ => None,
            };
            match target {
                None => b == a,
                Some((edit_id, from_normal)) => {
                    let d = start_date(a, edit_id);
                    &&& b.mode matches Mode::DueDateCalendar {
                        edit_id: e,
                        saved_text,
                        from_new,
                        from_normal: fnorm,
                        selected,
                        prompt_focused,
                    } && e == edit_id && saved_text@ == a.input@.text && !from_new && fnorm
                        == from_normal && selected == d && !prompt_focused
                    &&& b.input@.text == iso_text(d)
                    &&& (a.mode is Searching ==> (b.saved_search matches Some(s) && s@
                        == a.input@.text))
                    &&& (!(a.mode is Searching) ==> b.saved_search == a.saved_search)
                    &&& b == (App {
                        mode: b.mode,
                        input: b.input,
                        saved_search: b.saved_search,
                        ..a
                    })
                },
            }
        })
    }

    /// Opens the calendar for the item being edited, or, from browsing or
    /// searching, for the highlighted item (putting the search aside), on
    /// the date to start from; other modes are left alone.
    pub fn set_due_date_action(&mut self)
        requires
            old(self).today.valid(),
        ensures
            Self::after_set_due_date_action(*old(self), *final(self)),
    {
        let (edit_id, from_normal) = match &self.mode {
            Mode::Editing { edit_id } => (*edit_id, false),
            Mode::Normal => (self.selected_item_id(), true),
            Mode::Searching => {
                let id = self.selected_item_id();
                self.saved_search = Some(self.input.text().to_string());
                (id, true)
            },
            _ => return,
        };
        let saved_text = self.input.text().to_string();
        let selected = self.initial_due_date(edit_id);
        let iso = selected.iso();
        self.input.set_text(iso.as_str());
        self.mode = Mode::DueDateCalendar {
            edit_id,
            saved_text,
            from_new: false,
            from_normal,
            selected,
            prompt_focused: false,
        };
    }

    /// Whether `b` is what `submit_due_date` leaves of `a`.
    pub open spec fn after_submit_due_date(a: App, b: App) -> bool {
        &&& b.today == a.today
        &&& match a.mode {
                Mode::DueDateCalendar { edit_id, saved_text, from_new, from_normal, .. } => {
                    match parse_date(trim(a.input@.text)) {
                        None => b == a,
                        Some(d) => {
                            let date = iso_text(d);
                            let mid = match edit_id {
                                Some(id) => App { data: b.data, dirty: true, ..a },
                                None => App { pending_due_date: b.pending_due_date, ..a },
                            };
                            &&& (match edit_id {
                                Some(id) => exists|s: String| #![trigger s@]
                                    s@ == date && b.data@ == map_item(
                                        a.data@,
                                        id,
                                        |it: TodoItem| (TodoItem { due_date: Some(s), ..it }),
                                    ),
                                None => b.pending_due_date matches Some(p) && p@ == date,
                            })
                            &&& back_from_calendar(mid, b, edit_id, saved_text@, from_new, from_normal)
                        },
                    }
                },
                _ => back_from_calendar(a, b, None, Seq::empty(), false, false),
            }
    }

    /// Saves the date typed on the calendar's line: on the item, or for the
    /// item being written; a line that is not a date keeps the calendar
    /// open; an empty choice saves nothing. Then leaves the calendar.
    pub fn submit_due_date(&mut self)
        requires
            old(self).today.valid(),
        ensures
            Self::after_submit_due_date(*old(self), *final(self)),
    {
        let (edit_id, saved_text, from_new, from_normal, date) = match &self.mode {
            Mode::DueDateCalendar { edit_id, saved_text, from_new, from_normal, .. } => {
                let cs = chars_of(self.input.text());
                let t = trim_chars(cs.as_slice());
                let ts = string_of(t.as_slice());
                let date = match Date::parse(ts.as_str()) {
                    Some(d) => Some(d.iso()),
                    None => None,
                };
                (*edit_id, saved_text.clone(), *from_new, *from_normal, date)
            },
            _ => (None, String::new(), false, false, Some(String::new())),
        };
        let date = match date {
            Some(d) => d,
            None => return,
        };
        let dc = chars_of(date.as_str());
        if dc.len() > 0 {
            match edit_id {
                Some(id) => {
                    self.data.set_due_date(id, Some(date));
                    self.mark_dirty();
                },
                None => {
                    self.pending_due_date = Some(date);
                },
            }
        }
        self.restore_after_due_date(edit_id, saved_text, from_new, from_normal);
    }
}

/// The calendar date moved to `d`: `a` with the calendar's highlighted date
/// and its line both showing `d`.
pub open spec fn calendar_at(a: App, b: App, d: Date) -> bool {
    &&& b.mode matches Mode::DueDateCalendar { selected, .. } && selected == d
    &&& (match (a.mode, b.mode) {
        (
            Mode::DueDateCalendar { edit_id, saved_text, from_new, from_normal, prompt_focused, .. },
            Mode::DueDateCalendar { edit_id: e2, saved_text: s2, from_new: n2, from_normal: f2, prompt_focused: p2, .. },
        ) => e2 == edit_id && s2 == saved_text && n2 == from_new && f2 == from_normal && p2 == prompt_focused,
        _ => false,
    })
    &&& b.input@.text == iso_text(d)
    &&& b == (App { mode: b.mode, input: b.input, ..a })
}

/// Whether the calendar's date can move by `days` days: it is a valid date
/// and the result stays within the dates that an `i32` year can hold.
pub open spec fn can_move_days(m: Mode, days: i32) -> bool {
    match m {
        Mode::DueDateCalendar { selected, .. } => selected.valid() && epoch_day_floor() <= selected.epoch_day() + days < epoch_day_limit(),
        _ => true,
    }
}

/// Whether the calendar's date can move by `months` months within the years
/// that an `i32` can hold.
pub open spec fn can_move_months(m: Mode, months: i32) -> bool {
    match m {
        Mode::DueDateCalendar { selected, .. } => {
            &&& selected.valid()
            &&& i32::MIN <= (selected.year as int) * 12 + selected.month - 1 + months <= i32::MAX
            &&& i32::MIN <= (selected.year as int) * 12 <= i32::MAX
            &&& (selected.year as int) * 12 + selected.month <= i32::MAX
        },
        _ => true,
    }
}

impl App {
    /// Puts `d` as the calendar's highlighted date and its line.
    fn calendar_show(&mut self, d: Date)
        requires
            old(self).mode is DueDateCalendar,
        ensures
            calendar_at(*old(self), *final(self), d),
    {
        let mut mode = Mode::Normal;
        std::mem::swap(&mut self.mode, &mut mode);
        self.mode = match mode {
            Mode::DueDateCalendar { edit_id, saved_text, from_new, from_normal, prompt_focused, .. } => Mode::DueDateCalendar {
                edit_id,
                saved_text,
                from_new,
                from_normal,
                selected: d,
                prompt_focused,
            },
            other => other,
        };
        let iso = d.iso();
        self.input.set_text(iso.as_str());
    }

    /// Whether `b` is what `cancel_due_date` leaves of `a`.
    pub open spec fn after_cancel_due_date(a: App, b: App) -> bool {
        &&& b.today == a.today
        &&& match a.mode {
                Mode::DueDateCalendar { edit_id, saved_text, from_new, from_normal, .. } => back_from_calendar(
                    a,
                    b,
                    edit_id,
                    saved_text@,
                    from_new,
                    from_normal,
                ),
                _ => back_from_calendar(a, b, None, Seq::empty(), false, false),
            }
    }

    /// Leaves the calendar without saving.
    pub fn cancel_due_date(&mut self)
        requires
            old(self).today.valid(),
        ensures
            Self::after_cancel_due_date(*old(self), *final(self)),
    {
        let (edit_id, saved_text, from_new, from_normal) = match &self.mode {
            Mode::DueDateCalendar { edit_id, saved_text, from_new, from_normal, .. } => (
                *edit_id,
                saved_text.clone(),
                *from_new,
                *from_normal,
            ),
            _ => (None, String::new(), false, false),
        };
        self.restore_after_due_date(edit_id, saved_text, from_new, from_normal);
    }

    /// Whether `b` is what `calendar_move` leaves of `a`.
    pub open spec fn after_calendar_move(a: App, b: App, days: i32) -> bool {
        match a.mode {
            Mode::DueDateCalendar { selected, .. } => exists|d: Date| #![trigger d.epoch_day()]
                d.valid() && d.epoch_day() == selected.epoch_day() + days && calendar_at(a, b, d),
            _ => b == a,
        }
    }

    /// Moves the calendar's date by `days` days.
    pub fn calendar_move(&mut self, days: i32)
        requires
            can_move_days(old(self).mode, days),
        ensures
            Self::after_calendar_move(*old(self), *final(self), days),
    {
        let current = match &self.mode {
            Mode::DueDateCalendar { selected, .. } => *selected,
            _ => return,
        };
        let next = current.add_days(days);
        self.calendar_show(next);
    }

    /// Whether `b` is what `calendar_month` leaves of `a`.
    pub open spec fn after_calendar_month(a: App, b: App, months: i32) -> bool {
        match a.mode {
            Mode::DueDateCalendar { selected, .. } => calendar_at(
                a,
                b,
                add_months_spec(selected, months as int),
            ),
            _ => b == a,
        }
    }

    /// Moves the calendar's date by `months` months, to the same day or the
    /// last day of a shorter month.
    pub fn calendar_month(&mut self, months: i32)
        requires
            can_move_months(old(self).mode, months),
        ensures
            Self::after_calendar_month(*old(self), *final(self), months),
    {
        let current = match &self.mode {
            Mode::DueDateCalendar { selected, .. } => *selected,
            _ => return,
        };
        let next = current.add_months(months);
        self.calendar_show(next);
    }

    /// Whether `b` is what `calendar_today` leaves of `a`.
    pub open spec fn after_calendar_today(a: App, b: App) -> bool {
        &&& a.mode is DueDateCalendar ==> calendar_at(a, b, a.today)
        &&& !(a.mode is DueDateCalendar) ==> b == a
    }

    /// Moves the calendar to today.
    pub fn calendar_today(&mut self)
        ensures
            Self::after_calendar_today(*old(self), *final(self)),
    {
        if let Mode::DueDateCalendar { .. } = &self.mode {
            let today = self.today;
            self.calendar_show(today);
        }
    }

    /// Whether `b` is what `calendar_clear` leaves of `a`.
    pub open spec fn after_calendar_clear(a: App, b: App) -> bool {
        &&& b.today == a.today
        &&& ({
                let (edit_id, saved_text, from_new, from_normal) = match a.mode {
                    Mode::DueDateCalendar { edit_id, saved_text, from_new, from_normal, .. } => (
                        edit_id,
                        saved_text@,
                        from_new,
                        from_normal,
                    ),
                    _ => (None, Seq::empty(), false, false),
                };
                let mid = match edit_id {
                    Some(id) => App { data: b.data, dirty: true, ..a },
                    None => App { pending_due_date: None, ..a },
                };
                &&& (match edit_id {
                    Some(id) => b.data@ == map_item(
                        a.data@,
                        id,
                        |it: TodoItem| (TodoItem { due_date: None, ..it }),
                    ),
                    None => true,
                })
                &&& back_from_calendar(mid, b, edit_id, saved_text, from_new, from_normal)
            })
    }

    /// Clears the due date of the item, or the one chosen for the item being
    /// written, and leaves the calendar.
    pub fn calendar_clear(&mut self)
        requires
            old(self).today.valid(),
        ensures
            Self::after_calendar_clear(*old(self), *final(self)),
    {
        let (edit_id, saved_text, from_new, from_normal) = match &self.mode {
            Mode::DueDateCalendar { edit_id, saved_text, from_new, from_normal, .. } => (
                *edit_id,
                saved_text.clone(),
                *from_new,
                *from_normal,
            ),
            _ => (None, String::new(), false, false),
        };
        match edit_id {
            Some(id) => {
                self.data.set_due_date(id, None);
                self.mark_dirty();
            },
            None => {
                self.pending_due_date = None;
            },
        }
        self.restore_after_due_date(edit_id, saved_text, from_new, from_normal);
    }

    /// Whether `b` is what `calendar_text_changed` leaves of `a`.
    pub open spec fn after_calendar_text_changed(a: App, b: App) -> bool {
        match a.mode {
            Mode::DueDateCalendar { edit_id, saved_text, from_new, from_normal, selected, .. } => {
                &&& b.mode == (Mode::DueDateCalendar {
                    edit_id,
                    saved_text,
                    from_new,
                    from_normal,
                    selected: match parse_date(trim(a.input@.text)) {
                        Some(d) => d,
                        None => selected,
                    },
                    prompt_focused: true,
                })
                &&& b == (App { mode: b.mode, ..a })
            },
            _ => b == a,
        }
    }

    /// After typing on the calendar's line: the line has the focus, and a
    /// line that reads as a date moves the calendar there.
    pub fn calendar_text_changed(&mut self)
        ensures
            Self::after_calendar_text_changed(*old(self), *final(self)),
    {
        if !matches!(self.mode, Mode::DueDateCalendar { .. }) {
            return;
        }
        let cs = chars_of(self.input.text());
        let t = trim_chars(cs.as_slice());
        let ts = string_of(t.as_slice());
        let parsed = Date::parse(ts.as_str());
        let mut mode = Mode::Normal;
        std::mem::swap(&mut self.mode, &mut mode);
        self.mode = match mode {
            Mode::DueDateCalendar { edit_id, saved_text, from_new, from_normal, selected, .. } => Mode::DueDateCalendar {
                edit_id,
                saved_text,
                from_new,
                from_normal,
                selected: match parsed {
                    Some(d) => d,
                    None => selected,
                },
                prompt_focused: true,
            },
            other => other,
        };
    }

    /// Whether `b` is what `calendar_toggle_focus` leaves of `a`.
    pub open spec fn after_calendar_toggle_focus(a: App, b: App) -> bool {
        match a.mode {
            Mode::DueDateCalendar { edit_id, saved_text, from_new, from_normal, selected, prompt_focused } => {
                &&& b.mode == (Mode::DueDateCalendar {
                    edit_id,
                    saved_text,
                    from_new,
                    from_normal,
                    selected,
                    prompt_focused: !prompt_focused,
                })
                &&& b == (App { mode: b.mode, ..a })
            },
            _ => b == a,
        }
    }

    /// Moves the focus between the calendar and its line.
    pub fn calendar_toggle_focus(&mut self)
        ensures
            Self::after_calendar_toggle_focus(*old(self), *final(self)),
    {
        if !matches!(self.mode, Mode::DueDateCalendar { .. }) {
            return;
        }
        let mut mode = Mode::Normal;
        std::mem::swap(&mut self.mode, &mut mode);
        self.mode = match mode {
            Mode::DueDateCalendar { edit_id, saved_text, from_new, from_normal, selected, prompt_focused } => Mode::DueDateCalendar {
                edit_id,
                saved_text,
                from_new,
                from_normal,
                selected,
                prompt_focused: !prompt_focused,
            },
            other => other,
        };
    }
}

} // verus!
