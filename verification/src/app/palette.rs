//! Running a command typed or picked in the palette.

use vstd::prelude::*;

use crate::commands::{has_subcommands, has_visible_subcommands, skip_word, skip_ws, word_run, ws_run};
use crate::data::{category_renamed, find_item, not_done, TodoDataView};
use crate::defs::{display_from_label, CategoryPickerTarget, DueFilter, Mode, MultiSelectCmd, NoteDisplay, Pane, RenameTarget, SortMode};
use crate::menus::{sort_index, theme_index, theme_index_by_name};
use crate::text::{chars_of, chars_starts_with, lowercase, starts_with, str_eq, str_to_lowercase, string_of, sub_chars, trim, trim_chars};
use super::bulk::{
    archive_data, archive_ids_names, archive_in_sidebar, archive_recorded, archived_by, ci_within, done_archived, highlighted_archived,
    kind_done, kind_highlighted, kind_visible, visible_archived,
};
use super::categories::clamp_to;
use super::App;

verus! {

/// Position of the first space in `s`, or its length.
pub open spec fn space_at(s: Seq<char>) -> int
    decreases s.len(),
{
    if s.len() == 0 || s[0] == ' ' {
        0
    } else {
        1 + space_at(s.drop_first())
    }
}

pub proof fn lemma_space_at(s: Seq<char>, i: int)
    requires
        0 <= i <= s.len(),
        forall|j: int| 0 <= j < i ==> s[j] != ' ',
        i == s.len() || s[i] == ' ',
    ensures
        space_at(s) == i,
    decreases i,
{
    if i > 0 {
        lemma_space_at(s.drop_first(), i - 1);
    }
}

/// A palette line read as a command and its argument: trimmed, cut at the
/// first space; the command lower-cased, the argument (what follows that
/// space) only when there is a space.
pub open spec fn command_parts(raw: Seq<char>) -> (Seq<char>, Option<Seq<char>>) {
    let t = trim(raw);
    let k = space_at(t);
    (lowercase(t.take(k)), if k < t.len() {
        Some(t.skip(k + 1))
    } else {
        None
    })
}

/// Whether `c` is one of the names `a` or `b` of a command.
pub open spec fn named(c: Seq<char>, a: &'static str, b: &'static str) -> bool {
    c == a@ || c == b@
}

/// The due filter that `due <arg>` sets: a window, none (for `clear`,
/// `all` or no argument), or the current one for anything else.
pub open spec fn due_arg(arg: Option<Seq<char>>, current: Option<DueFilter>) -> Option<DueFilter> {
    match arg {
        Some(x) => if x == "today"@ {
            Some(DueFilter::Today)
        } else if x == "week"@ {
            Some(DueFilter::Week)
        } else if x == "overdue"@ {
            Some(DueFilter::Overdue)
        } else if x == "clear"@ || x == "all"@ {
            None
        } else {
            current
        },
        None => None,
    }
}

/// The sort order that `sort <arg>` sets, if the argument names one.
pub open spec fn sort_arg(arg: Option<Seq<char>>) -> Option<SortMode> {
    match arg {
        Some(x) => if x == "priority"@ {
            Some(SortMode::Priority)
        } else if x == "due"@ {
            Some(SortMode::DueDate)
        } else if x == "default"@ {
            Some(SortMode::Default)
        } else {
            None
        },
        None => None,
    }
}

/// The first two words of `x`, when it has a second one, as `rename`
/// reads them.
pub open spec fn two_words(x: Seq<char>) -> Option<(Seq<char>, Seq<char>)> {
    let a = ws_run(x);
    let b = a + word_run(x.skip(a));
    let c = b + ws_run(x.skip(b));
    if c < x.len() {
        let d = c + word_run(x.skip(c));
        Some((x.subrange(a, b), x.subrange(c, d)))
    } else {
        None
    }
}

/// Whether `w` is what `rename` with `arg` leaves of the data `v`: with two
/// words, the branch of the first renamed to the second; otherwise the
/// data unchanged.
pub open spec fn renamed_by(v: TodoDataView, w: TodoDataView, arg: Option<Seq<char>>) -> bool {
    match arg {
        Some(x) => match two_words(x) {
            Some(p) => category_renamed(v, w, p.0, p.1, true) || category_renamed(v, w, p.0, p.1, false),
            None => w == v,
        },
        None => w == v,
    }
}

/// Whether `b` is what `rename` without an argument opens on `a`: the
/// rename line holding the highlighted sidebar path, or the highlighted
/// item's text; browsing when nothing is highlighted.
pub open spec fn rename_opened(a: App, b: App) -> bool {
    if a.pane == Pane::Categories {
        if 0 < a.category_index <= a.rows().len() {
            let p = a.rows()[a.category_index - 1].path;
            &&& b.input@.text == p
            &&& match b.mode {
                Mode::RenameInput { target } => match target {
                    RenameTarget::Category(q) => q@ == p,
                    _ => false,
                },
                _ => false,
            }
        } else {
            b.mode is Normal
        }
    } else {
        match a.selected_id() {
            Some(id) => {
                let i = find_item(a.data@.items, id);
                &&& b.mode == (Mode::RenameInput { target: RenameTarget::Item(id) })
                &&& b.input@.text == (if i >= 0 {
                    a.data@.items[i].text@
                } else {
                    Seq::empty()
                })
            },
            None => b.mode is Normal,
        }
    }
}

/// The mode that `archive` with `arg` leaves: the archive menu without a
/// known argument, bulk archiving or restoring, the archived view switched,
/// or browsing.
pub open spec fn archive_mode(a: App, b: App, arg: Option<Seq<char>>) -> bool {
    match arg {
        None => b.mode == (Mode::ArchivePicker { selected: 0 }),
        Some(x) => {
            let k = archive_branch(x);
            if k == 8 {
                b.mode == (Mode::ArchivePicker { selected: 0 })
            } else if k == 1 {
                b.mode matches Mode::MultiSelect { cmd, .. } && cmd == MultiSelectCmd::Archive
            } else if k == 6 {
                b.mode matches Mode::MultiSelect { cmd, .. } && cmd == MultiSelectCmd::RestoreArchive
            } else if k == 2 {
                b.show_archived == !a.show_archived && b.mode is Normal
            } else {
                b.mode is Normal
            }
        },
    }
}

/// The data after `archive` with `arg` runs on `a`: the highlighted item
/// or branch, the done items or everything visible archived (or restored);
/// the other arguments leave the data alone.
pub open spec fn archive_command_data(a: App, arg: Option<Seq<char>>) -> TodoDataView {
    match arg {
        Some(x) => {
            let k = archive_branch(x);
            if k == 0 {
                highlighted_archived(a, true)
            } else if k == 3 {
                done_archived(a)
            } else if k == 4 {
                visible_archived(a, true)
            } else if k == 5 {
                visible_archived(a, false)
            } else if k == 7 {
                highlighted_archived(a, false)
            } else {
                a.data@
            }
        },
        None => a.data@,
    }
}

/// `a` with the fields the palette itself works on taken from `b`: the
/// mode, the line and its completions, the list highlight, the search put
/// aside and the places to go back to.
pub open spec fn palette_fields(a: App, b: App) -> App {
    App {
        mode: b.mode,
        input: b.input,
        completions: b.completions,
        completion_index: b.completion_index,
        selected_index: b.selected_index,
        saved_search: b.saved_search,
        popup_back_stack: b.popup_back_stack,
        ..a
    }
}

/// The archive step that `archive` with `arg` takes, as a kind and the flag
/// it sets: one (0), done (3), all (4), restore all (5), restore one (7).
pub open spec fn archive_command_kind(arg: Option<Seq<char>>) -> Option<(int, bool)> {
    match arg {
        Some(x) => {
            let k = archive_branch(x);
            if k == 0 {
                Some((kind_highlighted(), true))
            } else if k == 3 {
                Some((kind_done(), true))
            } else if k == 4 {
                Some((kind_visible(), true))
            } else if k == 5 {
                Some((kind_visible(), false))
            } else if k == 7 {
                Some((kind_highlighted(), false))
            } else {
                None
            }
        },
        None => None,
    }
}

/// The archive step that `unarchive` with `arg` takes.
pub open spec fn unarchive_command_kind(arg: Option<Seq<char>>) -> (int, bool) {
    if arg == Some("all"@) {
        (kind_visible(), false)
    } else {
        (kind_highlighted(), false)
    }
}

/// Whether `b` records to undo and marks changed what the archive step of
/// kind `k` setting the flag to `f` flips in `a`, keeping the sidebar
/// highlight within the rows, as `archived_by` says.
pub open spec fn command_archived(a: App, b: App, k: int, f: bool) -> bool {
    let (ids, names) = archive_ids_names(a, k, f);
    &&& archive_recorded(a.undo_stack@, b.undo_stack@, ids, names, !f)
    &&& b.dirty == (a.dirty || archive_in_sidebar(a, k) || ids.len() > 0)
    &&& b.category_index == (if archive_in_sidebar(a, k) {
        ci_within(a.category_index, b.rows().len() as int)
    } else {
        a.category_index
    })
}

/// The fields that running command `c` with `arg` may change besides the
/// palette's own: `b` agrees with `a` on every other field, and the
/// archiving commands record their step to undo.
pub open spec fn command_frame(a: App, b: App, c: Seq<char>, arg: Option<Seq<char>>) -> bool {
    let p = palette_fields(a, b);
    if named(c, "search", "s") {
        b == (App { filter: b.filter, ..p })
    } else if named(c, "delete", "d") {
        b == p
    } else if named(c, "done", "x") {
        b == (App { pane: b.pane, ..p })
    } else if c == "select"@ {
        b == p
    } else if named(c, "clear", "c") {
        b == (App { data: b.data, dirty: b.dirty, ..p })
    } else if c == "archive"@ {
        &&& match archive_command_kind(arg) {
            Some(kf) => command_archived(a, b, kf.0, kf.1),
            None => b.undo_stack == a.undo_stack && b.dirty == a.dirty && b.category_index == a.category_index,
        }
        &&& b == (App {
            data: b.data,
            undo_stack: b.undo_stack,
            dirty: b.dirty,
            category_index: b.category_index,
            show_archived: b.show_archived,
            ..p
        })
    } else if c == "archived"@ {
        b == (App { show_archived: b.show_archived, ..p })
    } else if c == "unarchive"@ {
        &&& command_archived(a, b, unarchive_command_kind(arg).0, unarchive_command_kind(arg).1)
        &&& b == (App { data: b.data, undo_stack: b.undo_stack, dirty: b.dirty, category_index: b.category_index, ..p })
    } else if c == "due"@ {
        b == (App { due_filter: b.due_filter, ..p })
    } else if c == "rename"@ {
        b == (App { data: b.data, dirty: b.dirty, category_filter: b.category_filter, ..p })
    } else if c == "filter"@ || c == "reset"@ {
        b == (App {
            filter: b.filter,
            due_filter: b.due_filter,
            priority_filter: b.priority_filter,
            category_filter: b.category_filter,
            category_index: b.category_index,
            show_archived: b.show_archived,
            sort_mode: b.sort_mode,
            ..p
        })
    } else if named(c, "move", "m") {
        b == p
    } else if named(c, "notes", "n") {
        b == (App { note_display: b.note_display, ..p })
    } else if c == "themes"@ || named(c, "priorities", "p") || c == "help"@ || named(c, "keybindings", "k") {
        b == p
    } else if c == "sidebar"@ {
        b == (App { pane: b.pane, ..p })
    } else if named(c, "categories", "cat") {
        b == p
    } else if c == "sort"@ {
        b == (App { sort_mode: b.sort_mode, ..p })
    } else {
        b == p
    }
}

/// The fields a command may change stay so when the search put aside was
/// dropped before it ran and only the palette's own fields change after.
#[verifier::rlimit(60)]
proof fn lemma_command_frame_around(a: App, a2: App, m: App, b: App, c: Seq<char>, arg: Option<Seq<char>>)
    requires
        command_frame(a2, m, c, arg),
        a2 == (App { saved_search: a2.saved_search, ..a }),
        b == palette_fields(m, b),
    ensures
        command_frame(a, b, c, arg),
{
    assert(b.rows() == m.rows());
    if c == "archive"@ || c == "unarchive"@ {
        let kf = if c == "archive"@ {
            archive_command_kind(arg)
        } else {
            Some(unarchive_command_kind(arg))
        };
        if let Some((k, f)) = kf {
            assert(a2.shown() == a.shown());
            assert(a2.rows() == a.rows());
            assert(archive_ids_names(a2, k, f) == archive_ids_names(a, k, f));
            assert(archive_in_sidebar(a2, k) == archive_in_sidebar(a, k));
        }
    }
}

/// What running command `c` with `arg` leaves: `b` is `a` after it, told by
/// the mode it opens, the filters and settings it sets and what it does to
/// the data.
pub open spec fn command_effect(a: App, b: App, c: Seq<char>, arg: Option<Seq<char>>) -> bool {
    if named(c, "search", "s") {
        &&& b.mode is Searching
        &&& b.filter@ == (match arg {
            Some(x) => x,
            None => Seq::empty(),
        })
        &&& b.input@.text == b.filter@
        &&& b.data == a.data
    } else if named(c, "delete", "d") {
        &&& b.mode matches Mode::MultiSelect { cmd, selected, selected_categories } && cmd == MultiSelectCmd::Delete
            && selected@.len() == 0 && selected_categories@.len() == 0
        &&& b.data == a.data
    } else if named(c, "done", "x") {
        &&& b.mode matches Mode::MultiSelect { cmd, selected, selected_categories } && cmd
            == MultiSelectCmd::ToggleDone && selected@.len() == 0 && selected_categories@.len() == 0
        &&& b.pane == Pane::Items
        &&& b.data == a.data
    } else if c == "select"@ {
        &&& b.mode matches Mode::MultiSelect { cmd, selected, selected_categories } && cmd == MultiSelectCmd::PickAction
            && selected@.len() == 0 && selected_categories@.len() == 0
        &&& b.data == a.data
    } else if named(c, "clear", "c") {
        &&& b.data@ == (TodoDataView { items: not_done(a.data@.items), ..a.data@ })
        &&& b.dirty
        &&& b.mode is Normal
    } else if c == "archive"@ {
        &&& archive_mode(a, b, arg)
        &&& b.data@ == archive_command_data(a, arg)
    } else if c == "archived"@ {
        &&& b.show_archived == !a.show_archived
        &&& b.mode is Normal
        &&& b.data == a.data
    } else if c == "unarchive"@ {
        &&& b.mode is Normal
        &&& b.data@ == (if arg == Some("all"@) {
            visible_archived(a, false)
        } else {
            highlighted_archived(a, false)
        })
    } else if c == "due"@ {
        &&& b.due_filter == due_arg(arg, a.due_filter)
        &&& b.mode is Normal
        &&& b.data == a.data
    } else if c == "rename"@ {
        &&& if arg is None {
            rename_opened(a, b)
        } else {
            b.mode is Normal
        }
        &&& renamed_by(a.data@, b.data@, arg)
    } else if c == "filter"@ {
        &&& b.data == a.data
        &&& match arg {
            Some(x) => if x == "due"@ {
                b.mode == (Mode::DueDateFilterPicker { selected: 0 })
            } else if x == "priority"@ {
                b.mode == (Mode::PriorityPicker { selected: 0 })
            } else if x == "category"@ {
                b.mode == (Mode::CategoryFilterPicker { selected: 0 })
            } else if x == "archived"@ {
                b.show_archived == !a.show_archived && b.mode is Normal
            } else if x == "clear"@ {
                &&& b.filter@.len() == 0
                &&& b.due_filter is None && b.priority_filter is None && b.category_filter is None
                &&& b.category_index == 0 && !b.show_archived && b.sort_mode == SortMode::Default
                &&& b.mode is Normal
            } else {
                b.mode == (Mode::FilterPicker { selected: 0 })
            },
            None => b.mode == (Mode::FilterPicker { selected: 0 }),
        }
    } else if c == "reset"@ {
        &&& b.filter@.len() == 0
        &&& b.due_filter is None && b.priority_filter is None && b.category_filter is None
        &&& b.category_index == 0 && !b.show_archived && b.sort_mode == SortMode::Default
        &&& b.mode is Normal
        &&& b.data == a.data
    } else if named(c, "move", "m") {
        &&& b.data == a.data
        &&& if a.pane != Pane::Categories {
            b.mode == (Mode::CategoryPicker { selected: 0, target: CategoryPickerTarget::AssignItem })
        } else if 0 < a.category_index <= a.rows().len() {
            match b.mode {
                Mode::CategoryPicker { selected, target } => selected == 0 && match target {
                    CategoryPickerTarget::MoveCategory(p) => p@ == a.rows()[a.category_index - 1].path,
                    _ => false,
                },
                _ => false,
            }
        } else {
            b.mode is Normal
        }
    } else if named(c, "notes", "n") {
        &&& b.data == a.data
        &&& if arg is Some && display_from_label(arg->0) is Some {
            b.note_display == display_from_label(arg->0)->0 && b.mode is Normal
        } else if a.pane == Pane::Items && a.selected_id() is Some {
            let id = a.selected_id()->0;
            find_item(a.data@.items, id) >= 0 ==> b.mode == (Mode::Notes {
                item_id: id,
                selected: super::popups::last_note(a.data@, id) as usize,
            })
        } else {
            b.mode is Normal
        }
    } else if c == "themes"@ {
        &&& b.mode == (Mode::ThemePicker { selected: theme_index(a.theme.name@) as usize, original_theme: a.theme })
        &&& b.data == a.data
    } else if named(c, "priorities", "p") {
        &&& b.mode == (Mode::PriorityPicker { selected: 0 })
        &&& b.data == a.data
    } else if c == "help"@ {
        b.mode is Help && b.data == a.data
    } else if named(c, "keybindings", "k") {
        b.mode is Keybindings && b.data == a.data
    } else if c == "sidebar"@ {
        &&& b.mode == (Mode::ResizeSidebar { return_pane: a.pane, original_width: a.sidebar_width })
        &&& b.pane == Pane::Categories
        &&& b.data == a.data
    } else if named(c, "categories", "cat") {
        b.mode == (Mode::CategoryFilterPicker { selected: 0 }) && b.data == a.data
    } else if c == "sort"@ {
        &&& b.data == a.data
        &&& match sort_arg(arg) {
            Some(m) => b.sort_mode == m && b.mode is Normal,
            None => b.mode == (Mode::SortPicker { selected: sort_index_spec(a.sort_mode), original_sort: a.sort_mode }),
        }
    } else {
        b.mode is Normal && b.data == a.data
    }
}

/// Position of a sort order in the sort picker.
pub open spec fn sort_index_spec(m: SortMode) -> usize {
    match m {
        SortMode::Default => 0,
        SortMode::DueDate => 1,
        SortMode::Priority => 2,
    }
}

/// The command, lower-cased, and the argument of a palette line, as
/// `command_parts` says.
pub fn split_command(raw: &str) -> (r: (String, Option<String>))
    ensures
        (r.0@, match r.1 {
            Some(x) => Some(x@),
            None => None,
        }) == command_parts(raw@),
{
        let rc = chars_of(raw);
        let t = trim_chars(rc.as_slice());
        let mut k: usize = 0;
        while k < t.len() && t[k] != ' '
            invariant
                0 <= k <= t.len(),
                forall|j: int| 0 <= j < k ==> t@[j] != ' ',
            decreases t.len() - k,
        {
            k = k + 1;
        }
        proof {
            lemma_space_at(t@, k as int);
        }
        let head_chars = sub_chars(t.as_slice(), 0, k);
        assert(head_chars@ =~= t@.take(k as int));
        let head = string_of(head_chars.as_slice());
        let cmd = str_to_lowercase(head.as_str());
        let arg: Option<String> = if k < t.len() {
            let rest = sub_chars(t.as_slice(), k + 1, t.len());
            assert(rest@ =~= t@.skip(k + 1));
            Some(string_of(rest.as_slice()))
        } else {
            None
        };
        (cmd, arg)
}

impl App {
    /// Whether `b` is what `execute_command` leaves of `a`.
    pub open spec fn after_execute_command(a: App, b: App, raw: Seq<char>) -> bool {
        &&& b.note_hint == a.note_hint
        &&& b.today == a.today
        &&& ({
                let (c, arg) = command_parts(raw);
                if arg is None && has_subcommands(c) {
                    &&& b.mode == (Mode::Command { selected: 0 })
                    &&& b.input@.text == c.push(' ')
                    &&& b.completions@.len() == 0
                    &&& b.completion_index == 0
                    &&& b == palette_fields(a, b)
                } else if command_restores(c, arg) {
                    &&& b.mode matches Mode::MultiSelect { cmd, .. } && cmd == MultiSelectCmd::RestoreArchive
                    &&& b.show_archived
                    &&& b.saved_search is None
                    &&& b == (App { show_archived: true, ..palette_fields(a, b) })
                } else {
                    &&& (!named(c, "search", "s") ==> b.saved_search is None)
                    &&& b.completions@.len() == 0
                    &&& b.completion_index == 0
                    &&& (b.mode is RenameInput || b.mode is Searching || b.input@.text.len() == 0)
                    &&& b.selected_index == clamp_to(a.selected_index as int, b.shown().len() as int)
                    &&& command_effect(a, b, c, arg)
                    &&& command_frame(a, b, c, arg)
                }
            })
    }

    /// Runs the palette line `raw`. A parent command typed alone opens its
    /// sub-commands in the palette; otherwise the command runs, the
    /// completions are dropped and the line emptied (but for renaming and
    /// searching), and the highlight is kept within the list. An unknown
    /// command goes back to browsing. Any command but a search drops a
    /// search put aside.
    #[verifier::spinoff_prover]
    #[verifier::rlimit(80)]
    pub fn execute_command(&mut self, raw: &str)
        requires
            old(self).today.valid(),
        ensures
            Self::after_execute_command(*old(self), *final(self), raw@),
    {
        let (cmd, arg) = split_command(raw);
        let ghost c = cmd@;
        if !(str_eq(cmd.as_str(), "search") || str_eq(cmd.as_str(), "s")) {
            self.saved_search = None;
        }
        if arg.is_none() && has_visible_subcommands(cmd.as_str()) {
            self.push_command_popup_back_target(cmd.as_str());
            let mut line = chars_of(cmd.as_str());
            line.push(' ');
            self.input.set_text(string_of(line.as_slice()).as_str());
            self.mode = Mode::Command { selected: 0 };
            self.completions.clear();
            self.completion_index = 0;
            return;
        }
        let ghost a2 = *self;
        if self.run_command(cmd.as_str(), &arg) {
            return;
        }
        let ghost m = *self;
        self.completions.clear();
        self.completion_index = 0;
        let keep_line = match &self.mode {
            Mode::RenameInput { .. } | Mode::Searching => true,
            _ => false,
        };
        if !keep_line {
            self.input.clear();
        }
        self.clamp_selection();
        proof {
            lemma_command_frame_around(*old(self), a2, m, *self, c, match arg {
                Some(x) => Some(x@),
                None => None,
            });
        }
    }

    /// Runs the command `c` with the argument `arg`; returns whether it
    /// already finished the palette's work (opening a restore selection).
    #[verifier::spinoff_prover]
    #[verifier::rlimit(100)]
    fn run_command(&mut self, c: &str, arg: &Option<String>) -> (early: bool)
        requires
            old(self).today.valid(),
        ensures
            final(self).selected_index == old(self).selected_index || final(self).selected_index == clamp_to(
                old(self).selected_index as int,
                final(self).shown().len() as int,
            ),
            final(self).today == old(self).today,
            final(self).note_hint == old(self).note_hint,
            final(self).saved_search == old(self).saved_search,
            early == command_restores(c@, match arg {
                Some(x) => Some(x@),
                None => None,
            }),
            early ==> {
                &&& final(self).mode matches Mode::MultiSelect { cmd, selected, selected_categories } && cmd
                    == MultiSelectCmd::RestoreArchive && selected@.len() == 0 && selected_categories@.len() == 0
                &&& final(self).show_archived
                &&& final(self).selected_index == clamp_to(old(self).selected_index as int, final(self).shown().len() as int)
                &&& *final(self) == (App {
                    mode: final(self).mode,
                    show_archived: true,
                    selected_index: final(self).selected_index,
                    ..*old(self)
                })
            },
            command_effect(
                *old(self),
                *final(self),
                c@,
                match arg {
                    Some(x) => Some(x@),
                    None => None,
                },
            ),
            command_frame(
                *old(self),
                *final(self),
                c@,
                match arg {
                    Some(x) => Some(x@),
                    None => None,
                },
            ),
    {
        let a: Option<&str> = match arg {
            Some(x) => Some(x.as_str()),
            None => None,
        };
        if str_eq(c, "search") || str_eq(c, "s") {
            let query = match arg {
                Some(x) => x.clone(),
                None => String::new(),
            };
            self.input.set_text(query.as_str());
            self.filter = query;
            self.mode = Mode::Searching;
        } else if str_eq(c, "delete") || str_eq(c, "d") {
            self.mode = Mode::MultiSelect { cmd: MultiSelectCmd::Delete, selected: Vec::new(), selected_categories: Vec::new() };
        } else if str_eq(c, "done") || str_eq(c, "x") {
            self.pane = Pane::Items;
            self.mode = Mode::MultiSelect { cmd: MultiSelectCmd::ToggleDone, selected: Vec::new(), selected_categories: Vec::new() };
        } else if str_eq(c, "select") {
            self.mode = Mode::MultiSelect { cmd: MultiSelectCmd::PickAction, selected: Vec::new(), selected_categories: Vec::new() };
        } else if str_eq(c, "clear") || str_eq(c, "c") {
            self.data.clear_done();
            self.mark_dirty();
            self.mode = Mode::Normal;
        } else if str_eq(c, "archive") {
            let early = self.run_archive_command(a);
            proof {
                assert((App { mode: old(self).mode, ..*self }).rows() == self.rows());
            }
            return early;
        } else if str_eq(c, "archived") {
            self.show_archived = !self.show_archived;
            self.mode = Mode::Normal;
        } else if str_eq(c, "unarchive") {
            self.run_unarchive_command(a);
        } else if str_eq(c, "due") {
            self.due_filter = match a {
                Some(x) => if str_eq(x, "today") {
                    Some(DueFilter::Today)
                } else if str_eq(x, "week") {
                    Some(DueFilter::Week)
                } else if str_eq(x, "overdue") {
                    Some(DueFilter::Overdue)
                } else if str_eq(x, "clear") || str_eq(x, "all") {
                    None
                } else {
                    self.due_filter
                },
                None => None,
            };
            self.mode = Mode::Normal;
        } else if str_eq(c, "rename") {
            self.run_rename_command(a);
        } else if str_eq(c, "filter") {
            self.run_filter_command(c, a);
        } else if str_eq(c, "reset") {
            self.clear_filters();
            self.mode = Mode::Normal;
        } else if str_eq(c, "move") || str_eq(c, "m") {
            if self.pane == Pane::Categories {
                match self.selected_category_path() {
                    Some(category) => {
                        self.push_command_popup_back_target(c);
                        self.input.clear();
                        self.mode = Mode::CategoryPicker { selected: 0, target: CategoryPickerTarget::MoveCategory(category) };
                    },
                    None => {
                        self.mode = Mode::Normal;
                    },
                }
            } else {
                self.push_command_popup_back_target(c);
                self.mode = Mode::CategoryPicker { selected: 0, target: CategoryPickerTarget::AssignItem };
            }
        } else if str_eq(c, "notes") || str_eq(c, "n") {
            let chosen = match arg {
                Some(a) => NoteDisplay::from_label(a.as_str()),
                None => None,
            };
            match chosen {
                Some(d) => {
                    self.note_display = d;
                    self.mode = Mode::Normal;
                },
                None => {
                    let id = if self.pane == Pane::Items {
                        self.selected_item_id()
                    } else {
                        None
                    };
                    match id {
                        Some(id) => self.open_notes(id),
                        None => {
                            self.mode = Mode::Normal;
                        },
                    }
                },
            }
        } else if str_eq(c, "themes") {
            self.push_command_popup_back_target(c);
            let selected = theme_index_by_name(self.theme.name);
            proof {
                lemma_theme_index(self.theme.name@, selected);
            }
            self.mode = Mode::ThemePicker { selected, original_theme: self.theme };
        } else if str_eq(c, "priorities") || str_eq(c, "p") {
            self.push_command_popup_back_target(c);
            self.mode = Mode::PriorityPicker { selected: 0 };
        } else if str_eq(c, "help") {
            self.mode = Mode::Help;
        } else if str_eq(c, "keybindings") || str_eq(c, "k") {
            self.mode = Mode::Keybindings;
        } else if str_eq(c, "sidebar") {
            let return_pane = self.pane;
            let original_width = self.sidebar_width;
            self.pane = Pane::Categories;
            self.mode = Mode::ResizeSidebar { return_pane, original_width };
        } else if str_eq(c, "categories") || str_eq(c, "cat") {
            self.push_command_popup_back_target(c);
            self.mode = Mode::CategoryFilterPicker { selected: 0 };
        } else if str_eq(c, "sort") {
            let chosen = match a {
                Some(x) => if str_eq(x, "priority") {
                    Some(SortMode::Priority)
                } else if str_eq(x, "due") {
                    Some(SortMode::DueDate)
                } else if str_eq(x, "default") {
                    Some(SortMode::Default)
                } else {
                    None
                },
                None => None,
            };
            match chosen {
                Some(m) => {
                    self.sort_mode = m;
                    self.mode = Mode::Normal;
                },
                None => {
                    self.push_command_popup_back_target(c);
                    let selected = sort_index(self.sort_mode);
                    self.mode = Mode::SortPicker { selected, original_sort: self.sort_mode };
                },
            }
        } else {
            self.mode = Mode::Normal;
        }
        false
    }
}

/// The picker position that `theme_index_by_name` gives is `theme_index`.
proof fn lemma_theme_index(name: Seq<char>, r: usize)
    requires
        r < crate::menus::theme_table().len(),
        (exists|i: int| 0 <= i < crate::menus::theme_table().len() && #[trigger] crate::menus::theme_table()[i].0@ == name)
            ==> crate::menus::theme_table()[r as int].0@ == name && forall|j: int|
            0 <= j < r ==> crate::menus::theme_table()[j].0@ != name,
        !(exists|i: int| 0 <= i < crate::menus::theme_table().len() && #[trigger] crate::menus::theme_table()[i].0@ == name)
            ==> r == 0,
    ensures
        theme_index(name) == r,
{
    let t = crate::menus::theme_table();
    if exists|i: int| 0 <= i < t.len() && #[trigger] t[i].0@ == name {
        let c = choose|i: int|
            0 <= i < t.len() && #[trigger] t[i].0@ == name && forall|j: int| 0 <= j < i ==> t[j].0@ != name;
        assert(0 <= r < t.len() && t[r as int].0@ == name && forall|j: int| 0 <= j < r ==> t[j].0@ != name);
        if c < r {
            assert(t[c].0@ == name);
        } else if r < c {
            assert(t[r as int].0@ == name);
        }
    }
}

/// Which branch of `archive <x>` runs: 0 one, 1 bulk selection, 2 the
/// archived view, 3 done items, 4 all, 5 restore all, 6 restore selection,
/// 7 restore one, 8 the archive menu.
pub open spec fn archive_branch(x: Seq<char>) -> int {
    if x == "one"@ {
        0
    } else if x == "bulk"@ || x == "select"@ {
        1
    } else if x == "archived"@ {
        2
    } else if x == "done"@ {
        3
    } else if x == "all"@ {
        4
    } else if x == "restore"@ || starts_with(x, "restore "@) {
        if x == "restore all"@ {
            5
        } else if x == "restore bulk"@ || x == "restore select"@ {
            6
        } else {
            7
        }
    } else {
        8
    }
}

/// Whether running `c` with `arg` opens a restore selection
/// (`archive restore bulk` or `archive restore select`), which finishes the
/// palette's work at once.
pub open spec fn command_restores(c: Seq<char>, arg: Option<Seq<char>>) -> bool {
    if named(c, "search", "s") || named(c, "delete", "d") || named(c, "done", "x") || c == "select"@ || named(
        c,
        "clear",
        "c",
    ) {
        false
    } else if c == "archive"@ {
        arg matches Some(x) && archive_branch(x) == 6
    } else {
        false
    }
}

impl App {
    /// Runs `archive` with `arg`: archive or restore the highlighted item
    /// (or sidebar branch), the done items or everything visible; open a
    /// bulk selection; switch the archived view; or, without a known
    /// argument, open the archive menu. Returns whether it opened a restore
    /// selection, which finishes the palette's work.
    fn run_archive_command(&mut self, arg: Option<&str>) -> (early: bool)
        requires
            old(self).today.valid(),
        ensures
            final(self).selected_index == old(self).selected_index || final(self).selected_index == clamp_to(
                old(self).selected_index as int,
                final(self).shown().len() as int,
            ),
            final(self).note_hint == old(self).note_hint,
            final(self).today == old(self).today,
            final(self).saved_search == old(self).saved_search,
            early == (arg matches Some(x) && archive_branch(x@) == 6),
            match archive_command_kind(match arg {
                Some(x) => Some(x@),
                None => None,
            }) {
                Some(kf) => archived_by(*old(self), App { mode: old(self).mode, ..*final(self) }, kf.0, kf.1),
                None => final(self).undo_stack == old(self).undo_stack && final(self).dirty == old(self).dirty
                    && final(self).category_index == old(self).category_index,
            },
            *final(self) == (App {
                data: final(self).data,
                undo_stack: final(self).undo_stack,
                dirty: final(self).dirty,
                category_index: final(self).category_index,
                show_archived: final(self).show_archived,
                mode: final(self).mode,
                selected_index: final(self).selected_index,
                popup_back_stack: final(self).popup_back_stack,
                ..*old(self)
            }),
            final(self).data@ == archive_command_data(*old(self), match arg {
                Some(x) => Some(x@),
                None => None,
            }),
            early ==> {
                &&& final(self).mode matches Mode::MultiSelect { cmd, selected, selected_categories } && cmd
                    == MultiSelectCmd::RestoreArchive && selected@.len() == 0 && selected_categories@.len() == 0
                &&& final(self).show_archived
                &&& final(self).selected_index == clamp_to(old(self).selected_index as int, final(self).shown().len() as int)
                &&& *final(self) == (App {
                    mode: final(self).mode,
                    show_archived: true,
                    selected_index: final(self).selected_index,
                    ..*old(self)
                })
            },
            arg matches Some(x) && archive_branch(x@) == 1 ==> (final(self).mode matches Mode::MultiSelect { cmd, .. } && cmd == MultiSelectCmd::Archive),
            arg matches Some(x) && archive_branch(x@) == 2 ==> final(self).show_archived == !old(self).show_archived && final(self).mode is Normal,
            arg is None || (arg matches Some(x) && archive_branch(x@) == 8) ==> final(self).mode == (Mode::ArchivePicker { selected: 0 }),
            !early && !(arg is None || (arg matches Some(x) && (archive_branch(x@) == 8 || archive_branch(x@) == 1))) ==> final(self).mode is Normal,
    {
        let restore = "restore ";
        match arg {
            Some(x) => {
                if str_eq(x, "one") {
                    if self.pane == Pane::Categories {
                        self.set_current_category_archived(true);
                    } else {
                        self.archive_single_visible_item(true);
                    }
                    self.mode = Mode::Normal;
                } else if str_eq(x, "bulk") || str_eq(x, "select") {
                    self.mode = Mode::MultiSelect { cmd: MultiSelectCmd::Archive, selected: Vec::new(), selected_categories: Vec::new() };
                } else if str_eq(x, "archived") {
                    self.show_archived = !self.show_archived;
                    self.mode = Mode::Normal;
                } else if str_eq(x, "done") {
                    self.archive_done_items();
                    self.mode = Mode::Normal;
                } else if str_eq(x, "all") {
                    self.set_visible_archived(true);
                    self.mode = Mode::Normal;
                } else if str_eq(x, "restore") || chars_starts_with(chars_of(x).as_slice(), chars_of(restore).as_slice()) {
                    if str_eq(x, "restore all") {
                        self.set_visible_archived(false);
                    } else if str_eq(x, "restore bulk") || str_eq(x, "restore select") {
                        self.show_archived = true;
                        self.mode = Mode::MultiSelect {
                            cmd: MultiSelectCmd::RestoreArchive,
                            selected: Vec::new(),
                            selected_categories: Vec::new(),
                        };
                        self.clamp_selection();
                        return true;
                    } else if self.pane == Pane::Categories {
                        self.set_current_category_archived(false);
                    } else {
                        self.archive_single_visible_item(false);
                    }
                    self.mode = Mode::Normal;
                } else {
                    self.push_command_popup_back_target("archive");
                    self.mode = Mode::ArchivePicker { selected: 0 };
                }
            },
            None => {
                self.push_command_popup_back_target("archive");
                self.mode = Mode::ArchivePicker { selected: 0 };
            },
        }
        proof {
            reveal_strlit("restore ");
        }
        self.clamp_selection();
        false
    }

    /// Runs `unarchive`: restores everything visible (`all`), or the
    /// highlighted item or sidebar branch, recording the step to undo.
    fn run_unarchive_command(&mut self, arg: Option<&str>)
        requires
            old(self).today.valid(),
        ensures
            final(self).selected_index == old(self).selected_index || final(self).selected_index == clamp_to(
                old(self).selected_index as int,
                final(self).shown().len() as int,
            ),
            ({
                let (k, f) = unarchive_command_kind(match arg {
                    Some(x) => Some(x@),
                    None => None,
                });
                &&& archived_by(*old(self), App { mode: old(self).mode, ..*final(self) }, k, f)
                &&& final(self).data@ == archive_data(*old(self), k, f)
            }),
            final(self).mode is Normal,
            *final(self) == (App {
                data: final(self).data,
                undo_stack: final(self).undo_stack,
                dirty: final(self).dirty,
                category_index: final(self).category_index,
                selected_index: final(self).selected_index,
                mode: Mode::Normal,
                ..*old(self)
            }),
    {
        match arg {
            Some(x) => {
                if str_eq(x, "all") {
                    self.set_visible_archived(false);
                } else if self.pane == Pane::Categories {
                    self.set_current_category_archived(false);
                } else {
                    self.archive_single_visible_item(false);
                }
            },
            None => {
                if self.pane == Pane::Categories {
                    self.set_current_category_archived(false);
                } else {
                    self.archive_single_visible_item(false);
                }
            },
        }
        proof {
            assert((App { mode: old(self).mode, ..*self }) == *self);
        }
        self.mode = Mode::Normal;
    }

    /// Runs `rename`: with two words, renames the branch of the first to the
    /// second (following it with the filter); without an argument, puts the
    /// highlighted item's text or sidebar path on the line to edit.
    fn run_rename_command(&mut self, arg: Option<&str>)
        requires
            old(self).today.valid(),
        ensures
            final(self).selected_index == old(self).selected_index || final(self).selected_index == clamp_to(
                old(self).selected_index as int,
                final(self).shown().len() as int,
            ),
            final(self).note_hint == old(self).note_hint,
            final(self).today == old(self).today,
            final(self).saved_search == old(self).saved_search,
            arg is Some ==> final(self).mode is Normal,
            arg is None ==> rename_opened(*old(self), *final(self)),
            renamed_by(old(self).data@, final(self).data@, match arg {
                Some(x) => Some(x@),
                None => None,
            }),
            *final(self) == (App {
                data: final(self).data,
                dirty: final(self).dirty,
                category_filter: final(self).category_filter,
                input: final(self).input,
                mode: final(self).mode,
                selected_index: final(self).selected_index,
                ..*old(self)
            }),
    {
        match arg {
            Some(x) => {
                let xc = chars_of(x);
                let a = skip_ws(xc.as_slice(), 0);
                let b = skip_word(xc.as_slice(), a);
                let c = skip_ws(xc.as_slice(), b);
                assert(xc@.skip(0) =~= x@);
                if c < xc.len() {
                    let d = skip_word(xc.as_slice(), c);
                    let w1 = string_of(sub_chars(xc.as_slice(), a, b).as_slice());
                    let w2 = string_of(sub_chars(xc.as_slice(), c, d).as_slice());
                    assert(two_words(x@) == Some((w1@, w2@)));
                    if self.data.rename_category(w1.as_str(), w2.as_str()) {
                        let follows = match &self.category_filter {
                            Some(f) => str_eq(f.as_str(), w1.as_str()),
                            None => false,
                        };
                        if follows {
                            self.category_filter = Some(w2);
                        }
                        self.mark_dirty();
                    }
                }
                self.mode = Mode::Normal;
            },
            None => {
                let target = if self.pane == Pane::Categories {
                    match self.selected_category_path() {
                        Some(p) => Some(RenameTarget::Category(p)),
                        None => None,
                    }
                } else {
                    match self.selected_item_id() {
                        Some(id) => Some(RenameTarget::Item(id)),
                        None => None,
                    }
                };
                match target {
                    Some(t) => {
                        self.input.clear();
                        match &t {
                            RenameTarget::Item(id) => {
                                match self.data.get(*id) {
                                    Some(item) => {
                                        let text = item.text.clone();
                                        self.input.insert_str(text.as_str());
                                    },
                                    None => {},
                                }
                            },
                            RenameTarget::Category(name) => {
                                self.input.insert_str(name.as_str());
                            },
                        }
                        self.mode = Mode::RenameInput { target: t };
                    },
                    None => {
                        self.mode = Mode::Normal;
                    },
                }
            },
        }
        self.clamp_selection();
    }

    /// Runs `filter`: opens the due, priority or category picker (going
    /// back returns to the palette), switches the archived view, clears
    /// every filter, or, without a known argument, opens the filter menu.
    fn run_filter_command(&mut self, c: &str, arg: Option<&str>)
        requires
            old(self).today.valid(),
        ensures
            final(self).selected_index == old(self).selected_index || final(self).selected_index == clamp_to(
                old(self).selected_index as int,
                final(self).shown().len() as int,
            ),
            final(self).note_hint == old(self).note_hint,
            final(self).today == old(self).today,
            final(self).saved_search == old(self).saved_search,
            match arg {
                Some(x) => if x@ == "due"@ {
                    final(self).mode == (Mode::DueDateFilterPicker { selected: 0 })
                } else if x@ == "priority"@ {
                    final(self).mode == (Mode::PriorityPicker { selected: 0 })
                } else if x@ == "category"@ {
                    final(self).mode == (Mode::CategoryFilterPicker { selected: 0 })
                } else if x@ == "archived"@ {
                    final(self).show_archived == !old(self).show_archived && final(self).mode is Normal
                } else if x@ == "clear"@ {
                    super::pickers::filters_cleared(App { mode: Mode::Normal, ..*old(self) }, *final(self))
                } else {
                    final(self).mode == (Mode::FilterPicker { selected: 0 })
                },
                None => final(self).mode == (Mode::FilterPicker { selected: 0 }),
            },
            final(self).data == old(self).data,
            *final(self) == (App {
                filter: final(self).filter,
                due_filter: final(self).due_filter,
                priority_filter: final(self).priority_filter,
                category_filter: final(self).category_filter,
                category_index: final(self).category_index,
                show_archived: final(self).show_archived,
                sort_mode: final(self).sort_mode,
                mode: final(self).mode,
                popup_back_stack: final(self).popup_back_stack,
                selected_index: final(self).selected_index,
                ..*old(self)
            }),
    {
        match arg {
            Some(x) => {
                if str_eq(x, "due") {
                    self.push_command_popup_back_target(c);
                    self.mode = Mode::DueDateFilterPicker { selected: 0 };
                } else if str_eq(x, "priority") {
                    self.push_command_popup_back_target(c);
                    self.mode = Mode::PriorityPicker { selected: 0 };
                } else if str_eq(x, "category") {
                    self.push_command_popup_back_target(c);
                    self.mode = Mode::CategoryFilterPicker { selected: 0 };
                } else if str_eq(x, "archived") {
                    self.show_archived = !self.show_archived;
                    self.mode = Mode::Normal;
                    self.clamp_selection();
                } else if str_eq(x, "clear") {
                    self.mode = Mode::Normal;
                    self.clear_filters();
                } else {
                    self.push_command_popup_back_target(c);
                    self.mode = Mode::FilterPicker { selected: 0 };
                }
            },
            None => {
                self.push_command_popup_back_target(c);
                self.mode = Mode::FilterPicker { selected: 0 };
            },
        }
    }
}

} // verus!
