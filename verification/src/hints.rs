//! The fixed hints and prompt labels of the bottom bar, screen by screen.

use vstd::prelude::*;

use crate::defs::{Mode, MultiSelectCmd};
use crate::text::{chars_of, decimal, push_decimal, string_of};

verus! {

/// The keys of the plain pickers.
pub const LIST_KEYS: &'static str = "  [Up/Down choose, Enter apply, Esc cancel]";

/// The fixed hint the bottom bar shows on a screen that has one: the keys
/// of each picker and popup, the keys of the note log and of resizing the
/// sidebar, which side of the calendar has the keys, and, while browsing,
/// the reminder to log what came out of an item just marked done
/// (`note_hint`) or else how to add an item. `None` on the screens that
/// show a prompt or a count instead.
pub open spec fn hint_of(mode: Mode, note_hint: bool) -> Option<&'static str> {
    match mode {
        Mode::Normal => Some(
            if note_hint {
                "  Done \u{2014} Ctrl+N to log what came out of it"
            } else {
                "  Type to add or / for commands"
            },
        ),
        Mode::ThemePicker { .. } => Some("  [Up/Down preview, Enter save, Esc restore]"),
        Mode::ConfirmDelete { .. } => Some("  [Y/Enter delete, N/Esc cancel, A archive]"),
        Mode::PriorityPicker { .. } => Some(LIST_KEYS),
        Mode::DueDateFilterPicker { .. } => Some(LIST_KEYS),
        Mode::Help => Some("  [Esc close]"),
        Mode::Keybindings => Some("  [Esc close]"),
        Mode::CategoryCreateChoice { .. } => Some("  [1/2 choose, Enter apply, Esc cancel]"),
        Mode::CategoryParentPicker { .. } => Some("  [Up/Down choose parent, Enter apply, Esc cancel]"),
        Mode::CategoryFilterPicker { .. } => Some(LIST_KEYS),
        Mode::SortPicker { .. } => Some("  [Up/Down preview, Enter keep, Esc restore]"),
        Mode::ArchivePicker { .. } => Some(LIST_KEYS),
        Mode::BulkActionPicker { .. } => Some(LIST_KEYS),
        Mode::FilterPicker { .. } => Some(LIST_KEYS),
        Mode::DueDateCalendar { prompt_focused, .. } => Some(
            if prompt_focused {
                "  [Tab calendar, Enter save]"
            } else {
                "  [Tab prompt, calendar active]"
            },
        ),
        Mode::Notes { .. } => Some(
            "  [Enter/type add, Ctrl+E edit, Del delete, Ctrl+Y copy, Ctrl+Z undo, Esc close]",
        ),
        Mode::ResizeSidebar { .. } => Some(
            "  [Sidebar: \u{2190}/\u{2192} \u{00b11}, Shift+\u{2190}/\u{2192} \u{00b15}, r reset, Enter save, Esc cancel]",
        ),
        _ => None,
    }
}

/// The fixed hint of the bottom bar, as `hint_of` says.
pub fn hint_for(mode: &Mode, note_hint: bool) -> (r: Option<&'static str>)
    ensures
        r == hint_of(*mode, note_hint),
{
    match mode {
        Mode::Normal => Some(
            if note_hint {
                "  Done \u{2014} Ctrl+N to log what came out of it"
            } else {
                "  Type to add or / for commands"
            },
        ),
        Mode::ThemePicker { .. } => Some("  [Up/Down preview, Enter save, Esc restore]"),
        Mode::ConfirmDelete { .. } => Some("  [Y/Enter delete, N/Esc cancel, A archive]"),
        Mode::PriorityPicker { .. } => Some(LIST_KEYS),
        Mode::DueDateFilterPicker { .. } => Some(LIST_KEYS),
        Mode::Help => Some("  [Esc close]"),
        Mode::Keybindings => Some("  [Esc close]"),
        Mode::CategoryCreateChoice { .. } => Some("  [1/2 choose, Enter apply, Esc cancel]"),
        Mode::CategoryParentPicker { .. } => Some("  [Up/Down choose parent, Enter apply, Esc cancel]"),
        Mode::CategoryFilterPicker { .. } => Some(LIST_KEYS),
        Mode::SortPicker { .. } => Some("  [Up/Down preview, Enter keep, Esc restore]"),
        Mode::ArchivePicker { .. } => Some(LIST_KEYS),
        Mode::BulkActionPicker { .. } => Some(LIST_KEYS),
        Mode::FilterPicker { .. } => Some(LIST_KEYS),
        Mode::DueDateCalendar { prompt_focused, .. } => Some(
            if *prompt_focused {
                "  [Tab calendar, Enter save]"
            } else {
                "  [Tab prompt, calendar active]"
            },
        ),
        Mode::Notes { .. } => Some(
            "  [Enter/type add, Ctrl+E edit, Del delete, Ctrl+Y copy, Ctrl+Z undo, Esc close]",
        ),
        Mode::ResizeSidebar { .. } => Some(
            "  [Sidebar: \u{2190}/\u{2192} \u{00b11}, Shift+\u{2190}/\u{2192} \u{00b15}, r reset, Enter save, Esc cancel]",
        ),
        _ => None,
    }
}

/// The action a bulk selection is for, as the bottom bar names it.
pub open spec fn bulk_action_name(cmd: MultiSelectCmd) -> &'static str {
    match cmd {
        MultiSelectCmd::Delete => "Bulk delete",
        MultiSelectCmd::ToggleDone => "Bulk done",
        MultiSelectCmd::Archive => "Bulk archive",
        MultiSelectCmd::RestoreArchive => "Bulk restore",
        MultiSelectCmd::PickAction => "Bulk select",
    }
}

/// Whether a bulk selection for `cmd` can pick everything with Control-A
/// (and, in the sidebar, works on categories).
pub open spec fn picks_all(cmd: MultiSelectCmd) -> bool {
    cmd == MultiSelectCmd::Delete || cmd == MultiSelectCmd::PickAction
}

/// The bottom bar during a bulk selection for `cmd`: the action, how many
/// items (and categories, when any) are picked, what Space picks (the
/// categories in the sidebar when the selection can take them, else the
/// items), Control-A where it picks everything, and what Enter does.
pub open spec fn multi_select_status_of(
    cmd: MultiSelectCmd,
    on_categories: bool,
    n_items: nat,
    n_categories: nat,
) -> Seq<char> {
    let target = if on_categories && picks_all(cmd) {
        "categories"@
    } else {
        "items"@
    };
    let counts = if n_categories == 0 {
        decimal(n_items) + " items"@
    } else {
        decimal(n_items) + " items, "@ + decimal(n_categories) + " categories"@
    };
    let select_all = if picks_all(cmd) {
        " Ctrl+A all,"@
    } else {
        ""@
    };
    let trailing = if cmd == MultiSelectCmd::PickAction {
        "Enter choose action"@
    } else {
        "Enter apply"@
    };
    "  ["@ + bulk_action_name(cmd)@ + ": "@ + counts + " selected | Space toggle "@ + target + ","@ + select_all
        + " "@ + trailing + ", Esc cancel]"@
}

fn append(out: &mut Vec<char>, s: &str)
    ensures
        final(out)@ == old(out)@ + s@,
{
    let cs = chars_of(s);
    let ghost start = out@;
    let mut i: usize = 0;
    while i < cs.len()
        invariant
            0 <= i <= cs.len(),
            cs@ == s@,
            out@ == start + cs@.take(i as int),
        decreases cs.len() - i,
    {
        out.push(cs[i]);
        i = i + 1;
        assert(out@ =~= start + cs@.take(i as int));
    }
    assert(cs@.take(cs.len() as int) =~= cs@);
}

/// The bottom bar during a bulk selection, as `multi_select_status_of`
/// says.
pub fn multi_select_status(cmd: MultiSelectCmd, on_categories: bool, n_items: u64, n_categories: u64) -> (r: String)
    ensures
        r@ == multi_select_status_of(cmd, on_categories, n_items as nat, n_categories as nat),
{
    let picks = match cmd {
        MultiSelectCmd::Delete | MultiSelectCmd::PickAction => true,
        _ => false,
    };
    let action = match cmd {
        MultiSelectCmd::Delete => "Bulk delete",
        MultiSelectCmd::ToggleDone => "Bulk done",
        MultiSelectCmd::Archive => "Bulk archive",
        MultiSelectCmd::RestoreArchive => "Bulk restore",
        MultiSelectCmd::PickAction => "Bulk select",
    };
    let mut out: Vec<char> = Vec::new();
    append(&mut out, "  [");
    append(&mut out, action);
    append(&mut out, ": ");
    push_decimal(&mut out, n_items);
    if n_categories == 0 {
        append(&mut out, " items");
    } else {
        append(&mut out, " items, ");
        push_decimal(&mut out, n_categories);
        append(&mut out, " categories");
    }
    append(&mut out, " selected | Space toggle ");
    append(&mut out, if on_categories && picks {
        "categories"
    } else {
        "items"
    });
    append(&mut out, ",");
    append(&mut out, if picks {
        " Ctrl+A all,"
    } else {
        ""
    });
    append(&mut out, " ");
    append(&mut out, if cmd == MultiSelectCmd::PickAction {
        "Enter choose action"
    } else {
        "Enter apply"
    });
    append(&mut out, ", Esc cancel]");
    proof {
        assert(out@ =~= multi_select_status_of(cmd, on_categories, n_items as nat, n_categories as nat));
    }
    string_of(out.as_slice())
}

} // verus!
