use todo_tui::defs::{Mode, MultiSelectCmd};
use todo_tui::hints::{hint_for, multi_select_status};

#[test]
fn bottom_bar_hints_follow_the_screen() {
    assert_eq!(hint_for(&Mode::Normal, false), Some("  Type to add or / for commands"));
    assert_eq!(hint_for(&Mode::Normal, true), Some("  Done \u{2014} Ctrl+N to log what came out of it"));
    assert_eq!(hint_for(&Mode::Help, false), Some("  [Esc close]"));
    assert_eq!(hint_for(&Mode::FilterPicker { selected: 0 }, false), Some("  [Up/Down choose, Enter apply, Esc cancel]"));
    assert_eq!(hint_for(&Mode::Searching, false), None);
}

#[test]
fn bulk_selection_status_names_counts_and_keys() {
    assert_eq!(
        multi_select_status(MultiSelectCmd::Delete, true, 2, 1),
        "  [Bulk delete: 2 items, 1 categories selected | Space toggle categories, Ctrl+A all, Enter apply, Esc cancel]"
    );
    assert_eq!(
        multi_select_status(MultiSelectCmd::Archive, true, 0, 0),
        "  [Bulk archive: 0 items selected | Space toggle items, Enter apply, Esc cancel]"
    );
    assert_eq!(
        multi_select_status(MultiSelectCmd::PickAction, false, 12, 0),
        "  [Bulk select: 12 items selected | Space toggle items, Ctrl+A all, Enter choose action, Esc cancel]"
    );
}
