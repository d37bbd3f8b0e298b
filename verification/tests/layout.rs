//! What the screen shows: popup placement, labels, colours and search
//! highlights.

use todo_tui::data::{Priority, TodoData};
use todo_tui::date::Date;
use todo_tui::defs::NoteDisplay;
use todo_tui::layout::{
    calendar_item_anchor, calendar_popup_x, calendar_popup_y, calendar_prompt_anchor, command_display_label,
    command_display_prefix, command_popup_title, display_category_path, due_date_color, fit_cell,
    highlight_matches, priority_color, Area,
};
use todo_tui::theme::{dimmed_theme, Theme};

fn area(x: u16, y: u16, width: u16, height: u16) -> Area {
    Area { x, y, width, height }
}

#[test]
fn calendar_popup_centres_on_its_anchor_within_the_screen() {
    let screen = area(0, 0, 100, 40);
    assert_eq!(calendar_popup_x(screen, area(40, 10, 20, 1), 30), 35);
    assert_eq!(calendar_popup_x(screen, area(0, 10, 4, 1), 30), 0);
    assert_eq!(calendar_popup_x(screen, area(90, 10, 20, 1), 30), 70);
}

#[test]
fn calendar_popup_goes_below_unless_there_is_no_room() {
    let screen = area(0, 0, 100, 40);
    assert_eq!(calendar_popup_y(screen, area(0, 5, 10, 1), 10, false), 7);
    assert_eq!(calendar_popup_y(screen, area(0, 35, 10, 1), 10, false), 24);
    assert_eq!(calendar_popup_y(screen, area(0, 30, 10, 3), 10, true), 19);
    assert_eq!(calendar_popup_y(screen, area(0, 5, 10, 3), 10, true), 9);
}

#[test]
fn calendar_anchors_on_the_prompt_or_the_highlighted_row() {
    let prompt = area(0, 37, 80, 3);
    assert_eq!(calendar_prompt_anchor(prompt), prompt);
    let mut data = TodoData::new();
    data.add("one");
    data.add("two");
    data.add("three");
    let items: Vec<&todo_tui::data::TodoItem> = data.items().iter().collect();
    let list = area(20, 2, 60, 30);
    assert_eq!(calendar_item_anchor(list, &items, 0, NoteDisplay::All), area(21, 2, 58, 1));
    assert_eq!(calendar_item_anchor(list, &items, 2, NoteDisplay::All), area(21, 6, 58, 1));
}

#[test]
fn category_paths_show_with_bars() {
    assert_eq!(display_category_path("Work/work2"), "Work|work2");
    assert_eq!(display_category_path("Home"), "Home");
}

#[test]
fn command_rows_drop_their_parent_inside_a_subcommand_list() {
    assert_eq!(command_popup_title(Some("sort")), " /sort ");
    assert_eq!(command_popup_title(None), " Commands ");
    assert_eq!(command_display_label("sort due", Some("sort")), "due");
    assert_eq!(command_display_label("sortable", Some("sort")), "sortable");
    assert_eq!(command_display_label("help", None), "help");
    assert_eq!(command_display_prefix("sort due", Some("sort")), " ");
    assert_eq!(command_display_prefix("help", Some("sort")), "/");
}

#[test]
fn keybinding_cells_are_padded_or_cut() {
    assert_eq!(fit_cell("Quit", 6), "Quit  ");
    assert_eq!(fit_cell("Toggle done", 6), "Toggl…");
    assert_eq!(fit_cell("Toggle", 6), "Toggle");
    assert_eq!(fit_cell("ab", 1), "a");
}

#[test]
fn priorities_and_due_dates_have_their_colours() {
    let theme = Theme::one_dark();
    assert_eq!(priority_color(Priority::Urgent, &theme), theme.error);
    assert_eq!(priority_color(Priority::High, &theme), theme.warning);
    assert_eq!(priority_color(Priority::Normal, &theme), theme.accent);
    assert_eq!(priority_color(Priority::Low, &theme), theme.text_muted);
    let today = Date::new(2026, 9, 15).unwrap();
    assert_eq!(due_date_color("2026-09-17", today, &theme), theme.error);
    assert_eq!(due_date_color("2026-09-10", today, &theme), theme.error);
    assert_eq!(due_date_color("2026-09-24", today, &theme), theme.warning);
    assert_eq!(due_date_color("2026-10-30", today, &theme), theme.text_muted);
    assert_eq!(due_date_color("soon", today, &theme), theme.text_muted);
}

#[test]
fn the_calendar_dims_the_rest_of_the_screen() {
    let theme = Theme::one_dark();
    let dim = dimmed_theme(&theme);
    assert_eq!(dim.accent, theme.text_muted);
    assert_eq!(dim.text_primary, theme.text_muted);
    assert_eq!(dim.bg_tertiary, theme.bg_secondary);
    assert_eq!(dim.bg_primary, theme.bg_primary);
    assert_eq!(dim.name, theme.name);
}

#[test]
fn search_matches_are_marked_ignoring_case() {
    let pieces = highlight_matches("Alpha and ALPINE", "alp");
    let expect: Vec<(String, bool)> = vec![
        ("Alp".to_string(), true),
        ("ha and ".to_string(), false),
        ("ALP".to_string(), true),
        ("INE".to_string(), false),
    ];
    assert_eq!(pieces, expect);
    assert_eq!(highlight_matches("beta", ""), vec![("beta".to_string(), false)]);
    assert_eq!(highlight_matches("beta", "x"), vec![("beta".to_string(), false)]);
}

#[test]
fn prompt_line_keeps_the_cursor_in_view() {
    assert_eq!(todo_tui::layout::prompt_window(3, 1, 20, 2), (0, 3));
    assert_eq!(todo_tui::layout::prompt_window(10, 10, 8, 2), (9, 10));
    assert_eq!(todo_tui::layout::prompt_window(20, 0, 8, 2), (0, 2));
}

#[test]
fn badge_is_right_aligned_or_one_space_away() {
    assert_eq!(todo_tui::layout::badge_gap(10, 6, 40), 26);
    assert_eq!(todo_tui::layout::badge_gap(30, 11, 40), 1);
    assert_eq!(todo_tui::layout::badge_gap(30, 10, 40), 2);
}

#[test]
fn calendar_cells_start_on_the_first_weekday() {
    assert_eq!(todo_tui::layout::calendar_cell_day(2, 31, 0), None);
    assert_eq!(todo_tui::layout::calendar_cell_day(2, 31, 2), Some(1));
    assert_eq!(todo_tui::layout::calendar_cell_day(2, 31, 32), Some(31));
    assert_eq!(todo_tui::layout::calendar_cell_day(2, 31, 33), None);
}
