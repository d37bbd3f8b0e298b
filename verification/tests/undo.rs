//! Undo, bulk picking, the sidebar width and the other properties the
//! library states for all inputs, on concrete values.

use todo_tui::app::{App, SIDEBAR_WIDTH_DEFAULT, SIDEBAR_WIDTH_MAX, SIDEBAR_WIDTH_MIN, UNDO_STACK_LIMIT};
use todo_tui::clip::Clipboard;
use todo_tui::data::category::normalize_category;
use todo_tui::data::{Priority, TodoData};
use todo_tui::date::Date;
use todo_tui::defs::{Action, Effect, Mode, MultiSelectCmd, NoteDisplay, SortMode};
use todo_tui::input::InputBuffer;
use todo_tui::menus::{sort_by_index, sort_index};
use todo_tui::theme::Theme;

fn app(data: TodoData) -> App {
    App::new(data, Theme::one_dark(), SIDEBAR_WIDTH_DEFAULT, Date::today(0))
}

fn snapshot(app: &App) -> Vec<(u64, String, bool, u64)> {
    app.data.items().iter().map(|i| (i.id, i.text.clone(), i.archived, i.order)).collect()
}

#[test]
fn deleting_one_item_then_undoing_gives_the_list_back() {
    let mut data = TodoData::new();
    data.add("first");
    let victim = data.add("second");
    data.add("third");
    let mut app = app(data);
    let before = snapshot(&app);

    app.handle_action(Action::DeleteItem(victim));
    app.handle_action(Action::ConfirmDeleteYes);
    assert_eq!(app.data.items().len(), 2);
    app.handle_action(Action::Undo);

    assert_eq!(snapshot(&app), before);
}

#[test]
fn archiving_then_undoing_gives_the_list_back() {
    let mut data = TodoData::new();
    let a = data.add("a");
    let b = data.add("b");
    data.add("c");
    let mut app = app(data);
    let before = snapshot(&app);

    app.mode = Mode::MultiSelect { cmd: MultiSelectCmd::Archive, selected: vec![a, b], selected_categories: Vec::new() };
    app.handle_action(Action::ConfirmMultiSelect);
    assert!(app.data.get(a).unwrap().archived && app.data.get(b).unwrap().archived);
    app.handle_action(Action::Undo);

    assert_eq!(snapshot(&app), before);
}

#[test]
fn the_undo_stack_keeps_the_latest_twenty_steps() {
    let mut data = TodoData::new();
    let ids: Vec<u64> = (0..25).map(|i| data.add(&format!("item {i}"))).collect();
    let mut app = app(data);
    for id in &ids {
        app.handle_action(Action::DeleteItem(*id));
        app.handle_action(Action::ConfirmDeleteYes);
    }
    assert!(app.data.items().is_empty());
    assert_eq!(app.undo_stack.len(), UNDO_STACK_LIMIT);
    for _ in 0..30 {
        app.handle_action(Action::Undo);
    }
    assert_eq!(app.data.items().len(), UNDO_STACK_LIMIT);
    assert!(!app.can_undo());
    assert!(app.data.get(ids[4]).is_none());
    assert!(app.data.get(ids[5]).is_some());
}

#[test]
fn picking_an_item_twice_drops_it_again() {
    let mut data = TodoData::new();
    let a = data.add("a");
    let b = data.add("b");
    let mut app = app(data);
    app.mode = Mode::MultiSelect { cmd: MultiSelectCmd::PickAction, selected: vec![b], selected_categories: Vec::new() };
    app.handle_action(Action::ToggleMultiSelect(a));
    assert!(matches!(&app.mode, Mode::MultiSelect { selected, .. } if selected == &vec![b, a]));
    app.handle_action(Action::ToggleMultiSelect(a));
    assert!(matches!(&app.mode, Mode::MultiSelect { selected, .. } if selected == &vec![b]));
}

#[test]
fn three_display_cycles_come_back_and_each_is_saved() {
    let mut app = app(TodoData::new());
    assert_eq!(app.note_display, NoteDisplay::All);
    assert!(matches!(app.handle_action(Action::CycleNoteDisplay), Effect::SaveNoteDisplay(NoteDisplay::Latest)));
    assert!(matches!(app.handle_action(Action::CycleNoteDisplay), Effect::SaveNoteDisplay(NoteDisplay::Hidden)));
    assert!(matches!(app.handle_action(Action::CycleNoteDisplay), Effect::SaveNoteDisplay(NoteDisplay::All)));
    assert_eq!(app.note_display, NoteDisplay::All);
}

#[test]
fn notes_command_with_a_display_name_sets_it() {
    let mut app = app(TodoData::new());
    let effect = app.handle_action(Action::ExecuteCommand("notes hidden".to_string()));
    assert_eq!(app.note_display, NoteDisplay::Hidden);
    assert!(matches!(effect, Effect::SaveNoteDisplay(NoteDisplay::Hidden)));
    assert!(matches!(app.mode, Mode::Normal));
}

#[test]
fn sidebar_width_stays_within_its_bounds() {
    let mut app = app(TodoData::new());
    app.handle_action(Action::EnterResizeSidebar);
    for _ in 0..40 {
        app.handle_action(Action::ResizeSidebar(-5));
    }
    assert_eq!(app.sidebar_width, SIDEBAR_WIDTH_MIN);
    for _ in 0..40 {
        app.handle_action(Action::ResizeSidebar(5));
    }
    assert_eq!(app.sidebar_width, SIDEBAR_WIDTH_MAX);
    assert!(matches!(app.handle_action(Action::ConfirmResizeSidebar), Effect::SaveSidebarWidth(w) if w == SIDEBAR_WIDTH_MAX));
}

#[test]
fn quitting_is_an_effect_and_changes_nothing() {
    let mut data = TodoData::new();
    data.add("a");
    let mut app = app(data);
    let before = snapshot(&app);
    assert!(matches!(app.handle_action(Action::Quit), Effect::Quit));
    assert!(matches!(app.handle_action(Action::Paste), Effect::ReadClipboard));
    assert_eq!(snapshot(&app), before);
}

#[test]
fn typing_then_erasing_a_character_restores_the_prompt() {
    let mut input = InputBuffer::new();
    input.insert_str("hello");
    input.move_left();
    input.insert_char('x');
    assert_eq!(input.text(), "hellxo");
    input.backspace();
    assert_eq!(input.text(), "hello");
    assert_eq!(input.cursor(), 4);
}

#[test]
fn sort_positions_round_trip() {
    for mode in [SortMode::Default, SortMode::DueDate, SortMode::Priority] {
        assert_eq!(sort_by_index(sort_index(mode)), Some(mode));
    }
    assert_eq!(sort_by_index(3), None);
}

#[test]
fn four_priority_cycles_come_back() {
    let mut data = TodoData::new();
    let id = data.add("a");
    let start = data.get(id).unwrap().priority;
    assert_eq!(start, Priority::Normal);
    data.cycle_priority(id);
    assert_ne!(data.get(id).unwrap().priority, start);
    for _ in 0..3 {
        data.cycle_priority(id);
    }
    assert_eq!(data.get(id).unwrap().priority, start);
}

#[test]
fn moving_days_there_and_back_and_reading_dates_back() {
    let d = Date::new(2024, 2, 28).unwrap();
    assert_eq!(d.add_days(1), Date::new(2024, 2, 29).unwrap());
    assert_eq!(d.add_days(400).add_days(-400), d);
    assert_eq!(Date::parse(&d.iso()), Some(d));
    assert_eq!(d.iso(), "2024-02-28");
}

#[test]
fn the_clipboard_gives_back_the_last_item_cut() {
    let mut data = TodoData::new();
    let a = data.add("a");
    let b = data.add("b");
    let mut clip = Clipboard::new();
    clip.cut(data.get(a).unwrap().clone());
    clip.copy(data.get(b).unwrap().clone());
    assert_eq!(clip.paste().map(|i| i.id), Some(b));
    assert_eq!(clip.paste().map(|i| i.id), Some(a));
    assert!(clip.paste().is_none());
}

#[test]
fn normalizing_a_category_twice_changes_nothing_more() {
    let once = normalize_category(" Work / / sub ").unwrap();
    assert_eq!(once, "Work/sub");
    assert_eq!(normalize_category(&once), Some(once.clone()));
    assert_eq!(normalize_category(" / "), None);
}
