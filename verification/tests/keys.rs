//! Key presses: the prompt editor, the per-screen key maps and the keys
//! every screen shares.

use todo_tui::app::App;
use todo_tui::data::TodoData;
use todo_tui::date::Date;
use todo_tui::defs::{Action, Mode};
use todo_tui::input::InputBuffer;
use todo_tui::keys::{
    handle_confirm_delete, handle_due_date_calendar, handle_normal, handle_sidebar, handle_text_input_key,
    insert_calendar_digit, KeyCode, KeyEvent, KeyModifiers,
};
use todo_tui::theme::Theme;

fn key(code: KeyCode) -> KeyEvent {
    KeyEvent::new(code, KeyModifiers::none())
}

fn ctrl(c: char) -> KeyEvent {
    KeyEvent::new(KeyCode::Char(c), KeyModifiers::control())
}

fn app_with(texts: &[&str]) -> App {
    let mut data = TodoData::new();
    for t in texts {
        data.add(t);
    }
    App::new(data, Theme::one_dark(), 22, Date::today(0))
}

#[test]
fn typing_and_erasing_in_a_prompt() {
    let mut input = InputBuffer::new();
    for c in "hello world".chars() {
        assert!(handle_text_input_key(key(KeyCode::Char(c)), &mut input));
    }
    assert_eq!(input.text(), "hello world");
    assert!(handle_text_input_key(key(KeyCode::Backspace), &mut input));
    assert_eq!(input.text(), "hello worl");
    assert!(handle_text_input_key(KeyEvent::new(KeyCode::Backspace, KeyModifiers::control()), &mut input));
    assert_eq!(input.text(), "hello ");
    assert!(handle_text_input_key(ctrl('a'), &mut input));
    assert_eq!(input.cursor(), 0);
    assert!(handle_text_input_key(key(KeyCode::Delete), &mut input));
    assert_eq!(input.text(), "ello ");
    assert!(handle_text_input_key(ctrl('e'), &mut input));
    assert_eq!(input.cursor(), "ello ".len());
}

#[test]
fn prompt_ignores_control_letters_it_does_not_map() {
    let mut input = InputBuffer::new();
    input.insert_str("abc");
    assert!(!handle_text_input_key(ctrl('q'), &mut input));
    assert!(!handle_text_input_key(key(KeyCode::Enter), &mut input));
    assert_eq!(input.text(), "abc");
    assert_eq!(input.cursor(), 3);
}

#[test]
fn item_list_keys_follow_the_documented_controls() {
    let mut data = TodoData::new();
    let id = data.add("ship");
    let items: Vec<&todo_tui::data::TodoItem> = data.items().iter().collect();
    assert_eq!(handle_normal(key(KeyCode::Enter), &items, 0), Some(Action::ToggleDone(id)));
    assert_eq!(handle_normal(key(KeyCode::Char(' ')), &items, 0), Some(Action::ToggleDoing(id)));
    assert_eq!(handle_normal(ctrl('e'), &items, 0), Some(Action::EditItem(id)));
    assert_eq!(handle_normal(ctrl('p'), &items, 0), Some(Action::CyclePriority(id)));
    assert_eq!(handle_normal(KeyEvent::new(KeyCode::Up, KeyModifiers::control()), &items, 0), Some(Action::Reorder(id, -1)));
    assert_eq!(handle_normal(key(KeyCode::Char('*')), &items, 0), Some(Action::TogglePin(id)));
    assert_eq!(handle_normal(key(KeyCode::Delete), &items, 0), Some(Action::DeleteItem(id)));
    assert_eq!(handle_normal(key(KeyCode::Char('x')), &items, 0), Some(Action::StartNewItemWithChar('x')));
    assert_eq!(handle_normal(ctrl('o'), &items, 0), Some(Action::OpenCategoryPicker));
}

#[test]
fn ctrl_e_on_an_empty_list_starts_a_new_item() {
    let items: Vec<&todo_tui::data::TodoItem> = Vec::new();
    assert_eq!(handle_normal(ctrl('e'), &items, 0), Some(Action::StartNewItem));
    assert_eq!(handle_normal(key(KeyCode::Enter), &items, 0), None);
}

#[test]
fn delete_confirmation_keys() {
    assert_eq!(handle_confirm_delete(key(KeyCode::Char('y'))), Some(Action::ConfirmDeleteYes));
    assert_eq!(handle_confirm_delete(key(KeyCode::Enter)), Some(Action::ConfirmDeleteYes));
    assert_eq!(handle_confirm_delete(key(KeyCode::Char('a'))), Some(Action::ConfirmDeleteArchive));
    assert_eq!(handle_confirm_delete(key(KeyCode::Char('n'))), Some(Action::ConfirmDeleteNo));
    assert_eq!(handle_confirm_delete(key(KeyCode::Tab)), None);
}

#[test]
fn sidebar_delete_names_the_highlighted_category() {
    let mut data = TodoData::new();
    data.add_category("Work");
    let entries = data.category_entries();
    let action = handle_sidebar(key(KeyCode::Delete), &entries, 1);
    assert!(matches!(action, Some(Action::DeleteCategory(name)) if name == "Work"));
    assert_eq!(handle_sidebar(key(KeyCode::Delete), &entries, 0), None);
    assert_eq!(handle_sidebar(key(KeyCode::Char('h')), &entries, 0), Some(Action::StartCategoryAddWithChar('h')));
}

#[test]
fn calendar_digits_are_written_as_a_date() {
    let mut input = InputBuffer::new();
    for c in "20260915".chars() {
        insert_calendar_digit(&mut input, c);
    }
    assert_eq!(input.text(), "2026-09-15");
    insert_calendar_digit(&mut input, '1');
    assert_eq!(input.text(), "1");
}

#[test]
fn calendar_keys_move_and_type() {
    let mut input = InputBuffer::new();
    input.set_text("2026-09-15");
    assert_eq!(handle_due_date_calendar(key(KeyCode::Left), &mut input, false), Some(Action::CalendarMove(-1)));
    assert_eq!(handle_due_date_calendar(key(KeyCode::Down), &mut input, false), Some(Action::CalendarMove(7)));
    assert_eq!(handle_due_date_calendar(key(KeyCode::PageUp), &mut input, false), Some(Action::CalendarMonth(-1)));
    assert_eq!(handle_due_date_calendar(key(KeyCode::Tab), &mut input, false), Some(Action::CalendarToggleFocus));
    assert_eq!(handle_due_date_calendar(key(KeyCode::Char('-')), &mut input, false), Some(Action::CalendarTextChanged));
    assert_eq!(input.text(), "-");
    assert_eq!(handle_due_date_calendar(key(KeyCode::Char('x')), &mut input, true), None);
    assert_eq!(handle_due_date_calendar(key(KeyCode::Char('7')), &mut input, true), Some(Action::CalendarTextChanged));
    assert_eq!(input.text(), "-7");
}

#[test]
fn ctrl_c_quits_even_while_typing() {
    let mut app = app_with(&["a"]);
    app.mode = Mode::Editing { edit_id: None };
    assert_eq!(app.dispatch_key(ctrl('c')), Some(Action::Quit));
}

#[test]
fn resizing_the_sidebar_by_keys() {
    let mut app = app_with(&["a"]);
    assert_eq!(app.dispatch_key(ctrl('b')), Some(Action::EnterResizeSidebar));
    app.handle_action(Action::EnterResizeSidebar);
    assert_eq!(app.dispatch_key(KeyEvent::new(KeyCode::Left, KeyModifiers::shift())), Some(Action::ResizeSidebar(-5)));
    assert_eq!(app.dispatch_key(key(KeyCode::Right)), Some(Action::ResizeSidebar(1)));
    assert_eq!(app.dispatch_key(key(KeyCode::Char('r'))), Some(Action::ResetSidebarWidth));
    assert_eq!(app.dispatch_key(key(KeyCode::Esc)), Some(Action::CancelResizeSidebar));
}

#[test]
fn ctrl_l_cycles_how_notes_show() {
    let mut app = app_with(&["a"]);
    assert_eq!(app.dispatch_key(ctrl('l')), Some(Action::CycleNoteDisplay));
}

#[test]
fn popup_lists_take_right_as_enter_and_left_as_back() {
    let mut app = app_with(&["a"]);
    app.mode = Mode::SortPicker { selected: 1, original_sort: todo_tui::defs::SortMode::Default };
    assert_eq!(app.dispatch_key(key(KeyCode::Right)), Some(Action::SortSelect(1)));
    assert_eq!(app.dispatch_key(key(KeyCode::Left)), Some(Action::PopupBack));
    assert_eq!(app.dispatch_key(key(KeyCode::Char('p'))), Some(Action::SortSelect(2)));
}

#[test]
fn command_palette_keys() {
    let mut app = app_with(&["a"]);
    app.mode = Mode::Command { selected: 0 };
    app.input.set_text("hel");
    assert_eq!(app.dispatch_key(key(KeyCode::Tab)), Some(Action::TabComplete));
    assert_eq!(app.dispatch_key(key(KeyCode::Down)), Some(Action::SelectNext));
    assert_eq!(app.dispatch_key(key(KeyCode::Enter)), Some(Action::ExecuteCommand("help".to_string())));
    assert_eq!(app.dispatch_key(key(KeyCode::Char('p'))), None);
    assert_eq!(app.input.text(), "help");
    assert_eq!(app.dispatch_key(key(KeyCode::Esc)), Some(Action::CancelEdit));
    assert_eq!(app.input.text(), "");
}

#[test]
fn command_palette_backspace_on_typed_text_goes_back_to_the_full_list() {
    let mut app = app_with(&["a"]);
    app.mode = Mode::Command { selected: 2 };
    app.input.set_text("so");
    assert_eq!(app.dispatch_key(key(KeyCode::Backspace)), None);
    assert_eq!(app.input.text(), "");
    assert!(matches!(app.mode, Mode::Command { selected: 0 }));
}

#[test]
fn sidebar_keys_switch_filter_and_start_a_category() {
    let mut data = TodoData::new();
    let id = data.add("walk");
    data.set_category(id, Some("Dog".to_string()));
    let mut app = App::new(data, Theme::one_dark(), 22, Date::today(0));
    app.pane = todo_tui::defs::Pane::Categories;
    app.category_index = 1;
    assert_eq!(app.dispatch_key(key(KeyCode::Enter)), Some(Action::CategorySelect(1)));
    assert_eq!(app.dispatch_key(key(KeyCode::Right)), Some(Action::SwitchPane));
    assert_eq!(app.dispatch_key(key(KeyCode::PageDown)), Some(Action::SwitchCategoryFilter(1, true)));
    assert_eq!(app.dispatch_key(key(KeyCode::Char('x'))), Some(Action::StartCategoryAddWithChar('x')));
    assert_eq!(app.dispatch_key(key(KeyCode::Left)), None);
}

#[test]
fn new_category_prompt_left_empty_leaves() {
    let mut app = app_with(&["a"]);
    app.mode = Mode::CategoryAdd { parent: None };
    app.input.set_text("D");
    assert_eq!(app.dispatch_key(key(KeyCode::Backspace)), Some(Action::CancelCategoryAdd));
    assert_eq!(app.input.text(), "");
}

#[test]
fn search_tab_opens_bulk_selection_on_the_found_items() {
    let mut app = app_with(&["apple", "pear"]);
    app.mode = Mode::Searching;
    app.input.set_text("ap");
    app.filter = "ap".to_string();
    assert_eq!(app.dispatch_key(key(KeyCode::Tab)), None);
    assert_eq!(app.filter, "ap");
    assert_eq!(app.input.text(), "");
    assert!(matches!(app.mode, Mode::MultiSelect { .. }));
}

#[test]
fn search_control_keys_work_on_the_highlighted_item() {
    let mut app = app_with(&["apple"]);
    app.mode = Mode::Searching;
    let id = app.items()[0].id;
    assert_eq!(app.dispatch_key(ctrl('p')), Some(Action::CyclePriority(id)));
    assert_eq!(app.dispatch_key(KeyEvent::new(KeyCode::Up, KeyModifiers::control())), Some(Action::Reorder(id, -1)));
    assert_eq!(app.dispatch_key(ctrl('e')), Some(Action::EditItem(id)));
    assert_eq!(app.saved_search.as_deref(), Some(""));
}
