use todo_tui::data::TodoData;
use todo_tui::defs::NoteDisplay;
use todo_tui::list::{
    justify_line, note_row_count, note_text_width, notes_newest_first, notes_popup_width, notes_window, wrap_text,
};

const TEXT_WIDTH: usize = 40;

#[test]
fn display_order_is_newest_first_while_storage_stays_chronological() {
    let mut data = TodoData::new();
    let id = data.add("call for a rdv");
    data.add_note(id, "oldest", 0);
    data.add_note(id, "middle", 0);
    data.add_note(id, "newest", 0);
    let item = data.get(id).unwrap();

    let shown: Vec<&str> = notes_newest_first(item)
        .into_iter()
        .map(|note| note.text.as_str())
        .collect();
    assert_eq!(shown, vec!["newest", "middle", "oldest"]);

    let stored: Vec<&str> = item.notes.iter().map(|note| note.text.as_str()).collect();
    assert_eq!(stored, vec!["oldest", "middle", "newest"]);
}

#[test]
fn note_row_count_is_zero_without_notes() {
    let mut data = TodoData::new();
    let id = data.add("no notes here");
    let item = data.get(id).unwrap();

    for mode in [NoteDisplay::Hidden, NoteDisplay::Latest, NoteDisplay::All] {
        assert_eq!(note_row_count(item, TEXT_WIDTH, mode), 0);
    }
}

#[test]
fn justify_line_fills_to_target_width() {
    let out = justify_line("hello world foo", 20);
    assert_eq!(out.chars().count(), 20);
}

#[test]
fn justify_line_distributes_remainder_to_earlier_gaps() {
    let out = justify_line("a b c", 8);
    assert_eq!(out, "a   b  c");
    assert_eq!(out.chars().count(), 8);
}

#[test]
fn justify_line_leaves_single_word_alone() {
    assert_eq!(justify_line("hello", 20), "hello");
}

#[test]
fn justify_line_returns_original_when_already_at_or_over_width() {
    assert_eq!(justify_line("hello world", 5), "hello world");
    assert_eq!(justify_line("hello world", 11), "hello world");
}

const LONG_NOTE: &str =
    "no answer this morning, called back at two and the line was busy again";

#[test]
fn note_row_count_follows_the_display_mode() {
    let mut data = TodoData::new();
    let id = data.add("call for a rdv");
    data.add_note(id, "short one", 0);
    data.add_note(id, LONG_NOTE, 0);
    let item = data.get(id).unwrap();

    let wrapped = wrap_text(LONG_NOTE, note_text_width(TEXT_WIDTH)).len();
    assert!(wrapped > 1, "long note should wrap at this width");

    assert_eq!(note_row_count(item, TEXT_WIDTH, NoteDisplay::Hidden), 0);
    assert_eq!(note_row_count(item, TEXT_WIDTH, NoteDisplay::Latest), 1);
    assert_eq!(
        note_row_count(item, TEXT_WIDTH, NoteDisplay::All),
        1 + wrapped
    );
}

#[test]
fn note_log_window_keeps_the_focus_and_fills_around_it() {
    assert_eq!(notes_window(&[1, 1, 1], Some(0), 2), (0, 2));
    assert_eq!(notes_window(&[1, 1, 1], None, 2), (1, 3));
    assert_eq!(notes_window(&[2, 1, 3, 1], Some(2), 4), (1, 3));
    assert_eq!(notes_window(&[5], Some(7), 3), (0, 1));
    assert_eq!(notes_popup_width(10, 5, 100), 44);
    assert_eq!(notes_popup_width(60, 5, 100), 62);
    assert_eq!(notes_popup_width(60, 5, 30), 28);
}

#[test]
fn an_empty_text_at_width_zero_is_one_empty_line() {
    assert_eq!(wrap_text("", 0), vec![String::new()]);
}
