use todo_tui::input::InputBuffer;

#[test]
fn delete_word_back_stops_at_separator() {
    let mut input = InputBuffer::new();
    input.insert_str("alpha/beta");

    input.delete_word_back();
    assert_eq!(input.text(), "alpha/");

    input.delete_word_back();
    assert_eq!(input.text(), "alpha");
}

#[test]
fn delete_word_forward_stops_at_separator() {
    let mut input = InputBuffer::new();
    input.insert_str("alpha/beta");
    input.move_home();

    input.delete_word_forward();
    assert_eq!(input.text(), "/beta");

    input.delete_word_forward();
    assert_eq!(input.text(), "beta");
}

#[test]
fn word_delete_skips_whitespace_before_deleting_next_class() {
    let mut input = InputBuffer::new();
    input.insert_str("alpha / beta");

    input.delete_word_back();
    assert_eq!(input.text(), "alpha / ");

    input.delete_word_back();
    assert_eq!(input.text(), "alpha ");
}
