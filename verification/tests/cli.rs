//! The command line.

use todo_tui::cli::{parse_args, usage_name, CliOutcome};

#[test]
fn no_argument_runs_the_application() {
    assert_eq!(parse_args(Some("/usr/bin/todo"), None, "0.9.0"), CliOutcome::Run);
}

#[test]
fn help_and_version_print_and_exit() {
    assert_eq!(
        parse_args(Some("/usr/local/bin/todo"), Some("--help"), "0.9.0"),
        CliOutcome::Print("A terminal todo app\n\nUsage: todo".to_string())
    );
    assert_eq!(
        parse_args(Some("todo-tui"), Some("-h"), "0.9.0"),
        CliOutcome::Print("A terminal todo app\n\nUsage: todo-tui".to_string())
    );
    assert_eq!(
        parse_args(Some("./target/release/todo"), Some("-V"), "0.9.0"),
        CliOutcome::Print("todo 0.9.0".to_string())
    );
}

#[test]
fn an_unknown_argument_is_an_error() {
    assert_eq!(
        parse_args(Some("todo"), Some("--frobnicate"), "0.9.0"),
        CliOutcome::Fail("error: unexpected argument '--frobnicate'\n\nUsage: todo".to_string())
    );
}

#[test]
fn the_usage_name_is_the_file_name_of_the_program() {
    assert_eq!(usage_name(Some("/opt/tools/todo-tui")), "todo-tui");
    assert_eq!(usage_name(Some("todo")), "todo");
    assert_eq!(usage_name(Some("/opt/..")), "todo");
    assert_eq!(usage_name(None), "todo");
}
