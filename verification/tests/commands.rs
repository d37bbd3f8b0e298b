use todo_tui::commands::{get_completions, get_filtered_commands, resolve_command_input};
use todo_tui::menus::bulk_action_labels;

#[test]
fn get_filtered_commands_matches_filter_command() {
    let results = get_filtered_commands("filter");
    assert!(!results.is_empty(), "filter should match");
    assert!(
        results.iter().any(|(n, _)| *n == "filter"),
        "should contain filter"
    );
}

#[test]
fn get_filtered_commands_matches_archive_command() {
    let results = get_filtered_commands("archive");
    assert!(!results.is_empty(), "archive should match");
    assert!(
        results.iter().any(|(n, _)| *n == "archive"),
        "should contain archive"
    );
}

#[test]
fn get_filtered_commands_shows_archive_subcommands_after_space() {
    let results = get_filtered_commands("archive ");
    let names: Vec<&str> = results.iter().map(|(name, _)| *name).collect();
    assert_eq!(
        names,
        vec![
            "archive one",
            "archive bulk",
            "archive done",
            "archive all",
            "archive restore",
            "archive restore bulk",
            "archive restore all",
            "archive archived"
        ]
    );
}

#[test]
fn tab_completion_enters_subcommand_context_for_parent_commands() {
    assert_eq!(get_completions("so"), vec!["sort ".to_string()]);
    assert_eq!(get_completions("filter"), vec!["filter ".to_string()]);
    assert_eq!(get_completions("archive"), vec!["archive ".to_string()]);
}

#[test]
fn subcommand_context_filters_by_typed_suffix() {
    let sort_results: Vec<&str> = get_filtered_commands("sort du")
        .iter()
        .map(|(name, _)| *name)
        .collect();
    assert_eq!(sort_results, vec!["sort due"]);

    let filter_results: Vec<&str> = get_filtered_commands("filter pr")
        .iter()
        .map(|(name, _)| *name)
        .collect();
    assert_eq!(filter_results, vec!["filter priority"]);
}

#[test]
fn resolve_command_input_executes_selected_partial_command() {
    assert_eq!(
        resolve_command_input("arch", 0),
        Some("archive".to_string())
    );
}

#[test]
fn resolve_command_input_executes_selected_command_when_input_is_empty() {
    assert_eq!(resolve_command_input("", 1), Some("clear".to_string()));
}

#[test]
fn resolve_command_input_preserves_argument_commands() {
    assert_eq!(
        resolve_command_input("search Work task", 0),
        Some("search Work task".to_string())
    );
    assert_eq!(
        resolve_command_input("rename Work Office", 0),
        Some("rename Work Office".to_string())
    );
}

#[test]
fn resolve_command_input_executes_selected_subcommand_after_space() {
    assert_eq!(
        resolve_command_input("archive ", 1),
        Some("archive bulk".to_string())
    );
    assert_eq!(
        resolve_command_input("filter ", 4),
        Some("filter clear".to_string())
    );
}

#[test]
fn get_filtered_commands_shows_regular_commands() {
    let results = get_filtered_commands("");
    assert!(
        results.iter().any(|(n, _)| *n == "help"),
        "should contain regular commands"
    );
}

#[test]
fn get_filtered_commands_groups_archive_commands() {
    let results = get_filtered_commands("");
    let names: Vec<&str> = results.iter().map(|(name, _)| *name).collect();
    assert!(names.contains(&"archive"));
    assert!(!names.contains(&"unarchive"));
    assert!(!names.contains(&"archive archived"));
}

#[test]
fn unarchive_is_hidden_alias_not_visible_parent_command() {
    assert!(get_filtered_commands("unarchive").is_empty());
    assert_eq!(
        resolve_command_input("unarchive", 0),
        Some("unarchive".to_string())
    );
}

#[test]
fn get_filtered_commands_parent_list_contains_only_parent_commands() {
    let results = get_filtered_commands("");
    assert!(
        results.iter().all(|(name, _)| !name.contains(' ')),
        "parent command list should not contain subcommands"
    );
}

#[test]
fn get_filtered_commands_keybindings_matches() {
    let results = get_filtered_commands("keybindings");
    assert_eq!(results.len(), 1, "keybindings should match exactly one");
    assert_eq!(results[0].0, "keybindings");
}

#[test]
fn bulk_action_labels_include_edit_only_for_single_item() {
    let single = bulk_action_labels(true);
    let multi = bulk_action_labels(false);
    assert!(single.contains(&"Edit"));
    assert!(!multi.contains(&"Edit"));
    assert!(single.contains(&"Assign category"));
    assert!(multi.contains(&"Assign category"));
}
