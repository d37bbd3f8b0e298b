use todo_tui::data::category::{category_badge, category_matches};
use todo_tui::data::{TodoData, NOTE_MAX_LEN};
use todo_tui::date::Date;

#[test]
fn nested_category_filters_match_branch() {
    assert!(category_matches(Some("Work/work2"), "Work"));
    assert!(category_matches(Some("Work/work2"), "Work/work2"));
    assert!(!category_matches(Some("Personal/p1"), "Work"));
    assert!(!category_matches(None, "Work"));
}

#[test]
fn category_badges_shorten_inside_active_branch() {
    assert_eq!(
        category_badge("Work/work2", None),
        Some("Work|work2".to_string())
    );
    assert_eq!(
        category_badge("Work/work2", Some("Work")),
        Some("work2".to_string())
    );
    assert_eq!(category_badge("Work", Some("Work")), None);
}

#[test]
fn category_entries_include_parent_and_children() {
    let mut data = TodoData::new();
    data.add_category("Work/work1");
    data.add_category("Work/work2");

    let entries = data.category_entries();
    let rows: Vec<(&str, &str, usize, bool)> = entries
        .iter()
        .map(|entry| {
            (
                entry.path.as_str(),
                entry.label.as_str(),
                entry.depth,
                entry.is_all,
            )
        })
        .collect();

    assert_eq!(
        rows,
        vec![
            ("Work", "Work", 0, false),
            ("Work/work1", "work1", 1, false),
            ("Work/work2", "work2", 1, false),
        ]
    );
}

#[test]
fn category_entries_group_children_added_after_another_root() {
    let mut data = TodoData::new();
    data.add_category("TRACE/Experiments");
    data.add_category("Personal/errands");
    data.add_category("TRACE/Vitrine");

    let entries = data.category_entries();
    let rows: Vec<(&str, usize)> = entries
        .iter()
        .map(|entry| (entry.label.as_str(), entry.depth))
        .collect();

    assert_eq!(
        rows,
        vec![
            ("TRACE", 0),
            ("Experiments", 1),
            ("Vitrine", 1),
            ("Personal", 0),
            ("errands", 1),
        ]
    );
}

#[test]
fn notes_append_in_order_with_a_creation_date() {
    let mut data = TodoData::new();
    let id = data.add("call for a rdv");

    assert!(data.add_note(id, "no answer, retry morning", 0));
    assert!(data.add_note(id, "  rdv 15/09 10h30  ", 0));

    let notes = &data.get(id).unwrap().notes;
    assert_eq!(notes.len(), 2);
    assert_eq!(notes[0].text, "no answer, retry morning");
    assert_eq!(notes[1].text, "rdv 15/09 10h30");
    assert_eq!(notes[1].created, Date::today(0).iso());
}

#[test]
fn notes_reject_empty_and_oversized_text() {
    let mut data = TodoData::new();
    let id = data.add("item");

    assert!(!data.add_note(id, "   ", 0));
    assert!(!data.add_note(id, &"é".repeat(NOTE_MAX_LEN + 1), 0));
    assert!(data.add_note(id, &"é".repeat(NOTE_MAX_LEN), 0));
    assert_eq!(data.note_count(id), 1);
}

#[test]
fn notes_edit_and_delete_target_one_entry() {
    let mut data = TodoData::new();
    let id = data.add("item");
    data.add_note(id, "first", 0);
    data.add_note(id, "second", 0);

    assert!(data.update_note(id, 0, "first, edited"));
    assert!(!data.update_note(id, 9, "nowhere"));
    assert!(!data.update_note(id, 0, ""));

    let removed = data.delete_note(id, 0).unwrap();
    assert_eq!(removed.text, "first, edited");
    assert_eq!(data.note_count(id), 1);
    assert!(data.delete_note(id, 5).is_none());

    data.restore_note(id, 0, removed);
    assert_eq!(data.get(id).unwrap().notes[0].text, "first, edited");
    assert_eq!(data.get(id).unwrap().notes[1].text, "second");
}

#[test]
fn notes_survive_a_delete_undo_round_trip() {
    let mut data = TodoData::new();
    let id = data.add("item");
    data.add_note(id, "kept through undo", 0);

    let snapshot = data.delete(id).unwrap();
    data.restore_item(snapshot);

    assert_eq!(data.get(id).unwrap().notes[0].text, "kept through undo");
}

#[test]
fn rename_category_updates_branch_items_and_stored_categories() {
    let mut data = TodoData::new();
    let id = data.add("ship");
    data.set_category(id, Some("Work/work1".to_string()));
    data.add_category("Work/work2");

    assert!(data.rename_category("Work", "Office"));

    let item = data.get(id).unwrap();
    assert_eq!(item.category.as_deref(), Some("Office/work1"));
    assert!(data.categories().contains(&"Office/work2".to_string()));
    assert!(!data.categories().contains(&"Work/work2".to_string()));
}

#[test]
fn a_parent_stored_between_its_children_gets_one_row() {
    let mut data = TodoData::new();
    data.add_category("A/x");
    data.add_category("A");
    data.add_category("A/y");
    let rows: Vec<(String, usize)> = data
        .category_entries_for_archived(false)
        .into_iter()
        .map(|e| (e.path, e.depth))
        .collect();
    assert_eq!(
        rows,
        vec![("A".to_string(), 0), ("A/x".to_string(), 1), ("A/y".to_string(), 1)]
    );
}

#[test]
fn ids_stay_distinct_and_orders_in_sequence_through_operations() {
    let mut data = TodoData::new();
    let a = data.add("a");
    let b = data.add("b");
    let c = data.add("c");
    let removed = data.delete(b).unwrap();
    data.reorder(c, -1);
    data.restore_item(removed);
    let d = data.add("d");
    assert!(d > b);
    let items = data.items();
    for i in 0..items.len() {
        for j in 0..items.len() {
            if i != j {
                assert_ne!(items[i].id, items[j].id);
            }
            if i < j {
                assert!(items[i].order <= items[j].order);
            }
        }
    }
    assert!(items.iter().any(|it| it.id == a));
}

#[test]
fn listed_categories_hold_each_path_once_grouped_by_root() {
    let mut data = TodoData::new();
    data.add_category("A/x");
    data.add_category("B");
    let id = data.add("walk");
    data.set_category(id, Some("A/y".to_string()));
    data.add_category("A/x");
    let cats = data.categories_for_archived(false);
    assert_eq!(cats, vec!["A/x".to_string(), "A/y".to_string(), "B".to_string()]);
}
