use todo_tui::autosave::{save_step, SaveStep};

#[test]
fn unsaved_changes_are_saved_two_seconds_after_the_first() {
    assert_eq!(save_step(false, 5000), SaveStep { save_now: false, wait_ms: 500 });
    assert_eq!(save_step(true, 1500), SaveStep { save_now: false, wait_ms: 500 });
    assert_eq!(save_step(true, 200), SaveStep { save_now: false, wait_ms: 1800 });
    assert_eq!(save_step(true, 2000), SaveStep { save_now: true, wait_ms: 500 });
}
