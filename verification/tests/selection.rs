use buildmon::messages::BuildEdgeStarted;
use buildmon::messages::BuildStatus;
use buildmon::messages::StructLogMessage;
use buildmon::state::BuildState;

fn state_with_entries(n: usize) -> BuildState {
    let mut state = BuildState::new();
    for id in 0..n {
        state
            .update(StructLogMessage::BuildEdgeStarted(BuildEdgeStarted {
                edge_id: id,
                command: "cc -c x.c".to_string(),
                start_time_millis: 0,
                inputs: Vec::new(),
                outputs: Vec::new(),
            }))
            .unwrap();
    }
    state
}

#[test]
fn empty_log_has_no_selection() {
    let state = BuildState::new();
    assert_eq!(state.select_relative(Some(0), 1), None);
    assert_eq!(state.select_relative(None, -1), None);
}

#[test]
fn moves_down_and_up_within_range() {
    let state = state_with_entries(5);
    assert_eq!(state.select_relative(Some(1), 1), Some(2));
    assert_eq!(state.select_relative(Some(3), -2), Some(1));
}

#[test]
fn absent_selection_counts_as_first_entry() {
    let state = state_with_entries(5);
    assert_eq!(state.select_relative(None, 1), Some(1));
    assert_eq!(state.select_relative(None, 0), Some(0));
}

#[test]
fn clamps_at_both_ends() {
    let state = state_with_entries(3);
    assert_eq!(state.select_relative(Some(2), 10), Some(2));
    assert_eq!(state.select_relative(Some(1), -10), Some(0));
    assert_eq!(state.select_relative(Some(0), isize::MIN), Some(0));
    assert_eq!(state.select_relative(Some(usize::MAX), isize::MAX), Some(2));
}

#[test]
fn status_labels() {
    assert_eq!(BuildStatus::NotStarted.label(), "Not Started");
    assert_eq!(BuildStatus::Running.label(), "Running");
    assert_eq!(BuildStatus::Finished.label(), "Finished");
}
