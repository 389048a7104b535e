use buildmon::errors::ProtocolViolation;
use buildmon::messages::BuildEdgeFinished;
use buildmon::messages::BuildEdgeInput;
use buildmon::messages::BuildEdgeOutput;
use buildmon::messages::BuildEdgeStarted;
use buildmon::messages::BuildStatus;
use buildmon::messages::InputEdgeType;
use buildmon::messages::OutputEdgeType;
use buildmon::messages::StructLogMessage;
use buildmon::state::BuildState;

fn input(path: &str, in_type: InputEdgeType) -> BuildEdgeInput {
    BuildEdgeInput { node_id: 0, path: path.to_string(), in_type }
}

fn output(path: &str, out_type: OutputEdgeType) -> BuildEdgeOutput {
    BuildEdgeOutput { node_id: 0, path: path.to_string(), out_type }
}

fn started(
    edge_id: usize,
    command: &str,
    start_time_millis: i64,
    inputs: Vec<BuildEdgeInput>,
    outputs: Vec<BuildEdgeOutput>,
) -> StructLogMessage {
    StructLogMessage::BuildEdgeStarted(BuildEdgeStarted {
        edge_id,
        command: command.to_string(),
        start_time_millis,
        inputs,
        outputs,
    })
}

fn finished(
    edge_id: usize,
    end_time_millis: i64,
    success: bool,
    output_text: &str,
) -> StructLogMessage {
    StructLogMessage::BuildEdgeFinished(BuildEdgeFinished {
        edge_id,
        end_time_millis,
        success,
        output: output_text.to_string(),
    })
}

#[test]
fn start_then_finish_merges_one_record() {
    let mut state = BuildState::new();
    let r1 = state.update(started(
        1,
        "g++ -c a.cpp -o a.o",
        1000,
        vec![input("a.cpp", InputEdgeType::Explicit)],
        vec![output("a.o", OutputEdgeType::Explicit)],
    ));
    assert!(r1.is_ok());
    let r2 = state.update(finished(1, 1050, true, ""));
    assert!(r2.is_ok());

    assert_eq!(state.log_entries.len(), 1);
    let e = &state.log_entries[0];
    assert_eq!(e.edge_id, 1);
    assert_eq!(e.command, "g++ -c a.cpp -o a.o");
    assert_eq!(e.compiler, "g++");
    assert_eq!(e.inputs, vec!["a.cpp".to_string()]);
    assert_eq!(e.outputs, vec!["a.o".to_string()]);
    assert_eq!(e.success, Some(true));
    assert_eq!(e.start_time_millis, 1000);
    assert_eq!(e.end_time_millis, Some(1050));
    assert_eq!(e.output, Some(String::new()));
}

#[test]
fn running_record_has_no_finish_fields() {
    let mut state = BuildState::new();
    state
        .update(started(4, "cc -c x.c", 5, Vec::new(), Vec::new()))
        .unwrap();
    let e = &state.log_entries[0];
    assert_eq!(e.success, None);
    assert_eq!(e.end_time_millis, None);
    assert_eq!(e.output, None);
}

#[test]
fn unmatched_finish_is_rejected_and_not_applied() {
    let mut state = BuildState::new();
    let r = state.update(finished(7, 10, true, "out"));
    assert_eq!(
        r,
        Err(ProtocolViolation::UnmatchedFinish { edge_id: 7 })
    );
    assert!(state.log_entries.is_empty());
}

#[test]
fn duplicate_start_is_rejected_and_not_applied() {
    let mut state = BuildState::new();
    state
        .update(started(3, "cc -c a.c", 1, Vec::new(), Vec::new()))
        .unwrap();
    let r = state.update(started(3, "cc -c b.c", 2, Vec::new(), Vec::new()));
    assert_eq!(r, Err(ProtocolViolation::DuplicateStart { edge_id: 3 }));
    assert_eq!(state.log_entries.len(), 1);
    assert_eq!(state.log_entries[0].command, "cc -c a.c");
}

#[test]
fn second_finish_for_same_id_is_rejected() {
    let mut state = BuildState::new();
    state
        .update(started(2, "cc -c a.c", 1, Vec::new(), Vec::new()))
        .unwrap();
    state.update(finished(2, 9, false, "boom")).unwrap();
    let r = state.update(finished(2, 11, true, "again"));
    assert_eq!(r, Err(ProtocolViolation::UnmatchedFinish { edge_id: 2 }));
    let e = &state.log_entries[0];
    assert_eq!(e.success, Some(false));
    assert_eq!(e.end_time_millis, Some(9));
    assert_eq!(e.output, Some("boom".to_string()));
}

#[test]
fn restart_after_finish_opens_a_new_record() {
    let mut state = BuildState::new();
    state
        .update(started(5, "cc -c a.c", 1, Vec::new(), Vec::new()))
        .unwrap();
    state.update(finished(5, 2, true, "")).unwrap();
    let r = state.update(started(5, "cc -c a.c", 3, Vec::new(), Vec::new()));
    assert!(r.is_ok());
    assert_eq!(state.log_entries.len(), 2);
    assert_eq!(state.log_entries[0].success, Some(true));
    assert_eq!(state.log_entries[1].success, None);
}

#[test]
fn total_edges_hint_overwrites_unconditionally() {
    let mut state = BuildState::new();
    state
        .update(StructLogMessage::TotalEdges { total: 42 })
        .unwrap();
    assert_eq!(state.total_edges, 42);
    state
        .update(StructLogMessage::TotalEdges { total: 50 })
        .unwrap();
    assert_eq!(state.total_edges, 50);
}

#[test]
fn build_status_overwrites_unconditionally() {
    let mut state = BuildState::new();
    assert_eq!(state.build_status, BuildStatus::NotStarted);
    state
        .update(StructLogMessage::BuildStatus { status: BuildStatus::Running })
        .unwrap();
    assert_eq!(state.build_status, BuildStatus::Running);
    state
        .update(StructLogMessage::BuildStatus { status: BuildStatus::Finished })
        .unwrap();
    assert_eq!(state.build_status, BuildStatus::Finished);
}

#[test]
fn apply_all_applies_in_arrival_order() {
    let mut state = BuildState::new();
    let r = state.apply_all(vec![
        StructLogMessage::TotalEdges { total: 2 },
        StructLogMessage::BuildStatus { status: BuildStatus::Running },
        started(1, "cc -c a.c", 1, Vec::new(), Vec::new()),
        finished(1, 2, true, ""),
        started(2, "cc -c b.c", 3, Vec::new(), Vec::new()),
    ]);
    assert!(r.is_ok());
    assert_eq!(state.total_edges, 2);
    assert_eq!(state.build_status, BuildStatus::Running);
    assert_eq!(state.log_entries.len(), 2);
    assert_eq!(state.log_entries[0].success, Some(true));
    assert_eq!(state.log_entries[1].success, None);
}

#[test]
fn apply_all_stops_at_first_violation_keeping_prior_messages() {
    let mut state = BuildState::new();
    let r = state.apply_all(vec![
        StructLogMessage::TotalEdges { total: 42 },
        finished(9, 10, true, ""),
        StructLogMessage::TotalEdges { total: 50 },
    ]);
    assert_eq!(r, Err(ProtocolViolation::UnmatchedFinish { edge_id: 9 }));
    assert_eq!(state.total_edges, 42);
    assert!(state.log_entries.is_empty());
}

#[test]
fn interleaved_edges_finish_out_of_start_order() {
    let mut state = BuildState::new();
    state
        .update(started(10, "cc -c a.c", 100, Vec::new(), Vec::new()))
        .unwrap();
    state
        .update(started(11, "cc -c b.c", 90, Vec::new(), Vec::new()))
        .unwrap();
    state.update(finished(11, 120, true, "")).unwrap();
    state.update(finished(10, 130, false, "err")).unwrap();
    assert_eq!(state.log_entries.len(), 2);
    assert_eq!(state.log_entries[0].edge_id, 10);
    assert_eq!(state.log_entries[0].success, Some(false));
    assert_eq!(state.log_entries[0].end_time_millis, Some(130));
    assert_eq!(state.log_entries[1].edge_id, 11);
    assert_eq!(state.log_entries[1].success, Some(true));
    assert_eq!(state.log_entries[1].end_time_millis, Some(120));
}

#[test]
fn creation_fields_survive_later_messages() {
    let mut state = BuildState::new();
    state
        .update(started(
            1,
            "g++ -c a.cpp",
            100,
            vec![input("a.cpp", InputEdgeType::Explicit)],
            vec![output("a.o", OutputEdgeType::Explicit)],
        ))
        .unwrap();
    state
        .update(started(2, "ld -o prog", 150, Vec::new(), Vec::new()))
        .unwrap();
    state.update(finished(1, 200, true, "done")).unwrap();
    let e = &state.log_entries[0];
    assert_eq!(e.edge_id, 1);
    assert_eq!(e.command, "g++ -c a.cpp");
    assert_eq!(e.compiler, "g++");
    assert_eq!(e.inputs, vec!["a.cpp".to_string()]);
    assert_eq!(e.outputs, vec!["a.o".to_string()]);
    assert_eq!(e.start_time_millis, 100);
}
