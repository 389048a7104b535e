use buildmon::derivations::collect_output_paths;
use buildmon::derivations::filter_explicit_inputs;
use buildmon::derivations::guess_compiler;
use buildmon::messages::BuildEdgeInput;
use buildmon::messages::BuildEdgeOutput;
use buildmon::messages::BuildEdgeStarted;
use buildmon::messages::InputEdgeType;
use buildmon::messages::OutputEdgeType;
use buildmon::messages::StructLogMessage;
use buildmon::state::BuildState;

fn input(path: &str, in_type: InputEdgeType) -> BuildEdgeInput {
    BuildEdgeInput { node_id: 0, path: path.to_string(), in_type }
}

fn output(path: &str, out_type: OutputEdgeType) -> BuildEdgeOutput {
    BuildEdgeOutput { node_id: 0, path: path.to_string(), out_type }
}

#[test]
fn compiler_from_bare_token() {
    assert_eq!(guess_compiler("g++ -c a.cpp -o a.o"), Some("g++".to_string()));
}

#[test]
fn compiler_from_absolute_path() {
    assert_eq!(guess_compiler("/usr/bin/clang++ -o x"), Some("clang++".to_string()));
}

#[test]
fn compiler_from_relative_path() {
    assert_eq!(guess_compiler("tools/bin/cc x.c"), Some("cc".to_string()));
}

#[test]
fn compiler_empty_command_has_no_name() {
    assert_eq!(guess_compiler(""), None);
}

#[test]
fn compiler_command_without_whitespace_has_no_name() {
    assert_eq!(guess_compiler("gcc"), None);
}

#[test]
fn compiler_command_starting_with_space_has_no_name() {
    assert_eq!(guess_compiler(" -c a.c"), None);
}

#[test]
fn compiler_token_ending_in_separator_has_no_name() {
    assert_eq!(guess_compiler("bin/ x.c"), None);
}

#[test]
fn compiler_token_without_separator_is_kept_whole() {
    assert_eq!(guess_compiler(".. x.c"), Some("..".to_string()));
}

#[test]
fn placeholder_reaches_the_record() {
    let mut state = BuildState::new();
    state
        .update(StructLogMessage::BuildEdgeStarted(BuildEdgeStarted {
            edge_id: 1,
            command: "lone-token".to_string(),
            start_time_millis: 0,
            inputs: Vec::new(),
            outputs: Vec::new(),
        }))
        .unwrap();
    assert_eq!(state.log_entries[0].compiler, "???");
    assert_eq!(state.log_entries[0].command, "lone-token");
}

#[test]
fn input_filter_keeps_only_explicit_in_order() {
    let got = filter_explicit_inputs(vec![
        input("a.cpp", InputEdgeType::Explicit),
        input("a.h", InputEdgeType::Implicit),
        input("b.cpp", InputEdgeType::Explicit),
        input("stamp", InputEdgeType::OrderOnly),
        input("c.cpp", InputEdgeType::Explicit),
    ]);
    assert_eq!(
        got,
        vec!["a.cpp".to_string(), "b.cpp".to_string(), "c.cpp".to_string()]
    );
}

#[test]
fn input_filter_is_a_pure_projection() {
    let payload = || {
        vec![
            input("x.c", InputEdgeType::Explicit),
            input("x.h", InputEdgeType::Implicit),
            input("y.c", InputEdgeType::Explicit),
        ]
    };
    let first = filter_explicit_inputs(payload());
    let second = filter_explicit_inputs(payload());
    assert_eq!(first, second);
    assert_eq!(first, vec!["x.c".to_string(), "y.c".to_string()]);
}

#[test]
fn input_filter_of_nothing_is_empty() {
    assert_eq!(filter_explicit_inputs(Vec::new()), Vec::<String>::new());
}

#[test]
fn outputs_pass_through_regardless_of_tag() {
    let got = collect_output_paths(vec![
        output("a.o", OutputEdgeType::Explicit),
        output("a.d", OutputEdgeType::Implicit),
        output("b.o", OutputEdgeType::Explicit),
    ]);
    assert_eq!(
        got,
        vec!["a.o".to_string(), "a.d".to_string(), "b.o".to_string()]
    );
}
