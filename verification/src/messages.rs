//! Wire-level message schema for the build-event stream.
//!
//! The producer emits one message per line: an edge (one build step) is
//! announced with [`BuildEdgeStarted`], closed with [`BuildEdgeFinished`],
//! and the producer may also report its own estimate of total work and the
//! overall build phase. Each exec type has a ghost view used by contracts.

use vstd::prelude::*;

verus! {

/// Overall phase of the monitored build, as reported by the producer.
#[derive(Clone, Copy, Debug, PartialEq, Eq, Structural)]
pub enum BuildStatus {
    NotStarted,
    Running,
    Finished,
}

impl BuildStatus {
    /// Human-readable name of the phase, for a status line.
    pub fn label(&self) -> (r: &'static str)
        ensures
            r@ == match self {
                BuildStatus::NotStarted => "Not Started"@,
                BuildStatus::Running => "Running"@,
                BuildStatus::Finished => "Finished"@,
            },
    {
        match self {
            BuildStatus::NotStarted => "Not Started",
            BuildStatus::Running => "Running",
            BuildStatus::Finished => "Finished",
        }
    }
}

/// Tag of one input binding: only `Explicit` inputs are named directly on the
/// command; the others are retained on the wire but filtered out of the
/// primary input list.
#[derive(Clone, Copy, Debug, PartialEq, Eq, Structural)]
pub enum InputEdgeType {
    Explicit,
    Implicit,
    OrderOnly,
}

/// Tag of one output binding; all outputs are kept regardless of tag.
#[derive(Clone, Copy, Debug, PartialEq, Eq, Structural)]
pub enum OutputEdgeType {
    Explicit,
    Implicit,
}

/// Association between an edge and a path it reads.
pub struct BuildEdgeInput {
    pub node_id: i64,
    pub path: String,
    pub in_type: InputEdgeType,
}

/// Ghost view of [`BuildEdgeInput`].
pub ghost struct InputView {
    pub node_id: i64,
    pub path: Seq<char>,
    pub in_type: InputEdgeType,
}

impl View for BuildEdgeInput {
    type V = InputView;

    open spec fn view(&self) -> InputView {
        InputView { node_id: self.node_id, path: self.path@, in_type: self.in_type }
    }
}

impl DeepView for BuildEdgeInput {
    type V = InputView;

    open spec fn deep_view(&self) -> InputView {
        self.view()
    }
}

/// Association between an edge and a path it produces.
pub struct BuildEdgeOutput {
    pub node_id: i64,
    pub path: String,
    pub out_type: OutputEdgeType,
}

/// Ghost view of [`BuildEdgeOutput`].
pub ghost struct OutputView {
    pub node_id: i64,
    pub path: Seq<char>,
    pub out_type: OutputEdgeType,
}

impl View for BuildEdgeOutput {
    type V = OutputView;

    open spec fn view(&self) -> OutputView {
        OutputView { node_id: self.node_id, path: self.path@, out_type: self.out_type }
    }
}

impl DeepView for BuildEdgeOutput {
    type V = OutputView;

    open spec fn deep_view(&self) -> OutputView {
        self.view()
    }
}

/// Payload of the message announcing that one edge began executing.
pub struct BuildEdgeStarted {
    pub edge_id: usize,
    pub command: String,
    pub start_time_millis: i64,
    pub inputs: Vec<BuildEdgeInput>,
    pub outputs: Vec<BuildEdgeOutput>,
}

/// Ghost view of [`BuildEdgeStarted`].
pub ghost struct StartedView {
    pub edge_id: usize,
    pub command: Seq<char>,
    pub start_time_millis: i64,
    pub inputs: Seq<InputView>,
    pub outputs: Seq<OutputView>,
}

impl View for BuildEdgeStarted {
    type V = StartedView;

    open spec fn view(&self) -> StartedView {
        StartedView {
            edge_id: self.edge_id,
            command: self.command@,
            start_time_millis: self.start_time_millis,
            inputs: self.inputs.deep_view(),
            outputs: self.outputs.deep_view(),
        }
    }
}

impl DeepView for BuildEdgeStarted {
    type V = StartedView;

    open spec fn deep_view(&self) -> StartedView {
        self.view()
    }
}

/// Payload of the message announcing that one edge finished executing.
pub struct BuildEdgeFinished {
    pub edge_id: usize,
    pub end_time_millis: i64,
    pub success: bool,
    pub output: String,
}

/// Ghost view of [`BuildEdgeFinished`].
pub ghost struct FinishedView {
    pub edge_id: usize,
    pub end_time_millis: i64,
    pub success: bool,
    pub output: Seq<char>,
}

impl View for BuildEdgeFinished {
    type V = FinishedView;

    open spec fn view(&self) -> FinishedView {
        FinishedView {
            edge_id: self.edge_id,
            end_time_millis: self.end_time_millis,
            success: self.success,
            output: self.output@,
        }
    }
}

impl DeepView for BuildEdgeFinished {
    type V = FinishedView;

    open spec fn deep_view(&self) -> FinishedView {
        self.view()
    }
}

/// One decoded wire message, in arrival order, one per line.
pub enum StructLogMessage {
    BuildEdgeStarted(BuildEdgeStarted),
    BuildEdgeFinished(BuildEdgeFinished),
    TotalEdges { total: usize },
    BuildStatus { status: BuildStatus },
}

/// Ghost view of [`StructLogMessage`].
pub ghost enum MessageView {
    BuildEdgeStarted(StartedView),
    BuildEdgeFinished(FinishedView),
    TotalEdges { total: usize },
    BuildStatus { status: BuildStatus },
}

impl View for StructLogMessage {
    type V = MessageView;

    open spec fn view(&self) -> MessageView {
        match self {
            StructLogMessage::BuildEdgeStarted(s) => MessageView::BuildEdgeStarted(s@),
            StructLogMessage::BuildEdgeFinished(f) => MessageView::BuildEdgeFinished(f@),
            StructLogMessage::TotalEdges { total } => MessageView::TotalEdges { total: *total },
            StructLogMessage::BuildStatus { status } => MessageView::BuildStatus {
                status: *status,
            },
        }
    }
}

impl DeepView for StructLogMessage {
    type V = MessageView;

    open spec fn deep_view(&self) -> MessageView {
        self.view()
    }
}

} // verus!
