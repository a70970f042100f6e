//! The operations on the engine's graph that build a branch and take it
//! out again.

use vstd::prelude::*;
use vstd::string::*;
use crate::format::Format;
use crate::pipe::PipeView;

verus! {

/// One operation on the engine's graph, on behalf of the branch of a format.
#[derive(Clone, Copy, Debug, PartialEq, Eq, Structural)]
pub enum GraphOp {
    /// Create the bin that will hold the chain.
    CreateBin,
    /// Create the queue at the head of the chain.
    CreateQueue,
    /// Add the queue to the bin.
    AddQueue,
    /// Create the muxer of the format.
    CreateMuxer,
    /// Apply the settings of the format to the muxer.
    ConfigureMuxer,
    /// Add the muxer to the bin.
    AddMuxer,
    /// Create the sample port at the end of the chain.
    CreateAppSink,
    /// Add the sample port to the bin.
    AddAppSink,
    /// Add the bin to the stream's graph.
    AddBin,
    /// Look up the point of the graph that hands out the format.
    FindTee,
    /// Link that point to the queue.
    LinkTee,
    /// Link the queue to the muxer.
    LinkQueue,
    /// Link the muxer to the sample port.
    LinkMuxer,
    /// Set the chain playing.
    Play,
    /// Unlink the queue from the point that hands out the format.
    UnlinkTee,
    /// Pause the chain.
    Pause,
    /// Remove the bin from the stream's graph.
    RemoveBin,
}

/// The number of operations that build a branch.
pub const STEPS: usize = 14;

/// The operation at place `step` of the construction of a branch.
pub open spec fn step_op(step: int) -> GraphOp {
    if step == 0 {
        GraphOp::CreateBin
    } else if step == 1 {
        GraphOp::CreateQueue
    } else if step == 2 {
        GraphOp::AddQueue
    } else if step == 3 {
        GraphOp::CreateMuxer
    } else if step == 4 {
        GraphOp::ConfigureMuxer
    } else if step == 5 {
        GraphOp::AddMuxer
    } else if step == 6 {
        GraphOp::CreateAppSink
    } else if step == 7 {
        GraphOp::AddAppSink
    } else if step == 8 {
        GraphOp::AddBin
    } else if step == 9 {
        GraphOp::FindTee
    } else if step == 10 {
        GraphOp::LinkTee
    } else if step == 11 {
        GraphOp::LinkQueue
    } else if step == 12 {
        GraphOp::LinkMuxer
    } else {
        GraphOp::Play
    }
}

/// The operations that build a branch, in the order in which they are done.
pub open spec fn construction() -> Seq<GraphOp> {
    Seq::new(STEPS as nat, |step: int| step_op(step))
}

/// The operations that take a branch out of the graph, in the order in which
/// they are done: disconnect, deactivate, release.
pub open spec fn teardown() -> Seq<GraphOp> {
    seq![GraphOp::UnlinkTee, GraphOp::Pause, GraphOp::RemoveBin]
}

/// The operations that take out of the graph what a construction that
/// failed has put into it: the link first, then the bin.
pub open spec fn undo(pipe: PipeView, format: Format) -> Seq<GraphOp> {
    let unlink = if pipe.links.contains(format) {
        seq![GraphOp::UnlinkTee]
    } else {
        Seq::empty()
    };
    let remove = if pipe.bins.contains(format) {
        seq![GraphOp::RemoveBin]
    } else {
        Seq::empty()
    };
    unlink + remove
}

impl GraphOp {
    /// Whether the construction of a branch fails when the engine cannot do
    /// the operation. Settings, the adding of the bin to the graph and the
    /// change of state are asked for and not checked.
    pub open spec fn critical(self) -> bool {
        match self {
            GraphOp::CreateBin => true,
            GraphOp::CreateQueue => true,
            GraphOp::AddQueue => true,
            GraphOp::CreateMuxer => true,
            GraphOp::AddMuxer => true,
            GraphOp::CreateAppSink => true,
            GraphOp::AddAppSink => true,
            GraphOp::FindTee => true,
            GraphOp::LinkTee => true,
            GraphOp::LinkQueue => true,
            GraphOp::LinkMuxer => true,
            _ => false,
        }
    }

    /// Whether the construction of a branch fails when the engine cannot do
    /// the operation.
    pub fn is_critical(self) -> (critical: bool)
        ensures
            critical == self.critical(),
    {
        match self {
            GraphOp::CreateBin => true,
            GraphOp::CreateQueue => true,
            GraphOp::AddQueue => true,
            GraphOp::CreateMuxer => true,
            GraphOp::AddMuxer => true,
            GraphOp::CreateAppSink => true,
            GraphOp::AddAppSink => true,
            GraphOp::FindTee => true,
            GraphOp::LinkTee => true,
            GraphOp::LinkQueue => true,
            GraphOp::LinkMuxer => true,
            _ => false,
        }
    }
}

/// Why the construction of the branch of `format` fails when the engine
/// cannot do `op`.
pub open spec fn failure_reason(format: Format, op: GraphOp) -> Seq<char> {
    match op {
        GraphOp::CreateBin => "Cannot create bin"@,
        GraphOp::CreateQueue => "Cannot create queue"@,
        GraphOp::AddQueue => "Cannot add queue to bin"@,
        GraphOp::CreateMuxer => "Cannot create muxer"@,
        GraphOp::AddMuxer => "Cannot add muxer to bin"@,
        GraphOp::CreateAppSink => "Cannot create appsink"@,
        GraphOp::AddAppSink => "Cannot add appsink to bin"@,
        GraphOp::FindTee => "Cannot get tee"@,
        GraphOp::LinkTee => "Cannot link tee to queue"@,
        GraphOp::LinkQueue => "Cannot link tee to "@ + format.muxer(),
        GraphOp::LinkMuxer => "Cannot link "@ + format.muxer() + " to appsink"@,
        _ => Seq::empty(),
    }
}

/// Why the construction of the branch of `format` fails when the engine
/// cannot do `op`.
pub fn reason(format: Format, op: GraphOp) -> (text: String)
    ensures
        text@ == failure_reason(format, op),
{
    match op {
        GraphOp::CreateBin => String::from_str("Cannot create bin"),
        GraphOp::CreateQueue => String::from_str("Cannot create queue"),
        GraphOp::AddQueue => String::from_str("Cannot add queue to bin"),
        GraphOp::CreateMuxer => String::from_str("Cannot create muxer"),
        GraphOp::AddMuxer => String::from_str("Cannot add muxer to bin"),
        GraphOp::CreateAppSink => String::from_str("Cannot create appsink"),
        GraphOp::AddAppSink => String::from_str("Cannot add appsink to bin"),
        GraphOp::FindTee => String::from_str("Cannot get tee"),
        GraphOp::LinkTee => String::from_str("Cannot link tee to queue"),
        GraphOp::LinkQueue => String::from_str("Cannot link tee to ").concat(format.muxer_element()),
        GraphOp::LinkMuxer => String::from_str("Cannot link ").concat(format.muxer_element()).concat(
            " to appsink",
        ),
        _ => String::new(),
    }
}

/// The operation at place `step` of the construction of a branch.
pub(crate) fn op_at(step: usize) -> (op: GraphOp)
    requires
        step < STEPS,
    ensures
        op == construction()[step as int],
{
    match step {
        0 => GraphOp::CreateBin,
        1 => GraphOp::CreateQueue,
        2 => GraphOp::AddQueue,
        3 => GraphOp::CreateMuxer,
        4 => GraphOp::ConfigureMuxer,
        5 => GraphOp::AddMuxer,
        6 => GraphOp::CreateAppSink,
        7 => GraphOp::AddAppSink,
        8 => GraphOp::AddBin,
        9 => GraphOp::FindTee,
        10 => GraphOp::LinkTee,
        11 => GraphOp::LinkQueue,
        12 => GraphOp::LinkMuxer,
        _ => GraphOp::Play,
    }
}

} // verus!
