//! A stream as a mathematical value, and the steps it takes.
//!
//! Every operation of [`crate::streams::Stream`] is one of the steps defined
//! here, applied to the view of the stream.

use vstd::prelude::*;
use crate::broadcast::{law_detach_leaves_others, lemma_register, lemma_take, BroadcastView, Next};
use crate::format::{Format, FORMATS};
use crate::graph_op::{construction, failure_reason, teardown, undo, GraphOp, STEPS};
use crate::pipe::{BusMessage, PipeState, PipeView};
use crate::sink::SinkEvent;
use crate::source::SourceView;
use crate::sync_gate::GateState;

verus! {

/// Where a branch stands in its life. A format without a branch has none
/// yet, or its branch has been removed.
#[derive(Clone, Copy, Debug, PartialEq, Eq, Structural)]
pub enum BranchState {
    /// The branch is being built; the operation at this place of the
    /// construction is the one the driver has been asked to do.
    Constructing(usize),
    /// The branch is built and its port yields samples.
    Active,
    /// The port has ended; consumers may still read what their queues hold.
    Draining,
}

/// What the driver of a branch's distributor is to do after an event.
#[derive(Clone, Copy, Debug, PartialEq, Eq, Structural)]
pub enum Pull {
    /// Pull the next event.
    Continue,
    /// The port has ended: pause the chain, and pull no more.
    Drain,
    /// The branch is not there, or not this one, or not active: pull no more.
    Stop,
}

/// What the driver of a consumer's output reports.
#[derive(Clone, Copy, Debug, PartialEq, Eq, Structural)]
pub enum WriteEvent {
    /// The output is ready for the next sample: at the start, and after a
    /// wait.
    Ready,
    /// The last write took this many bytes.
    Written(usize),
    /// The last write failed.
    Failed,
}

/// A branch as a mathematical value.
pub struct BranchView {
    /// The number of the branch among the branches of its stream.
    pub serial: nat,
    pub state: BranchState,
    pub broadcast: BroadcastView,
}

/// A consumer of a stream as a mathematical value.
pub struct ConsumerView {
    pub format: Format,
    /// The number of the branch the consumer is attached to.
    pub serial: nat,
    /// The id under which the consumer is registered with the branch's
    /// broadcast.
    pub id: nat,
    /// The state of the consumer's gate.
    pub gate: GateState,
    /// The length of the write that the consumer has asked for last.
    pub outstanding: nat,
}

/// The answer to an attach, as a mathematical value.
pub enum AttachView {
    Joined(ConsumerView),
    Build(GraphOp),
    Busy,
}

/// The failure of an attach, as a mathematical value.
pub enum AttachErrorView {
    UnknownFormat,
    GraphConstructionFailed { reason: Seq<char>, undo: Seq<GraphOp> },
    Exhausted,
    NotConstructing,
}

/// What a consumer's output is to do next, as a mathematical value.
pub enum WriteActionView {
    Write(Seq<u8>),
    Wait,
    Stop,
}

/// A stream as a mathematical value.
pub struct StreamView {
    /// The book of the stream's graph.
    pub pipe: PipeView,
    /// The branch of each format, at the place of the format.
    pub branches: Seq<Option<BranchView>>,
    /// The number of branches made so far; the last one has this number.
    pub made: nat,
    /// The ingest port has been handed out.
    pub ingest_taken: bool,
}

impl BranchView {
    /// A branch whose construction begins.
    pub open spec fn begun(serial: nat) -> BranchView {
        BranchView {
            serial,
            state: BranchState::Constructing(0),
            broadcast: BroadcastView { issued: 0, consumers: Seq::empty(), closed: false },
        }
    }

    /// The number of consumers attached to the branch: its reference count.
    pub open spec fn consumers(self) -> nat {
        self.broadcast.consumers.len()
    }
}

impl StreamView {
    /// A stream whose graph has just been launched: no branch yet.
    pub open spec fn launched() -> StreamView {
        StreamView {
            pipe: PipeView::launched(),
            branches: Seq::new(FORMATS as nat, |i: int| None::<BranchView>),
            made: 0,
            ingest_taken: false,
        }
    }

    /// The ingest port is asked for. It is handed out once: the stream has
    /// one producer.
    pub open spec fn take_ingest(self) -> (StreamView, Option<SourceView>) {
        if self.ingest_taken {
            (self, None)
        } else {
            (StreamView { ingest_taken: true, ..self }, Some(SourceView::fresh()))
        }
    }

    /// The branch of `format`, if there is one.
    pub open spec fn branch(self, format: Format) -> Option<BranchView> {
        self.branches[format.place()]
    }

    /// The number of consumers attached to the branch of `format`.
    pub open spec fn consumers(self, format: Format) -> nat {
        match self.branch(format) {
            Some(branch) => branch.consumers(),
            None => 0,
        }
    }

    /// Whether the branch of `format` is being built.
    pub open spec fn constructing(self, format: Format) -> bool {
        self.branch(format) matches Some(branch) && branch.state is Constructing
    }

    /// The stream with the branch of `format` replaced.
    pub open spec fn with_branch(self, format: Format, branch: Option<BranchView>) -> StreamView {
        StreamView { branches: self.branches.update(format.place(), branch), ..self }
    }

    /// What holds of the branch of one format.
    pub open spec fn branch_wf(self, format: Format) -> bool {
        match self.branch(format) {
            None => !self.pipe.holds(format),
            Some(branch) => {
                &&& branch.broadcast.wf()
                &&& 1 <= branch.serial <= self.made
                &&& match branch.state {
                    BranchState::Constructing(step) => {
                        &&& step < STEPS
                        &&& branch.broadcast.issued == 0
                        &&& branch.consumers() == 0
                        &&& !branch.broadcast.closed
                        &&& self.pipe.links.contains(format) <==> step > 10
                        &&& self.pipe.bins.contains(format) ==> step > 8
                    },
                    BranchState::Active => {
                        &&& branch.consumers() >= 1
                        &&& !branch.broadcast.closed
                        &&& self.pipe.links.contains(format)
                    },
                    BranchState::Draining => {
                        &&& branch.consumers() >= 1
                        &&& branch.broadcast.closed
                        &&& self.pipe.links.contains(format)
                    },
                }
            },
        }
    }

    /// The invariant of a stream: a format has a branch exactly while the
    /// branch is being built or has consumers, and the graph holds something
    /// of a branch only while the branch is there.
    pub open spec fn wf(self) -> bool {
        &&& self.branches.len() == FORMATS
        &&& forall|format: Format| self.branch_wf(format)
    }

    /// A consumer asks to be attached to the format called `name`.
    ///
    /// An unknown name fails. A format without a branch gets one, in
    /// construction, and the driver is asked for the first operation. A
    /// format whose branch is being built is busy. A branch that is built
    /// takes the consumer into its broadcast.
    pub open spec fn attach(self, name: Seq<char>) -> (StreamView, Result<AttachView, AttachErrorView>) {
        match Format::named(name) {
            None => (self, Err(AttachErrorView::UnknownFormat)),
            Some(format) => match self.branch(format) {
                None => {
                    if self.made >= usize::MAX {
                        (self, Err(AttachErrorView::Exhausted))
                    } else {
                        (
                            StreamView {
                                made: self.made + 1,
                                ..self.with_branch(format, Some(BranchView::begun(self.made + 1)))
                            },
                            Ok(AttachView::Build(construction()[0])),
                        )
                    }
                },
                Some(branch) => {
                    if branch.state is Constructing {
                        (self, Ok(AttachView::Busy))
                    } else if branch.broadcast.issued >= usize::MAX {
                        (self, Err(AttachErrorView::Exhausted))
                    } else {
                        (
                            self.with_branch(
                                format,
                                Some(BranchView { broadcast: branch.broadcast.register(), ..branch }),
                            ),
                            Ok(
                                AttachView::Joined(
                                    ConsumerView {
                                        format,
                                        serial: branch.serial,
                                        id: branch.broadcast.issued + 1,
                                        gate: GateState::Seeking,
                                        outstanding: 0,
                                    },
                                ),
                            ),
                        )
                    }
                },
            },
        }
    }

    /// The book of the graph after the operation `op` for `format` was done,
    /// or could not be done.
    pub open spec fn record(self, format: Format, op: GraphOp, done: bool) -> PipeView {
        match op {
            GraphOp::AddBin => self.pipe.add(format, done),
            GraphOp::LinkTee => self.pipe.link(format, done),
            _ => self.pipe,
        }
    }

    /// The driver reports whether the operation it was asked to do for the
    /// branch of `format` was done.
    ///
    /// Where a critical operation could not be done, the construction has
    /// failed: the branch is removed, the book is cleared of it, and the
    /// failure names the operations that clear the graph. Otherwise the next
    /// operation is asked for, or, after the last one, the branch is active
    /// and the consumer that asked for it is its first.
    pub open spec fn built(self, format: Format, done: bool) -> (
        StreamView,
        Result<AttachView, AttachErrorView>,
    ) {
        match self.branch(format) {
            Some(branch) => match branch.state {
                BranchState::Constructing(step) => {
                    let op = construction()[step as int];
                    let pipe = self.record(format, op, done);
                    if !done && op.critical() {
                        (
                            StreamView { pipe: pipe.without(format), ..self.with_branch(format, None) },
                            Err(
                                AttachErrorView::GraphConstructionFailed {
                                    reason: failure_reason(format, op),
                                    undo: undo(pipe, format),
                                },
                            ),
                        )
                    } else if step + 1 == STEPS {
                        (
                            StreamView {
                                pipe,
                                ..self.with_branch(
                                    format,
                                    Some(
                                        BranchView {
                                            state: BranchState::Active,
                                            broadcast: branch.broadcast.register(),
                                            ..branch
                                        },
                                    ),
                                )
                            },
                            Ok(
                                AttachView::Joined(
                                    ConsumerView {
                                        format,
                                        serial: branch.serial,
                                        id: branch.broadcast.issued + 1,
                                        gate: GateState::Seeking,
                                        outstanding: 0,
                                    },
                                ),
                            ),
                        )
                    } else {
                        (
                            StreamView {
                                pipe,
                                ..self.with_branch(
                                    format,
                                    Some(
                                        BranchView {
                                            state: BranchState::Constructing((step + 1) as usize),
                                            ..branch
                                        },
                                    ),
                                )
                            },
                            Ok(AttachView::Build(construction()[step + 1])),
                        )
                    }
                },
                _ => (self, Err(AttachErrorView::NotConstructing)),
            },
            None => (self, Err(AttachErrorView::NotConstructing)),
        }
    }

    /// An event of the port of the branch numbered `serial` of `format`
    /// arrives. An active branch distributes it; the end of the port makes
    /// the branch draining. Any other branch takes no event.
    pub open spec fn deliver(self, format: Format, serial: nat, event: SinkEvent) -> (StreamView, Pull) {
        match self.branch(format) {
            Some(branch) => {
                if branch.serial == serial && branch.state is Active {
                    let broadcast = branch.broadcast.deliver(event);
                    if broadcast.closed {
                        (
                            self.with_branch(
                                format,
                                Some(BranchView { state: BranchState::Draining, broadcast, ..branch }),
                            ),
                            Pull::Drain,
                        )
                    } else {
                        (self.with_branch(format, Some(BranchView { broadcast, ..branch })), Pull::Continue)
                    }
                } else {
                    (self, Pull::Stop)
                }
            },
            None => (self, Pull::Stop),
        }
    }

    /// A consumer asks for its next sample: the broadcast of its branch
    /// answers. A consumer whose branch is gone is at the end of its
    /// sequence.
    pub open spec fn take(self, consumer: ConsumerView) -> (StreamView, GateState, Next) {
        match self.branch(consumer.format) {
            Some(branch) => {
                if branch.serial == consumer.serial {
                    let (broadcast, gate, next) = branch.broadcast.take(consumer.id, consumer.gate);
                    (self.with_branch(consumer.format, Some(BranchView { broadcast, ..branch })), gate, next)
                } else {
                    (self, consumer.gate, Next::Closed)
                }
            },
            None => (self, consumer.gate, Next::Closed),
        }
    }

    /// A consumer detaches. It leaves the broadcast of its branch. If it was
    /// the last one, the branch is removed at once, the book is cleared of
    /// it, and the driver is handed the operations that take it out of the
    /// graph.
    pub open spec fn detach(self, consumer: ConsumerView) -> (StreamView, Seq<GraphOp>) {
        match self.branch(consumer.format) {
            Some(branch) => {
                if branch.serial == consumer.serial {
                    let broadcast = branch.broadcast.deregister(consumer.id);
                    if broadcast.consumers.len() == 0 && !(branch.state is Constructing) {
                        (
                            StreamView {
                                pipe: self.pipe.without(consumer.format),
                                ..self.with_branch(consumer.format, None)
                            },
                            teardown(),
                        )
                    } else {
                        (
                            self.with_branch(consumer.format, Some(BranchView { broadcast, ..branch })),
                            Seq::empty(),
                        )
                    }
                } else {
                    (self, Seq::empty())
                }
            },
            None => (self, Seq::empty()),
        }
    }

    /// The branch of a format after the graph has ended: an active branch is
    /// draining, its broadcast closed.
    pub open spec fn ended_branch(branch: Option<BranchView>) -> Option<BranchView> {
        match branch {
            Some(branch) => if branch.state is Active {
                Some(
                    BranchView {
                        state: BranchState::Draining,
                        broadcast: branch.broadcast.close(),
                        ..branch
                    },
                )
            } else {
                Some(branch)
            },
            None => None,
        }
    }

    /// A message of the engine's bus arrives. When it ends the graph, by an
    /// error or by the end of the stream, every active branch becomes
    /// draining: its consumers will find the end of their sequence.
    pub open spec fn message(self, message: BusMessage) -> StreamView {
        let pipe = self.pipe.watch(message);
        if self.pipe.state == PipeState::Playing && pipe.state != PipeState::Playing {
            StreamView {
                pipe,
                branches: Seq::new(
                    self.branches.len(),
                    |i: int| StreamView::ended_branch(self.branches[i]),
                ),
                ..self
            }
        } else {
            self
        }
    }

    /// A consumer's output reports, and is told what to do next. After a
    /// failed or short write it stops. Otherwise the consumer's next sample
    /// is written; without one, the output waits, or stops at the end of the
    /// sequence.
    pub open spec fn write_to(self, consumer: ConsumerView, event: WriteEvent) -> (
        StreamView,
        ConsumerView,
        WriteActionView,
    ) {
        let go_on = match event {
            WriteEvent::Ready => true,
            WriteEvent::Written(n) => n == consumer.outstanding,
            WriteEvent::Failed => false,
        };
        if !go_on {
            (self, consumer, WriteActionView::Stop)
        } else {
            let (stream, gate, next) = self.take(consumer);
            match next {
                Next::Sample(sample) => (
                    stream,
                    ConsumerView { gate, outstanding: sample.payload@.len(), ..consumer },
                    WriteActionView::Write(sample.payload@),
                ),
                Next::Pending => (stream, ConsumerView { gate, ..consumer }, WriteActionView::Wait),
                Next::Closed => (stream, ConsumerView { gate, ..consumer }, WriteActionView::Stop),
            }
        }
    }
}

/// Every format has its own place among the branches.
pub proof fn lemma_places(a: Format, b: Format)
    ensures
        0 <= a.place() < FORMATS,
        a.place() == b.place() <==> a == b,
{
}

/// Every step of a stream keeps its invariant.
pub proof fn law_steps_keep_invariant(
    stream: StreamView,
    name: Seq<char>,
    format: Format,
    done: bool,
    serial: nat,
    event: SinkEvent,
    consumer: ConsumerView,
    message: BusMessage,
    written: WriteEvent,
)
    requires
        stream.wf(),
    ensures
        stream.attach(name).0.wf(),
        stream.built(format, done).0.wf(),
        stream.deliver(format, serial, event).0.wf(),
        stream.take(consumer).0.wf(),
        stream.detach(consumer).0.wf(),
        stream.message(message).wf(),
        stream.write_to(consumer, written).0.wf(),
        stream.take_ingest().0.wf(),
{
    assert forall|f: Format| stream.take_ingest().0.branch_wf(f) by {
        assert(stream.branch_wf(f));
    }
    lemma_attach_wf(stream, name);
    lemma_built_wf(stream, format, done);
    lemma_deliver_wf(stream, format, serial, event);
    lemma_take_wf(stream, consumer);
    lemma_detach_wf(stream, consumer);
    lemma_message_wf(stream, message);
}

/// An attach keeps the invariant of the stream.
pub proof fn lemma_attach_wf(stream: StreamView, name: Seq<char>)
    requires
        stream.wf(),
    ensures
        stream.attach(name).0.wf(),
{
    let after = stream.attach(name).0;
    match Format::named(name) {
        None => {},
        Some(format) => {
            match stream.branch(format) {
                Some(branch) => {
                    assert(stream.branch_wf(format));
                    lemma_register(branch.broadcast, 0);
                },
                None => {},
            }
            assert forall|f: Format| after.branch_wf(f) by {
                lemma_places(f, format);
                assert(stream.branch_wf(f));
            }
        },
    }
}

/// A report on an operation of a construction keeps the invariant of the
/// stream.
pub proof fn lemma_built_wf(stream: StreamView, format: Format, done: bool)
    requires
        stream.wf(),
    ensures
        stream.built(format, done).0.wf(),
{
    let after = stream.built(format, done).0;
    assert(stream.branch_wf(format));
    match stream.branch(format) {
        Some(branch) => {
            lemma_register(branch.broadcast, 0);
        },
        None => {},
    }
    assert forall|f: Format| after.branch_wf(f) by {
        lemma_places(f, format);
        assert(stream.branch_wf(f));
    }
}

/// An event of a port keeps the invariant of the stream.
pub proof fn lemma_deliver_wf(stream: StreamView, format: Format, serial: nat, event: SinkEvent)
    requires
        stream.wf(),
    ensures
        stream.deliver(format, serial, event).0.wf(),
{
    let after = stream.deliver(format, serial, event).0;
    assert forall|f: Format| after.branch_wf(f) by {
        lemma_places(f, format);
        assert(stream.branch_wf(f));
    }
}

/// A consumer's taking of its next sample keeps the invariant of the stream.
pub proof fn lemma_take_wf(stream: StreamView, consumer: ConsumerView)
    requires
        stream.wf(),
    ensures
        stream.take(consumer).0.wf(),
{
    let after = stream.take(consumer).0;
    let format = consumer.format;
    assert(stream.branch_wf(format));
    match stream.branch(format) {
        Some(branch) => {
            lemma_take(branch.broadcast, consumer.id, consumer.gate, consumer.id);
        },
        None => {},
    }
    assert forall|f: Format| after.branch_wf(f) by {
        lemma_places(f, format);
        assert(stream.branch_wf(f));
    }
}

/// A detach keeps the invariant of the stream.
pub proof fn lemma_detach_wf(stream: StreamView, consumer: ConsumerView)
    requires
        stream.wf(),
    ensures
        stream.detach(consumer).0.wf(),
{
    let after = stream.detach(consumer).0;
    let format = consumer.format;
    assert(stream.branch_wf(format));
    match stream.branch(format) {
        Some(branch) => {
            law_detach_leaves_others(branch.broadcast, consumer.id, consumer.id + 1);
        },
        None => {},
    }
    assert forall|f: Format| after.branch_wf(f) by {
        lemma_places(f, format);
        assert(stream.branch_wf(f));
    }
}

/// A message of the bus keeps the invariant of the stream.
pub proof fn lemma_message_wf(stream: StreamView, message: BusMessage)
    requires
        stream.wf(),
    ensures
        stream.message(message).wf(),
{
    let after = stream.message(message);
    assert forall|f: Format| after.branch_wf(f) by {
        lemma_places(f, f);
        assert(stream.branch_wf(f));
    }
}

} // verus!
