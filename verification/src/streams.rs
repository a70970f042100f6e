//! One live upload: its shared graph and the branches that serve its
//! consumers.
//!
//! A branch is the chain that muxes one output format for all consumers of
//! that format. It is built in the engine when the first consumer attaches,
//! serves every further consumer through its broadcast, and is taken out of
//! the graph when the last consumer has detached. The engine does the work;
//! a [`Stream`] decides each operation and keeps book of what is in the graph.

use vstd::prelude::*;
use vstd::slice::slice_to_vec;
use crate::broadcast::{Broadcast, Next};
use crate::format::{Format, FORMATS};
use crate::graph_op::{op_at, reason, teardown, undo, GraphOp, STEPS};
use crate::pipe::{BusMessage, Pipe, PipeState};
use crate::sink::{Sink, SinkEvent};
use crate::source::Source;
use crate::stream_view::{
    lemma_attach_wf, lemma_built_wf, lemma_deliver_wf, lemma_detach_wf, lemma_message_wf, lemma_places,
    lemma_take_wf, AttachErrorView, AttachView, BranchState, BranchView, ConsumerView, Pull, StreamView,
    WriteActionView, WriteEvent,
};

verus! {

/// The description of the graph that the engine builds for a stream: the
/// upload is decoded to raw audio and encoded into every format, and each
/// encoding ends at a point that carries the name of its format.
pub const PIPELINE: &'static str = r"
appsrc name=input input. ! decodebin ! audio/x-raw ! tee name=t allow-not-linked=true
t. ! queue ! audioconvert ! lamemp3enc quality=6 ! tee name=mp3 allow-not-linked=true
t. ! queue ! audioconvert ! vorbisenc bitrate=128000 ! tee name=ogg allow-not-linked=true
t. ! queue ! audioconvert ! voaacenc bitrate=80000 ! tee name=m4a allow-not-linked=true
t. ! queue ! audioconvert ! opusenc bitrate=64000 ! tee name=opus allow-not-linked=true
";

/// The name of the ingest port in the graph.
pub const INPUT: &'static str = "input";

#[derive(Debug)]
struct Branch {
    serial: usize,
    state: BranchState,
    broadcast: Broadcast,
}

impl View for Branch {
    type V = BranchView;

    closed spec fn view(&self) -> BranchView {
        BranchView { serial: self.serial as nat, state: self.state, broadcast: self.broadcast@ }
    }
}

/// One live upload.
#[derive(Debug)]
pub struct Stream {
    pipe: Pipe,
    branches: Vec<Option<Branch>>,
    made: usize,
    ingest_taken: bool,
}

impl View for Stream {
    type V = StreamView;

    closed spec fn view(&self) -> StreamView {
        StreamView {
            pipe: self.pipe@,
            branches: Seq::new(
                self.branches.len() as nat,
                |i: int|
                    match self.branches[i] {
                        Some(branch) => Some(branch@),
                        None => None,
                    },
            ),
            made: self.made as nat,
            ingest_taken: self.ingest_taken,
        }
    }
}

/// One reader of one format of a stream.
#[derive(Debug)]
pub struct Consumer {
    format: Format,
    serial: usize,
    inner: crate::broadcast::Consumer,
    outstanding: usize,
}

impl View for Consumer {
    type V = ConsumerView;

    closed spec fn view(&self) -> ConsumerView {
        ConsumerView {
            format: self.format,
            serial: self.serial as nat,
            id: self.inner.id(),
            gate: self.inner.gate(),
            outstanding: self.outstanding as nat,
        }
    }
}

/// The answer to an attach.
#[derive(Debug)]
pub enum Attach {
    /// The consumer is attached.
    Joined(Consumer),
    /// The branch has to be built first: do this operation on the engine and
    /// report with [`Stream::built`] whether it was done.
    Build(GraphOp),
    /// The branch is being built for another consumer: ask again later.
    Busy,
}

/// The failure of an attach.
#[derive(Debug)]
pub enum AttachError {
    /// The stream does not offer a format of that name.
    UnknownFormat,
    /// The branch could not be built. `reason` names the operation that the
    /// engine could not do; `undo` holds the operations that take out of the
    /// graph what the construction had put into it.
    GraphConstructionFailed { reason: String, undo: Vec<GraphOp> },
    /// The numbers for branches or for consumers are used up.
    Exhausted,
    /// An operation was reported for a format whose branch is not being
    /// built.
    NotConstructing,
}

/// What a consumer's output is to do next.
#[derive(Debug)]
pub enum WriteAction {
    /// Write these bytes and report how many were taken.
    Write(Vec<u8>),
    /// Nothing is there to be written yet: wait for the next sample of the
    /// branch, then report `Ready`.
    Wait,
    /// The sequence is over, or the output has failed: stop, and detach the
    /// consumer.
    Stop,
}

impl View for Attach {
    type V = AttachView;

    open spec fn view(&self) -> AttachView {
        match *self {
            Attach::Joined(consumer) => AttachView::Joined(consumer@),
            Attach::Build(op) => AttachView::Build(op),
            Attach::Busy => AttachView::Busy,
        }
    }
}

impl View for AttachError {
    type V = AttachErrorView;

    open spec fn view(&self) -> AttachErrorView {
        match *self {
            AttachError::UnknownFormat => AttachErrorView::UnknownFormat,
            AttachError::GraphConstructionFailed { reason, undo } => AttachErrorView::GraphConstructionFailed {
                reason: reason@,
                undo: undo@,
            },
            AttachError::Exhausted => AttachErrorView::Exhausted,
            AttachError::NotConstructing => AttachErrorView::NotConstructing,
        }
    }
}

impl View for WriteAction {
    type V = WriteActionView;

    open spec fn view(&self) -> WriteActionView {
        match *self {
            WriteAction::Write(bytes) => WriteActionView::Write(bytes@),
            WriteAction::Wait => WriteActionView::Wait,
            WriteAction::Stop => WriteActionView::Stop,
        }
    }
}

/// The result of an attach as a mathematical value.
pub open spec fn attach_view(result: Result<Attach, AttachError>) -> Result<AttachView, AttachErrorView> {
    match result {
        Ok(attach) => Ok(attach@),
        Err(error) => Err(error@),
    }
}

impl Stream {
    /// The invariant of a stream.
    pub open spec fn wf(&self) -> bool {
        self@.wf()
    }

    /// The book of a stream whose graph the driver has asked the engine to
    /// launch from [`PIPELINE`]. There is none if the engine could not
    /// launch it.
    pub fn new(launched: bool) -> (stream: Option<Self>)
        ensures
            launched ==> stream.is_some() && stream.unwrap().wf() && stream.unwrap()@
                == StreamView::launched(),
            !launched ==> stream.is_none(),
    {
        match Pipe::new(launched) {
            Some(pipe) => {
                let mut branches: Vec<Option<Branch>> = Vec::new();
                branches.push(None);
                branches.push(None);
                branches.push(None);
                branches.push(None);
                let stream = Stream { pipe, branches, made: 0, ingest_taken: false };
                proof {
                    assert(stream@.branches =~= StreamView::launched().branches);
                    assert forall|format: Format| stream@.branch_wf(format) by {
                        lemma_places(format, format);
                    }
                }
                Some(stream)
            },
            None => None,
        }
    }

    /// Hands out the ingest port of the stream, once. A stream has one
    /// producer: whoever asks again gets nothing.
    pub fn get_source(&mut self) -> (source: Option<Source>)
        requires
            old(self).wf(),
        ensures
            final(self).wf(),
            final(self)@ == old(self)@.take_ingest().0,
            match source {
                Some(source) => source.wf() && old(self)@.take_ingest().1 == Some(source@),
                None => old(self)@.take_ingest().1.is_none(),
            },
    {
        if self.ingest_taken {
            None
        } else {
            self.ingest_taken = true;
            proof {
                assert forall|format: Format| self@.branch_wf(format) by {
                    assert(old(self)@.branch_wf(format));
                }
            }
            Some(Source::new())
        }
    }

    /// The number of consumers attached to `format`.
    pub fn consumers(&self, format: Format) -> (count: usize)
        requires
            self.wf(),
        ensures
            count == self@.consumers(format),
    {
        match &self.branches[format.index()] {
            Some(branch) => branch.broadcast.consumers(),
            None => 0,
        }
    }

    /// Whether anything of the branch of `format` is in the graph.
    pub fn in_graph(&self, format: Format) -> (held: bool)
        ensures
            held == self@.pipe.holds(format),
    {
        self.pipe.has_bin(format) || self.pipe.is_linked(format)
    }

    /// Where the branch of `format` stands in its life, if there is one.
    pub fn branch_state(&self, format: Format) -> (state: Option<BranchState>)
        requires
            self.wf(),
        ensures
            state == match self@.branch(format) {
                Some(branch) => Some(branch.state),
                None => None,
            },
    {
        match &self.branches[format.index()] {
            Some(branch) => Some(branch.state),
            None => None,
        }
    }

    /// Attaches a consumer to the format called `tee_name`.
    ///
    /// The first consumer of a format has its branch built: the answer is
    /// the first operation of the construction, and the driver goes on with
    /// [`Stream::built`]. Every further consumer joins the branch that is
    /// there.
    pub fn get_mux_consumer(&mut self, tee_name: &str) -> (result: Result<Attach, AttachError>)
        requires
            old(self).wf(),
        ensures
            final(self).wf(),
            (final(self)@, attach_view(result)) == old(self)@.attach(tee_name@),
    {
        proof {
            lemma_attach_wf(self@, tee_name@);
        }
        let format = match Format::parse(tee_name) {
            Some(format) => format,
            None => {
                return Err(AttachError::UnknownFormat);
            },
        };
        let i = format.index();
        let ghost before = self@;
        proof {
            assert(before.branch_wf(format));
        }
        let found: Option<(BranchState, bool)> = match &self.branches[i] {
            Some(branch) => Some((branch.state, branch.broadcast.is_full())),
            None => None,
        };
        match found {
            None => {
                if self.made == usize::MAX {
                    return Err(AttachError::Exhausted);
                }
                self.made = self.made + 1;
                let branch = Branch {
                    serial: self.made,
                    state: BranchState::Constructing(0),
                    broadcast: Broadcast::new(Sink::new()),
                };
                self.branches[i] = Some(branch);
                proof {
                    assert(self@.branches =~= before.attach(tee_name@).0.branches);
                }
                Ok(Attach::Build(op_at(0)))
            },
            Some((BranchState::Constructing(_), _)) => Ok(Attach::Busy),
            Some((_, true)) => Err(AttachError::Exhausted),
            Some((_, false)) => {
                match &mut self.branches[i] {
                    Some(branch) => {
                        let inner = branch.broadcast.consumer();
                        let consumer = Consumer { format, serial: branch.serial, inner, outstanding: 0 };
                        proof {
                            assert(self@.branches =~= before.attach(tee_name@).0.branches);
                        }
                        Ok(Attach::Joined(consumer))
                    },
                    None => {
                        assert(false);
                        Ok(Attach::Busy)
                    },
                }
            },
        }
    }

    /// Takes the driver's report on the operation it was asked to do for the
    /// branch of `format`, and answers with the next operation, with the
    /// consumer for whom the branch was built, or with the failure of the
    /// construction.
    pub fn built(&mut self, format: Format, done: bool) -> (result: Result<Attach, AttachError>)
        requires
            old(self).wf(),
        ensures
            final(self).wf(),
            (final(self)@, attach_view(result)) == old(self)@.built(format, done),
    {
        proof {
            lemma_built_wf(self@, format, done);
            assert(self@.branch_wf(format));
        }
        let i = format.index();
        let ghost before = self@;
        let found: Option<BranchState> = match &self.branches[i] {
            Some(branch) => Some(branch.state),
            None => None,
        };
        let step = match found {
            Some(BranchState::Constructing(step)) => step,
            _ => {
                return Err(AttachError::NotConstructing);
            },
        };
        let op = op_at(step);
        match op {
            GraphOp::AddBin => {
                let _added = self.pipe.add(format, done);
            },
            GraphOp::LinkTee => {
                let _linked = self.pipe.link(format, done);
            },
            _ => {},
        }
        let ghost recorded = self.pipe@;
        if !done && op.is_critical() {
            let mut undo_ops: Vec<GraphOp> = Vec::new();
            if self.pipe.is_linked(format) {
                undo_ops.push(GraphOp::UnlinkTee);
                self.pipe.unlink(format);
            }
            if self.pipe.has_bin(format) {
                undo_ops.push(GraphOp::RemoveBin);
                self.pipe.remove(format);
            }
            self.branches[i] = None;
            proof {
                assert(undo_ops@ =~= undo(recorded, format));
                assert(self.pipe@.links =~= recorded.without(format).links);
                assert(self.pipe@.bins =~= recorded.without(format).bins);
                assert(self@.branches =~= before.built(format, done).0.branches);
            }
            return Err(AttachError::GraphConstructionFailed { reason: reason(format, op), undo: undo_ops });
        }
        if step + 1 == STEPS {
            match &mut self.branches[i] {
                Some(branch) => {
                    branch.state = BranchState::Active;
                    let inner = branch.broadcast.consumer();
                    let consumer = Consumer { format, serial: branch.serial, inner, outstanding: 0 };
                    proof {
                        assert(self@.branches =~= before.built(format, done).0.branches);
                    }
                    Ok(Attach::Joined(consumer))
                },
                None => {
                    assert(false);
                    Ok(Attach::Busy)
                },
            }
        } else {
            match &mut self.branches[i] {
                Some(branch) => {
                    branch.state = BranchState::Constructing(step + 1);
                    proof {
                        assert(self@.branches =~= before.built(format, done).0.branches);
                    }
                    Ok(Attach::Build(op_at(step + 1)))
                },
                None => {
                    assert(false);
                    Ok(Attach::Busy)
                },
            }
        }
    }

    /// One turn of the distributor of the branch numbered `serial` of
    /// `format`: takes the next event of the branch's port.
    pub fn deliver(&mut self, format: Format, serial: usize, event: SinkEvent) -> (pull: Pull)
        requires
            old(self).wf(),
        ensures
            final(self).wf(),
            (final(self)@, pull) == old(self)@.deliver(format, serial as nat, event),
    {
        proof {
            lemma_deliver_wf(self@, format, serial as nat, event);
            assert(self@.branch_wf(format));
        }
        let i = format.index();
        let ghost before = self@;
        match &mut self.branches[i] {
            Some(branch) => {
                let active = match branch.state {
                    BranchState::Active => true,
                    _ => false,
                };
                if branch.serial == serial && active {
                    let running = branch.broadcast.run_distributer(event);
                    if running {
                        proof {
                            assert(self@.branches =~= before.deliver(format, serial as nat, event).0.branches);
                        }
                        Pull::Continue
                    } else {
                        branch.state = BranchState::Draining;
                        proof {
                            assert(self@.branches =~= before.deliver(format, serial as nat, event).0.branches);
                        }
                        Pull::Drain
                    }
                } else {
                    proof {
                        assert(self@.branches =~= before.branches);
                    }
                    Pull::Stop
                }
            },
            None => {
                proof {
                    assert(self@.branches =~= before.branches);
                }
                Pull::Stop
            },
        }
    }

    /// Takes a message of the engine's bus. The result says whether the bus
    /// is to be watched further: it is until the graph has ended.
    pub fn watch(&mut self, message: BusMessage) -> (watching: bool)
        requires
            old(self).wf(),
        ensures
            final(self).wf(),
            final(self)@ == old(self)@.message(message),
            watching == (final(self)@.pipe.state == PipeState::Playing),
    {
        proof {
            lemma_message_wf(self@, message);
        }
        let ghost before = self@;
        let was_playing = match self.pipe.state() {
            PipeState::Playing => true,
            _ => false,
        };
        let watching = self.pipe.watch(message);
        if was_playing && !watching {
            let mut i: usize = 0;
            while i < self.branches.len()
                invariant
                    before.wf(),
                    i <= self.branches.len() == FORMATS,
                    self.pipe@ == before.pipe.watch(message),
                    self.made == before.made,
                    self.ingest_taken == before.ingest_taken,
                    self@.branches.len() == before.branches.len(),
                    forall|j: int|
                        0 <= j < i ==> (#[trigger] self@.branches[j]) == StreamView::ended_branch(
                            before.branches[j],
                        ),
                    forall|j: int| i <= j < FORMATS ==> (#[trigger] self@.branches[j]) == before.branches[j],
                decreases self.branches.len() - i,
            {
                let ghost now = self@;
                proof {
                    assert(exists|f: Format| f.place() == i) by {
                        if i == 0 {
                            assert(Format::Mp3.place() == i);
                        } else if i == 1 {
                            assert(Format::Ogg.place() == i);
                        } else if i == 2 {
                            assert(Format::M4a.place() == i);
                        } else {
                            assert(Format::Opus.place() == i);
                        }
                    }
                    let f = choose|f: Format| f.place() == i;
                    assert(before.branch_wf(f));
                    assert(now.branches[i as int] == before.branches[i as int]);
                }
                match &mut self.branches[i] {
                    Some(branch) => {
                        match branch.state {
                            BranchState::Active => {
                                branch.state = BranchState::Draining;
                                let _running = branch.broadcast.run_distributer(SinkEvent::Disconnected);
                            },
                            _ => {},
                        }
                    },
                    None => {},
                }
                proof {
                    assert forall|j: int| 0 <= j < FORMATS && j != i implies (#[trigger] self@.branches[j])
                        == now.branches[j] by {}
                }
                i = i + 1;
            }
            proof {
                assert(self@.branches =~= before.message(message).branches);
            }
        }
        watching
    }
}

impl Consumer {
    /// The format the consumer reads.
    pub fn format(&self) -> (format: Format)
        ensures
            format == self@.format,
    {
        self.format
    }

    /// The number of the branch the consumer is attached to.
    pub fn branch(&self) -> (serial: usize)
        ensures
            serial == self@.serial,
    {
        self.serial
    }

    /// Asks for the consumer's next sample, without waiting.
    pub fn next(&mut self, stream: &mut Stream) -> (next: Next)
        requires
            old(stream).wf(),
        ensures
            final(stream).wf(),
            final(self)@ == (ConsumerView { gate: old(stream)@.take(old(self)@).1, ..old(self)@ }),
            final(stream)@ == old(stream)@.take(old(self)@).0,
            next == old(stream)@.take(old(self)@).2,
    {
        proof {
            lemma_take_wf(stream@, self@);
            assert(stream@.branch_wf(self.format));
        }
        let i = self.format.index();
        let ghost before = stream@;
        match &mut stream.branches[i] {
            Some(branch) => {
                if branch.serial == self.serial {
                    let next = self.inner.next(&mut branch.broadcast);
                    proof {
                        assert(stream@.branches =~= before.take(old(self)@).0.branches);
                    }
                    next
                } else {
                    proof {
                        assert(stream@.branches =~= before.branches);
                    }
                    Next::Closed
                }
            },
            None => {
                proof {
                    assert(stream@.branches =~= before.branches);
                }
                Next::Closed
            },
        }
    }

    /// One step of the consumer's output: takes what the driver reports of
    /// the last write and says what is to be done next.
    pub fn write_to(&mut self, stream: &mut Stream, event: WriteEvent) -> (action: WriteAction)
        requires
            old(stream).wf(),
        ensures
            final(stream).wf(),
            (final(stream)@, final(self)@, action@) == old(stream)@.write_to(old(self)@, event),
    {
        let go_on = match event {
            WriteEvent::Ready => true,
            WriteEvent::Written(n) => n == self.outstanding,
            WriteEvent::Failed => false,
        };
        if !go_on {
            return WriteAction::Stop;
        }
        match self.next(stream) {
            Next::Sample(sample) => {
                let data = slice_to_vec(sample.payload.as_slice());
                self.outstanding = data.len();
                WriteAction::Write(data)
            },
            Next::Pending => WriteAction::Wait,
            Next::Closed => WriteAction::Stop,
        }
    }

    /// Detaches the consumer from its branch. If it was the last one of the
    /// branch, the result holds the operations that take the branch out of
    /// the graph, in the order in which the driver is to do them; otherwise
    /// it is empty.
    pub fn detach(self, stream: &mut Stream) -> (ops: Vec<GraphOp>)
        requires
            old(stream).wf(),
        ensures
            final(stream).wf(),
            (final(stream)@, ops@) == old(stream)@.detach(self@),
    {
        proof {
            lemma_detach_wf(stream@, self@);
            assert(stream@.branch_wf(self.format));
        }
        let format = self.format;
        let i = format.index();
        let ghost before = stream@;
        let ghost me = self@;
        let mut ops: Vec<GraphOp> = Vec::new();
        let last = match &mut stream.branches[i] {
            Some(branch) => {
                if branch.serial == self.serial {
                    self.inner.detach(&mut branch.broadcast);
                    let constructing = match branch.state {
                        BranchState::Constructing(_) => true,
                        _ => false,
                    };
                    branch.broadcast.consumers() == 0 && !constructing
                } else {
                    false
                }
            },
            None => false,
        };
        if last {
            stream.branches[i] = None;
            stream.pipe.unlink(format);
            stream.pipe.remove(format);
            ops.push(GraphOp::UnlinkTee);
            ops.push(GraphOp::Pause);
            ops.push(GraphOp::RemoveBin);
            proof {
                assert(stream@.branches =~= before.detach(me).0.branches);
            }
        } else {
            proof {
                assert(stream@.branches =~= before.detach(me).0.branches);
            }
        }
        ops
    }
}

} // verus!
