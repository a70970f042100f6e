//! What holds of every stream: the laws of its branches and of the
//! consumers attached to them.

use vstd::prelude::*;
use crate::broadcast::{law_detach_leaves_others, lemma_register, Attachment, Next, Step};
use crate::format::Format;
use crate::graph_op::{construction, teardown, undo, GraphOp};
use crate::pipe::BusMessage;
use crate::sample::SharedSample;
use crate::sink::{sample_of, SinkEvent};
use crate::stream_view::{
    lemma_attach_wf, lemma_built_wf, lemma_deliver_wf, lemma_detach_wf, lemma_message_wf, lemma_places,
    lemma_take_wf, AttachErrorView, AttachView, BranchState, BranchView, ConsumerView, Pull, StreamView,
};
use crate::sync_gate::{first_sync, lemma_first_sync, passed, GateState};

verus! {

/// The reference count of a branch is zero exactly when nothing of the
/// branch is in the graph. While a branch is being built for its first
/// consumer, which is not counted yet, this does not hold of it; of every
/// other format it holds at every moment: a format has consumers if and only
/// if it has a branch, and if and only if the graph holds that branch.
pub proof fn law_unreferenced_branch_is_out_of_graph(stream: StreamView, format: Format)
    requires
        stream.wf(),
        !stream.constructing(format),
    ensures
        stream.consumers(format) == 0 <==> !stream.pipe.holds(format),
        stream.consumers(format) == 0 <==> stream.branch(format).is_none(),
{
    assert(stream.branch_wf(format));
}

/// When the last consumer of a branch detaches, the branch is removed in the
/// same step, together with everything the book holds of it, and the
/// operations handed to the driver are the teardown, in its order. When
/// another consumer remains, nothing is taken out of the graph. So no attach
/// ever finds a branch that is half removed: a format either has a branch
/// with consumers, which can be joined, or none, and then an attach builds a
/// new one from the first operation on.
pub proof fn law_last_detach_tears_down(stream: StreamView, consumer: ConsumerView, name: Seq<char>)
    requires
        stream.wf(),
        !stream.constructing(consumer.format),
    ensures
        ({
            let (after, ops) = stream.detach(consumer);
            &&& after.wf()
            &&& !after.constructing(consumer.format)
            &&& ops == teardown() || ops == Seq::<GraphOp>::empty()
            &&& ops == teardown() <==> stream.consumers(consumer.format) > 0 && after.consumers(
                consumer.format,
            ) == 0
            &&& ops == teardown() ==> after.branch(consumer.format).is_none() && !after.pipe.holds(
                consumer.format,
            )
            &&& ops == Seq::<GraphOp>::empty() ==> after.pipe == stream.pipe
            &&& Format::named(name) == Some(consumer.format) && ops == teardown() && after.made
                < usize::MAX ==> {
                &&& after.attach(name).1 == Ok::<AttachView, AttachErrorView>(
                    AttachView::Build(GraphOp::CreateBin),
                )
                &&& after.attach(name).0.branch(consumer.format) == Some(
                    BranchView::begun(after.made + 1),
                )
            }
        }),
{
    lemma_detach_wf(stream, consumer);
    let format = consumer.format;
    assert(stream.branch_wf(format));
    match stream.branch(format) {
        Some(branch) => {
            law_detach_leaves_others(branch.broadcast, consumer.id, consumer.id + 1);
            assert(teardown().len() == 3);
        },
        None => {},
    }
}

/// An attach joins only a branch that is linked into the graph and has
/// consumers; and it never changes the branch of another format or, unless
/// it begins or joins a branch, anything at all.
pub proof fn law_attach_joins_live_branch(stream: StreamView, name: Seq<char>)
    requires
        stream.wf(),
    ensures
        ({
            let (after, result) = stream.attach(name);
            &&& result matches Ok(AttachView::Joined(consumer)) ==> {
                &&& Format::named(name) == Some(consumer.format)
                &&& stream.consumers(consumer.format) >= 1
                &&& stream.pipe.links.contains(consumer.format)
                &&& after.consumers(consumer.format) == stream.consumers(consumer.format) + 1
                &&& after.branch(consumer.format).unwrap().broadcast.registered(consumer.id)
            }
            &&& result is Err ==> after == stream
            &&& result == Ok::<AttachView, AttachErrorView>(AttachView::Busy) ==> after == stream
            &&& Format::named(name).is_none() <==> result == Err::<AttachView, AttachErrorView>(
                AttachErrorView::UnknownFormat,
            )
            &&& after.pipe == stream.pipe
            &&& forall|other: Format|
                Format::named(name) != Some(other) ==> after.branch(other) == stream.branch(other)
        }),
{
    let (after, result) = stream.attach(name);
    match Format::named(name) {
        Some(format) => {
            assert(stream.branch_wf(format));
            match stream.branch(format) {
                Some(branch) => {
                    lemma_register(branch.broadcast, 0);
                },
                None => {},
            }
            assert forall|other: Format| Format::named(name) != Some(other) implies after.branch(other)
                == stream.branch(other) by {
                lemma_places(other, format);
            }
        },
        None => {},
    }
}

/// A construction that fails leaves nothing behind: the branch is gone and
/// the book holds nothing of it, whatever had been put into the graph, and
/// the operations that the failure names are exactly those that take out
/// what was put in.
pub proof fn law_failed_construction_leaves_nothing(stream: StreamView, format: Format, done: bool)
    requires
        stream.wf(),
    ensures
        ({
            let (after, result) = stream.built(format, done);
            &&& after.wf()
            &&& result matches Err(AttachErrorView::GraphConstructionFailed { reason, undo: ops }) ==> {
                &&& stream.constructing(format)
                &&& !done
                &&& after.branch(format).is_none()
                &&& !after.pipe.holds(format)
                &&& ops.contains(GraphOp::UnlinkTee) <==> stream.pipe.links.contains(format)
                &&& ops.contains(GraphOp::RemoveBin) <==> stream.pipe.bins.contains(format)
            }
            &&& result == Err::<AttachView, AttachErrorView>(AttachErrorView::NotConstructing)
                <==> !stream.constructing(format)
            &&& forall|other: Format| other != format ==> after.branch(other) == stream.branch(other)
        }),
{
    lemma_built_wf(stream, format, done);
    let (after, result) = stream.built(format, done);
    assert forall|other: Format| other != format implies after.branch(other) == stream.branch(other) by {
        lemma_places(other, format);
    }
    match stream.branch(format) {
        Some(branch) => match branch.state {
            BranchState::Constructing(step) => {
                let op = construction()[step as int];
                let pipe = stream.record(format, op, done);
                if !done && op.critical() {
                    let ops = undo(pipe, format);
                    if pipe.links.contains(format) {
                        assert(ops[0] == GraphOp::UnlinkTee);
                    }
                    if pipe.bins.contains(format) {
                        assert(ops[ops.len() - 1] == GraphOp::RemoveBin);
                    }
                }
            },
            _ => {},
        },
        None => {},
    }
}

/// What can happen to a stream while one consumer is attached to it.
pub enum StreamStep {
    /// A consumer asks to be attached to the format of this name.
    Attach(Seq<char>),
    /// The driver reports on an operation of the construction of a branch.
    Built(Format, bool),
    /// An event of the port of a branch arrives.
    Deliver(Format, nat, SinkEvent),
    /// Another consumer asks for its next sample.
    Take(ConsumerView),
    /// Another consumer detaches.
    Detach(ConsumerView),
    /// A message of the engine's bus arrives.
    Message(BusMessage),
    /// The ingest port is asked for.
    Ingest,
    /// The attached consumer itself asks for its next sample.
    Next,
}

/// One consumer and the stream it is attached to, with the record of what
/// the port of its branch has produced since it attached and of what it has
/// received.
pub struct Listener {
    pub stream: StreamView,
    /// The consumer.
    pub me: ConsumerView,
    /// The samples distributed by the consumer's branch since the consumer
    /// attached, in order.
    pub produced: Seq<SharedSample>,
    /// The samples handed to the consumer so far, in order.
    pub received: Seq<SharedSample>,
}

impl StreamView {
    /// Whether `consumer` is attached to a branch of the stream: the branch
    /// of its format is built, has the number the consumer knows, and has the
    /// consumer registered.
    pub open spec fn serves(self, consumer: ConsumerView) -> bool {
        &&& self.branch(consumer.format) matches Some(branch)
        &&& branch.serial == consumer.serial
        &&& !(branch.state is Constructing)
        &&& branch.broadcast.registered(consumer.id)
    }

    /// The queue of an attached consumer.
    pub open spec fn queue_of(self, consumer: ConsumerView) -> Seq<SharedSample>
        recommends
            self.serves(consumer),
    {
        self.branch(consumer.format).unwrap().broadcast.queue_of(consumer.id)
    }
}

impl Listener {
    /// The consumer `me` has just been attached to `stream`.
    pub open spec fn attached(stream: StreamView, me: ConsumerView) -> Listener {
        Listener { stream, me, produced: Seq::empty(), received: Seq::empty() }
    }

    /// Whether `consumer` is the attached consumer itself.
    pub open spec fn is_me(self, consumer: ConsumerView) -> bool {
        consumer.format == self.me.format && consumer.serial == self.me.serial && consumer.id
            == self.me.id
    }

    /// A step that leaves the consumer attached: it is not the consumer's own
    /// detaching, and nobody else takes from the consumer's queue.
    pub open spec fn allows(self, step: StreamStep) -> bool {
        match step {
            StreamStep::Take(consumer) => !self.is_me(consumer),
            StreamStep::Detach(consumer) => !self.is_me(consumer),
            _ => true,
        }
    }

    /// The listener after one step.
    pub open spec fn step(self, step: StreamStep) -> Listener {
        match step {
            StreamStep::Attach(name) => Listener { stream: self.stream.attach(name).0, ..self },
            StreamStep::Built(format, done) => Listener { stream: self.stream.built(format, done).0, ..self },
            StreamStep::Deliver(format, serial, event) => {
                let (stream, pull) = self.stream.deliver(format, serial, event);
                Listener {
                    stream,
                    produced: if format == self.me.format && serial == self.me.serial && pull
                        == Pull::Continue {
                        self.produced.push(sample_of(event).unwrap())
                    } else {
                        self.produced
                    },
                    ..self
                }
            },
            StreamStep::Take(consumer) => Listener { stream: self.stream.take(consumer).0, ..self },
            StreamStep::Detach(consumer) => Listener { stream: self.stream.detach(consumer).0, ..self },
            StreamStep::Message(message) => Listener { stream: self.stream.message(message), ..self },
            StreamStep::Ingest => Listener { stream: self.stream.take_ingest().0, ..self },
            StreamStep::Next => {
                let (stream, gate, next) = self.stream.take(self.me);
                Listener {
                    stream,
                    me: ConsumerView { gate, ..self.me },
                    received: match next {
                        Next::Sample(sample) => self.received.push(sample),
                        _ => self.received,
                    },
                    ..self
                }
            },
        }
    }

    /// The listener after the steps of `steps`, in order.
    pub open spec fn run(self, steps: Seq<StreamStep>) -> Listener
        decreases steps.len(),
    {
        if steps.len() == 0 {
            self
        } else {
            self.run(steps.drop_last()).step(steps.last())
        }
    }

    /// Everything the consumer gets of what has been produced so far: what
    /// it has received, followed by what its gate will let through of its
    /// queue.
    pub open spec fn delivered(self) -> Seq<SharedSample> {
        self.received + passed(self.me.gate, self.stream.queue_of(self.me))
    }

    /// The consumer and the broadcast of its branch.
    pub open spec fn attachment(self) -> Attachment {
        Attachment {
            broadcast: self.stream.branch(self.me.format).unwrap().broadcast,
            id: self.me.id,
            gate: self.me.gate,
            produced: self.produced,
            received: self.received,
        }
    }

    /// What holds of an attached consumer at every moment.
    pub open spec fn inv(self) -> bool {
        &&& self.stream.wf()
        &&& self.stream.serves(self.me)
        &&& self.attachment().inv()
    }

    /// Every allowed step keeps the invariant.
    pub proof fn lemma_step_inv(self, step: StreamStep)
        requires
            self.inv(),
            self.allows(step),
        ensures
            self.step(step).inv(),
            self.step(step).me.format == self.me.format,
            self.step(step).me.serial == self.me.serial,
            self.step(step).me.id == self.me.id,
    {
        let after = self.step(step);
        let format = self.me.format;
        let branch = self.stream.branch(format).unwrap();
        let attachment = self.attachment();
        match step {
            StreamStep::Attach(name) => {
                lemma_attach_wf(self.stream, name);
                if Format::named(name) == Some(format) {
                    if branch.broadcast.issued < usize::MAX {
                        attachment.lemma_step_inv(Step::Register);
                    }
                } else if Format::named(name).is_some() {
                    lemma_places(Format::named(name).unwrap(), format);
                }
            },
            StreamStep::Built(other, done) => {
                lemma_built_wf(self.stream, other, done);
                lemma_places(other, format);
            },
            StreamStep::Deliver(other, serial, event) => {
                lemma_deliver_wf(self.stream, other, serial, event);
                lemma_places(other, format);
                if other == format && serial == branch.serial && branch.state is Active {
                    attachment.lemma_step_inv(Step::Deliver(event));
                }
            },
            StreamStep::Take(consumer) => {
                lemma_take_wf(self.stream, consumer);
                lemma_places(consumer.format, format);
                if consumer.format == format && consumer.serial == branch.serial {
                    attachment.lemma_step_inv(Step::Take(consumer.id, consumer.gate));
                }
            },
            StreamStep::Detach(consumer) => {
                lemma_detach_wf(self.stream, consumer);
                lemma_places(consumer.format, format);
                if consumer.format == format && consumer.serial == branch.serial {
                    attachment.lemma_step_inv(Step::Detach(consumer.id));
                }
            },
            StreamStep::Message(message) => {
                lemma_message_wf(self.stream, message);
                if after.stream != self.stream {
                    if branch.state is Active {
                        attachment.lemma_step_inv(Step::Deliver(SinkEvent::Disconnected));
                    }
                }
            },
            StreamStep::Ingest => {
                assert forall|f: Format| after.stream.branch_wf(f) by {
                    assert(self.stream.branch_wf(f));
                }
            },
            StreamStep::Next => {
                lemma_take_wf(self.stream, self.me);
                attachment.lemma_step_inv(Step::Next);
            },
        }
    }
}

/// Detaching consumer `a` from a stream neither drops, nor delays, nor
/// reorders anything for another consumer `b`: `b` is still served, by the
/// same branch, with the queue it had, and gets what it would have got.
pub proof fn law_stream_detach_leaves_others(stream: StreamView, a: ConsumerView, b: ConsumerView)
    requires
        stream.wf(),
        stream.serves(b),
        !(a.format == b.format && a.serial == b.serial && a.id == b.id),
    ensures
        ({
            let after = stream.detach(a).0;
            &&& after.wf()
            &&& after.serves(b)
            &&& after.queue_of(b) == stream.queue_of(b)
            &&& after.branch(b.format).unwrap().state == stream.branch(b.format).unwrap().state
            &&& after.branch(b.format).unwrap().broadcast.closed == stream.branch(
                b.format,
            ).unwrap().broadcast.closed
            &&& after.take(b).1 == stream.take(b).1
            &&& after.take(b).2 == stream.take(b).2
        }),
{
    lemma_detach_wf(stream, a);
    lemma_places(a.format, b.format);
    assert(stream.branch_wf(b.format));
    let branch = stream.branch(b.format).unwrap();
    if a.format == b.format && a.serial == b.serial {
        law_detach_leaves_others(branch.broadcast, a.id, b.id);
    }
}

/// A consumer that an attach has joined to a stream is served by the
/// stream, its queue is empty and its gate has seen nothing: it starts with
/// what is produced from now on.
pub proof fn law_joined_consumer_starts_empty(stream: StreamView, name: Seq<char>, format: Format, done: bool)
    requires
        stream.wf(),
    ensures
        stream.attach(name).1 matches Ok(AttachView::Joined(me)) ==> Listener::attached(
            stream.attach(name).0,
            me,
        ).inv() && stream.attach(name).0.queue_of(me).len() == 0 && me.gate == GateState::Seeking,
        stream.built(format, done).1 matches Ok(AttachView::Joined(me)) ==> Listener::attached(
            stream.built(format, done).0,
            me,
        ).inv() && stream.built(format, done).0.queue_of(me).len() == 0 && me.gate
            == GateState::Seeking,
{
    lemma_attach_wf(stream, name);
    lemma_built_wf(stream, format, done);
    match stream.attach(name).1 {
        Ok(AttachView::Joined(me)) => {
            let f = me.format;
            assert(stream.branch_wf(f));
            let branch = stream.branch(f).unwrap();
            Attachment::lemma_attach_inv(branch.broadcast);
            lemma_register(branch.broadcast, me.id);
        },
        _ => {},
    }
    match stream.built(format, done).1 {
        Ok(AttachView::Joined(me)) => {
            assert(stream.branch_wf(format));
            let branch = stream.branch(format).unwrap();
            Attachment::lemma_attach_inv(branch.broadcast);
            lemma_register(branch.broadcast, me.id);
        },
        _ => {},
    }
}

/// Whatever else happens to a stream, a consumer that stays attached gets a
/// gap-free suffix, in order, of what the port of its branch produces after
/// it attached, and that suffix starts at the first sync point.
///
/// The consumer has just been attached. Then any steps follow: other
/// consumers attach to any format, branches are built or fail to be built,
/// samples arrive for any branch, ports end, the engine fails, other
/// consumers take their samples and detach, and the consumer itself asks for
/// its next sample at any moment. After them the consumer is still served,
/// and what it has received, followed by what its gate lets through of its
/// queue, is the produced sequence from its first sync point on.
pub proof fn law_stream_consumer_gets_gated_suffix(start: Listener, steps: Seq<StreamStep>)
    requires
        start.inv(),
        start.produced.len() == 0,
        start.received.len() == 0,
        forall|i: int| 0 <= i < steps.len() ==> start.allows(#[trigger] steps[i]),
    ensures
        ({
            let end = start.run(steps);
            &&& end.inv()
            &&& end.stream.serves(end.me)
            &&& end.is_me(start.me)
            &&& end.delivered() == end.produced.skip(first_sync(end.produced))
            &&& 0 <= first_sync(end.produced) <= end.produced.len()
            &&& end.delivered().len() > 0 ==> end.delivered()[0].is_sync_point()
            &&& end.received == end.delivered().take(end.received.len() as int)
        }),
    decreases steps.len(),
{
    if steps.len() > 0 {
        let init = steps.drop_last();
        assert forall|i: int| 0 <= i < init.len() implies start.allows(#[trigger] init[i]) by {}
        law_stream_consumer_gets_gated_suffix(start, init);
        let before = start.run(init);
        let last = steps.last();
        before.lemma_step_inv(last);
    }
    let end = start.run(steps);
    lemma_first_sync(end.produced);
}

} // verus!
