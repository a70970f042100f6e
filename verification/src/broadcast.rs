//! The fan-out of one sample port to its consumers.
//!
//! A [`Broadcast`] keeps one queue per registered consumer. Every sample of
//! the port is appended to every queue; a consumer takes from its own queue,
//! through its sync gate, at its own pace. Nothing a consumer does or fails to
//! do is seen by another consumer or by the producer.
//!
//! The queues are not bounded, by choice: the producer never waits for a
//! consumer and never drops a sample, and a consumer that stops taking keeps
//! what is distributed to it until it detaches.

use vstd::prelude::*;
use std::collections::VecDeque;
use std::sync::Arc;
use crate::sample::{MediaSample, SharedSample};
use crate::sink::{sample_of, Sink, SinkEvent};
use crate::sync_gate::{
    discarded, first_sync, lemma_first_sync, lemma_first_sync_unique, lemma_passed_concat, passed,
    state_after, GateState, SyncGate,
};

verus! {

/// Whether a consumer can start decoding at this sample: it is neither a
/// delta unit nor a header.
pub fn buffer_is_sync_frame(buffer: &MediaSample) -> (sync: bool)
    ensures
        sync == buffer.is_sync_point(),
{
    if buffer.delta_unit {
        false
    } else if !buffer.header {
        true
    } else {
        false
    }
}

/// A second reference to a shared sample.
///
/// Trusted: `Arc::clone` returns a pointer to the same allocation, so the
/// sample behind the result is the sample behind the argument.
#[verifier::external_body]
fn share(sample: &SharedSample) -> (shared: SharedSample)
    ensures
        shared == *sample,
{
    Arc::clone(sample)
}

/// The queue of one registered consumer.
pub struct QueueView {
    /// The id under which the consumer registered.
    pub id: nat,
    /// The samples fanned out to the consumer and not yet taken by it,
    /// oldest first.
    pub queue: Seq<SharedSample>,
}

/// What a consumer gets when it asks for its next sample.
#[derive(Debug)]
pub enum Next {
    /// The next sample that passes the consumer's gate.
    Sample(SharedSample),
    /// Nothing yet: the queue holds no sample that passes its gate, and the
    /// port is still open.
    Pending,
    /// The end of the sequence: the port has ended and the queue is drained,
    /// or the consumer is not registered.
    Closed,
}

/// A broadcast as a mathematical value.
pub struct BroadcastView {
    /// The number of ids handed out so far; the last one is `issued`.
    pub issued: nat,
    /// The registered consumers, in the order in which they registered.
    pub consumers: Seq<QueueView>,
    /// The port has ended: no sample will follow.
    pub closed: bool,
}

impl BroadcastView {
    /// Ids grow along the consumers, and each was handed out.
    pub open spec fn wf(self) -> bool {
        &&& forall|i: int, j: int|
            0 <= i < j < self.consumers.len() ==> self.consumers[i].id < self.consumers[j].id
        &&& forall|i: int|
            0 <= i < self.consumers.len() ==> 1 <= (#[trigger] self.consumers[i]).id <= self.issued
    }

    /// Whether a consumer is registered under `id`.
    pub open spec fn registered(self, id: nat) -> bool {
        exists|i: int| 0 <= i < self.consumers.len() && (#[trigger] self.consumers[i]).id == id
    }

    /// Where the consumer registered under `id` stands among the consumers.
    pub open spec fn position(self, id: nat) -> int
        recommends
            self.registered(id),
    {
        choose|i: int| 0 <= i < self.consumers.len() && (#[trigger] self.consumers[i]).id == id
    }

    /// The queue of the consumer registered under `id`.
    pub open spec fn queue_of(self, id: nat) -> Seq<SharedSample>
        recommends
            self.registered(id),
    {
        self.consumers[self.position(id)].queue
    }

    /// The broadcast with the queue of `id` replaced by `queue`.
    pub open spec fn with_queue(self, id: nat, queue: Seq<SharedSample>) -> BroadcastView
        recommends
            self.registered(id),
    {
        BroadcastView {
            consumers: self.consumers.update(self.position(id), QueueView { id, queue }),
            ..self
        }
    }

    /// A new consumer registers: it gets the next id and an empty queue, at
    /// the end of the consumers.
    pub open spec fn register(self) -> BroadcastView {
        BroadcastView {
            issued: self.issued + 1,
            consumers: self.consumers.push(
                QueueView { id: self.issued + 1, queue: Seq::empty() },
            ),
            ..self
        }
    }

    /// A sample is appended to the queue of every registered consumer.
    pub open spec fn distribute(self, sample: SharedSample) -> BroadcastView {
        BroadcastView {
            consumers: Seq::new(
                self.consumers.len(),
                |i: int|
                    QueueView {
                        id: self.consumers[i].id,
                        queue: self.consumers[i].queue.push(sample),
                    },
            ),
            ..self
        }
    }

    /// The consumer registered under `id` leaves, with its queue. Without
    /// such a consumer nothing changes.
    pub open spec fn deregister(self, id: nat) -> BroadcastView {
        if self.registered(id) {
            BroadcastView { consumers: self.consumers.remove(self.position(id)), ..self }
        } else {
            self
        }
    }

    /// The port ends.
    pub open spec fn close(self) -> BroadcastView {
        BroadcastView { closed: true, ..self }
    }

    /// An event of the port arrives: a sample is distributed, the end of the
    /// port closes the broadcast. A closed broadcast stays as it is.
    pub open spec fn deliver(self, event: SinkEvent) -> BroadcastView {
        if self.closed {
            self
        } else {
            match sample_of(event) {
                Some(sample) => self.distribute(sample),
                None => self.close(),
            }
        }
    }

    /// The consumer registered under `id`, whose gate is in state `gate`,
    /// asks for its next sample: the broadcast and that gate afterwards, and
    /// what the consumer gets.
    ///
    /// Its gate discards the samples at the head of the queue that it does
    /// not let through. The first one that passes is taken and handed out. If
    /// none passes, the queue is left empty, and the consumer is told to wait
    /// or, where the port has ended, that the sequence is over.
    pub open spec fn take(self, id: nat, gate: GateState) -> (BroadcastView, GateState, Next) {
        if !self.registered(id) {
            (self, gate, Next::Closed)
        } else {
            let queue = self.queue_of(id);
            let skip = discarded(gate, queue);
            if skip < queue.len() {
                (self.with_queue(id, queue.skip(skip + 1)), GateState::Passing, Next::Sample(queue[skip]))
            } else {
                (
                    self.with_queue(id, Seq::empty()),
                    gate,
                    if self.closed {
                        Next::Closed
                    } else {
                        Next::Pending
                    },
                )
            }
        }
    }
}

/// In a well-formed broadcast a consumer is found where it stands: the
/// consumer at index `i` is registered, and its position is `i`.
pub proof fn lemma_position(b: BroadcastView, i: int)
    requires
        b.wf(),
        0 <= i < b.consumers.len(),
    ensures
        b.registered(b.consumers[i].id),
        b.position(b.consumers[i].id) == i,
        b.queue_of(b.consumers[i].id) == b.consumers[i].queue,
{
}

/// Registering a consumer keeps every registered consumer and its queue, and
/// adds the new one with an empty queue.
pub proof fn lemma_register(b: BroadcastView, c: nat)
    requires
        b.wf(),
    ensures
        b.register().wf(),
        b.register().registered(b.issued + 1),
        b.register().queue_of(b.issued + 1) == Seq::<SharedSample>::empty(),
        !b.registered(b.issued + 1),
        b.registered(c) ==> b.register().registered(c) && b.register().queue_of(c) == b.queue_of(c),
        b.register().registered(c) ==> b.registered(c) || c == b.issued + 1,
{
    let after = b.register();
    let last = b.consumers.len() as int;
    lemma_position(after, last);
    if b.registered(c) {
        let i = b.position(c);
        lemma_position(b, i);
        lemma_position(after, i);
    }
}

/// Detaching consumer `a` neither drops, nor delays, nor reorders anything
/// for another consumer `c`: `c` stays registered with the queue it had, the
/// remaining consumers keep their order, and whatever is distributed or taken
/// afterwards is what it would have been with `a` still there.
pub proof fn law_detach_leaves_others(b: BroadcastView, a: nat, c: nat)
    requires
        b.wf(),
        a != c,
    ensures
        b.deregister(a).wf(),
        !b.deregister(a).registered(a),
        b.deregister(a).registered(c) == b.registered(c),
        b.registered(c) ==> b.deregister(a).queue_of(c) == b.queue_of(c),
        b.deregister(a).issued == b.issued,
        b.deregister(a).closed == b.closed,
        forall|i: int, j: int|
            0 <= i < j < b.consumers.len() && b.consumers[i].id != a && b.consumers[j].id != a ==> {
                &&& b.deregister(a).registered(b.consumers[i].id)
                &&& b.deregister(a).registered(b.consumers[j].id)
                &&& b.deregister(a).position(b.consumers[i].id) < b.deregister(a).position(
                    b.consumers[j].id,
                )
            },
        forall|gate: GateState|
            b.registered(c) ==> {
                &&& (#[trigger] b.deregister(a).take(c, gate)).1 == b.take(c, gate).1
                &&& b.deregister(a).take(c, gate).2 == b.take(c, gate).2
            },
        forall|sample: SharedSample|
            b.registered(c) ==> (#[trigger] b.deregister(a).distribute(sample)).queue_of(c)
                == b.distribute(sample).queue_of(c),
{
    let after = b.deregister(a);
    if b.registered(a) {
        let p = b.position(a);
        assert forall|i: int| 0 <= i < after.consumers.len() implies (#[trigger] after.consumers[i])
            == b.consumers[if i < p { i } else { i + 1 }] by {}
        assert(after.wf()) by {
            assert forall|i: int, j: int| 0 <= i < j < after.consumers.len() implies after.consumers[i].id
                < after.consumers[j].id by {}
        }
        if after.registered(a) {
            let i = after.position(a);
            let bi = if i < p { i } else { i + 1 };
            lemma_position(b, bi);
        }
        if b.registered(c) {
            let i = b.position(c);
            let ai = if i < p { i } else { i - 1 };
            lemma_position(after, ai);
            lemma_position(b, i);
        }
        assert forall|i: int, j: int|
            0 <= i < j < b.consumers.len() && b.consumers[i].id != a && b.consumers[j].id != a implies {
            &&& after.registered(b.consumers[i].id)
            &&& after.registered(b.consumers[j].id)
            &&& after.position(b.consumers[i].id) < after.position(b.consumers[j].id)
        } by {
            lemma_position(b, i);
            lemma_position(b, j);
            let ai = if i < p { i } else { i - 1 };
            let aj = if j < p { j } else { j - 1 };
            lemma_position(after, ai);
            lemma_position(after, aj);
        }
    } else {
        assert forall|i: int, j: int|
            0 <= i < j < b.consumers.len() && b.consumers[i].id != a && b.consumers[j].id != a implies {
            &&& after.registered(b.consumers[i].id)
            &&& after.registered(b.consumers[j].id)
            &&& after.position(b.consumers[i].id) < after.position(b.consumers[j].id)
        } by {
            lemma_position(b, i);
            lemma_position(b, j);
        }
    }
    if b.registered(c) {
        assert forall|sample: SharedSample|
            (#[trigger] after.distribute(sample)).queue_of(c) == b.distribute(sample).queue_of(c) by {
            lemma_distribute(after, sample, c);
            lemma_distribute(b, sample, c);
        }
    }
}

/// Distributing a sample appends it to the queue of every registered
/// consumer, and registers or removes none.
pub proof fn lemma_distribute(b: BroadcastView, sample: SharedSample, c: nat)
    requires
        b.wf(),
    ensures
        b.distribute(sample).wf(),
        b.distribute(sample).registered(c) == b.registered(c),
        b.registered(c) ==> b.distribute(sample).queue_of(c) == b.queue_of(c).push(sample),
{
    let after = b.distribute(sample);
    if b.registered(c) {
        let i = b.position(c);
        lemma_position(after, i);
        lemma_position(b, i);
    }
}

/// When consumer `a` takes its next sample, another consumer `c` keeps its
/// place and its queue; the queue of `a` becomes what `take` says.
pub proof fn lemma_take(b: BroadcastView, a: nat, gate: GateState, c: nat)
    requires
        b.wf(),
    ensures
        b.take(a, gate).0.wf(),
        b.take(a, gate).0.registered(c) == b.registered(c),
        b.take(a, gate).0.issued == b.issued,
        b.take(a, gate).0.closed == b.closed,
        a != c && b.registered(c) ==> b.take(a, gate).0.queue_of(c) == b.queue_of(c),
        b.registered(a) ==> b.take(a, gate).0.queue_of(a) == if discarded(gate, b.queue_of(a))
            < b.queue_of(a).len() {
            b.queue_of(a).skip(discarded(gate, b.queue_of(a)) + 1)
        } else {
            Seq::empty()
        },
{
    let after = b.take(a, gate).0;
    if b.registered(a) {
        let p = b.position(a);
        assert forall|i: int| 0 <= i < after.consumers.len() implies (#[trigger] after.consumers[i]).id
            == b.consumers[i].id by {}
        lemma_position(after, p);
        if b.registered(c) {
            let i = b.position(c);
            lemma_position(after, i);
            lemma_position(b, i);
        }
    }
}

/// What can happen to a broadcast while one consumer is attached to it.
pub enum Step {
    /// Another consumer registers.
    Register,
    /// The consumer registered under this id detaches.
    Detach(nat),
    /// An event of the port arrives.
    Deliver(SinkEvent),
    /// The consumer registered under this id, its gate in this state, asks
    /// for its next sample.
    Take(nat, GateState),
    /// The attached consumer itself asks for its next sample.
    Next,
}

/// One consumer and the broadcast it is attached to, with the record of what
/// the port has produced since it attached and of what it has received.
pub struct Attachment {
    pub broadcast: BroadcastView,
    /// The id of the consumer.
    pub id: nat,
    /// The state of the consumer's gate.
    pub gate: GateState,
    /// The samples distributed since the consumer attached, in order.
    pub produced: Seq<SharedSample>,
    /// The samples handed to the consumer so far, in order.
    pub received: Seq<SharedSample>,
}

impl Attachment {
    /// A consumer attaches to `b`.
    pub open spec fn attach(b: BroadcastView) -> Attachment {
        Attachment {
            broadcast: b.register(),
            id: b.issued + 1,
            gate: GateState::Seeking,
            produced: Seq::empty(),
            received: Seq::empty(),
        }
    }

    /// A step that leaves the consumer attached: it is not the consumer's own
    /// detaching, and nobody else takes from the consumer's queue.
    pub open spec fn allows(self, step: Step) -> bool {
        match step {
            Step::Detach(id) => id != self.id,
            Step::Take(id, _) => id != self.id,
            _ => true,
        }
    }

    /// The reader after one step.
    pub open spec fn step(self, step: Step) -> Attachment {
        match step {
            Step::Register => Attachment { broadcast: self.broadcast.register(), ..self },
            Step::Detach(id) => Attachment { broadcast: self.broadcast.deregister(id), ..self },
            Step::Deliver(event) => Attachment {
                broadcast: self.broadcast.deliver(event),
                produced: if !self.broadcast.closed && sample_of(event).is_some() {
                    self.produced.push(sample_of(event).unwrap())
                } else {
                    self.produced
                },
                ..self
            },
            Step::Take(id, gate) => Attachment { broadcast: self.broadcast.take(id, gate).0, ..self },
            Step::Next => {
                let (broadcast, gate, next) = self.broadcast.take(self.id, self.gate);
                Attachment {
                    broadcast,
                    gate,
                    received: match next {
                        Next::Sample(sample) => self.received.push(sample),
                        _ => self.received,
                    },
                    ..self
                }
            },
        }
    }

    /// The reader after the steps of `steps`, in order.
    pub open spec fn run(self, steps: Seq<Step>) -> Attachment
        decreases steps.len(),
    {
        if steps.len() == 0 {
            self
        } else {
            self.run(steps.drop_last()).step(steps.last())
        }
    }

    /// Everything the consumer gets of what has been produced so far: what
    /// it has received, followed by what its gate will let through of its
    /// queue.
    pub open spec fn delivered(self) -> Seq<SharedSample> {
        self.received + passed(self.gate, self.broadcast.queue_of(self.id))
    }

    /// What holds of an attached consumer at every moment.
    pub open spec fn inv(self) -> bool {
        &&& self.broadcast.wf()
        &&& self.broadcast.registered(self.id)
        &&& self.delivered() == passed(GateState::Seeking, self.produced)
        &&& state_after(self.gate, self.broadcast.queue_of(self.id)) == state_after(
            GateState::Seeking,
            self.produced,
        )
    }

    /// The invariant holds when the consumer attaches.
    pub proof fn lemma_attach_inv(b: BroadcastView)
        requires
            b.wf(),
        ensures
            Attachment::attach(b).inv(),
    {
        lemma_register(b, b.issued + 1);
    }

    /// Every allowed step keeps the invariant.
    pub proof fn lemma_step_inv(self, step: Step)
        requires
            self.inv(),
            self.allows(step),
        ensures
            self.step(step).inv(),
            self.step(step).id == self.id,
    {
        let after = self.step(step);
        let queue = self.broadcast.queue_of(self.id);
        match step {
            Step::Register => {
                lemma_register(self.broadcast, self.id);
            },
            Step::Detach(id) => {
                law_detach_leaves_others(self.broadcast, id, self.id);
            },
            Step::Deliver(event) => {
                if !self.broadcast.closed && sample_of(event).is_some() {
                    let sample = sample_of(event).unwrap();
                    lemma_distribute(self.broadcast, sample, self.id);
                    lemma_passed_concat(self.gate, queue, seq![sample]);
                    lemma_passed_concat(GateState::Seeking, self.produced, seq![sample]);
                    assert(queue.push(sample) =~= queue + seq![sample]);
                    assert(self.produced.push(sample) =~= self.produced + seq![sample]);
                    assert(after.delivered() =~= passed(GateState::Seeking, after.produced));
                }
            },
            Step::Take(id, gate) => {
                lemma_take(self.broadcast, id, gate, self.id);
            },
            Step::Next => {
                lemma_take(self.broadcast, self.id, self.gate, self.id);
                lemma_first_sync(queue);
                let skip = discarded(self.gate, queue);
                if skip < queue.len() {
                    assert(after.delivered() =~= self.delivered());
                }
            },
        }
    }
}

/// Whatever else happens to a broadcast, a consumer that stays attached gets
/// a gap-free suffix, in order, of what the port produces after it attached,
/// and that suffix starts at the first sync point.
///
/// The consumer attaches to any well-formed broadcast `b`. Then any steps
/// follow: samples arrive, the port ends, other consumers register, take
/// their samples and detach, and the consumer itself asks for its next sample
/// at any moment. After them, what the consumer has received, followed by what
/// its gate lets through of its queue, is the produced sequence from its
/// first sync point on; what it has received is the beginning of that.
pub proof fn law_consumer_gets_gated_suffix(b: BroadcastView, steps: Seq<Step>)
    requires
        b.wf(),
        forall|i: int| 0 <= i < steps.len() ==> Attachment::attach(b).allows(#[trigger] steps[i]),
    ensures
        ({
            let end = Attachment::attach(b).run(steps);
            &&& end.inv()
            &&& end.id == b.issued + 1
            &&& end.broadcast.registered(end.id)
            &&& end.delivered() == end.produced.skip(first_sync(end.produced))
            &&& 0 <= first_sync(end.produced) <= end.produced.len()
            &&& end.delivered().len() > 0 ==> end.delivered()[0].is_sync_point()
            &&& end.received == end.delivered().take(end.received.len() as int)
        }),
    decreases steps.len(),
{
    let start = Attachment::attach(b);
    if steps.len() == 0 {
        Attachment::lemma_attach_inv(b);
    } else {
        let init = steps.drop_last();
        assert forall|i: int| 0 <= i < init.len() implies Attachment::attach(b).allows(#[trigger] init[i]) by {}
        law_consumer_gets_gated_suffix(b, init);
        let before = start.run(init);
        let last = steps.last();
        before.lemma_step_inv(last);
    }
    let end = start.run(steps);
    lemma_first_sync(end.produced);
}

/// Two consumers of one broadcast end with the same samples: once the later
/// one's gate has opened, what it gets is a suffix of what
/// the earlier one gets.
///
/// `earlier` is what the port produced between the two attachments, `later`
/// what it produced after the second.
pub proof fn law_later_consumer_gets_suffix(earlier: Seq<SharedSample>, later: Seq<SharedSample>)
    requires
        passed(GateState::Seeking, later).len() > 0,
    ensures
        ({
            let first = passed(GateState::Seeking, earlier + later);
            let second = passed(GateState::Seeking, later);
            &&& second.len() <= first.len()
            &&& second == first.skip(first.len() - second.len())
        }),
{
    lemma_passed_concat(GateState::Seeking, earlier, later);
    lemma_first_sync(earlier);
    lemma_first_sync(later);
}

#[derive(Debug)]
struct Slot {
    id: usize,
    queue: VecDeque<SharedSample>,
}

/// The fan-out point of one sample port.
#[derive(Debug)]
pub struct Broadcast {
    n: usize,
    consumers: Vec<Slot>,
    sink: Sink,
}

impl View for Broadcast {
    type V = BroadcastView;

    closed spec fn view(&self) -> BroadcastView {
        BroadcastView {
            issued: self.n as nat,
            consumers: Seq::new(
                self.consumers.len() as nat,
                |i: int| QueueView { id: self.consumers[i].id as nat, queue: self.consumers[i].queue@ },
            ),
            closed: self.sink.ended(),
        }
    }
}

/// One reader's handle on a [`Broadcast`]: the id under which it registered
/// and its sync gate.
#[derive(Debug)]
pub struct Consumer {
    n: usize,
    sync: SyncGate,
}

impl Consumer {
    /// The id under which the consumer registered.
    pub closed spec fn id(&self) -> nat {
        self.n as nat
    }

    /// The state of the consumer's gate.
    pub closed spec fn gate(&self) -> GateState {
        self.sync@
    }
}

impl Broadcast {
    /// The invariant of a broadcast.
    pub open spec fn wf(&self) -> bool {
        self@.wf()
    }

    /// A broadcast of the samples that `sink` will yield, with no consumer.
    pub fn new(sink: Sink) -> (broadcast: Self)
        ensures
            broadcast.wf(),
            broadcast@ == (BroadcastView {
                issued: 0,
                consumers: Seq::empty(),
                closed: sink.ended(),
            }),
    {
        let broadcast = Broadcast { n: 0, consumers: Vec::new(), sink };
        proof {
            assert(broadcast@.consumers =~= Seq::empty());
        }
        broadcast
    }

    /// Whether every id has been handed out, so that no consumer can
    /// register any more.
    pub fn is_full(&self) -> (full: bool)
        ensures
            full == (self@.issued >= usize::MAX),
            self@.issued <= usize::MAX,
    {
        self.n == usize::MAX
    }

    /// Whether the port has ended.
    pub fn is_closed(&self) -> (closed: bool)
        ensures
            closed == self@.closed,
    {
        self.sink.is_ended()
    }

    /// The number of registered consumers.
    pub fn consumers(&self) -> (count: usize)
        ensures
            count == self@.consumers.len(),
    {
        self.consumers.len()
    }

    /// Registers a new consumer. It will get every sample distributed from
    /// now on, and its gate has seen nothing yet.
    pub fn consumer(&mut self) -> (consumer: Consumer)
        requires
            old(self).wf(),
            old(self)@.issued < usize::MAX,
        ensures
            final(self).wf(),
            final(self)@ == old(self)@.register(),
            consumer.id() == old(self)@.issued + 1,
            consumer.gate() == GateState::Seeking,
    {
        self.n += 1;
        self.consumers.push(Slot { id: self.n, queue: VecDeque::new() });
        proof {
            assert(self@.consumers =~= old(self)@.register().consumers);
        }
        Consumer { n: self.n, sync: SyncGate::new() }
    }

    /// One turn of the distributor: takes the next event of the port and
    /// hands its sample to every registered consumer, or closes the
    /// broadcast where the event ends the port. The result says whether the
    /// distributor is to go on pulling.
    pub fn run_distributer(&mut self, event: SinkEvent) -> (running: bool)
        requires
            old(self).wf(),
        ensures
            final(self).wf(),
            final(self)@ == old(self)@.deliver(event),
            running == !final(self)@.closed,
    {
        match self.sink.next(event) {
            Some(sample) => {
                let ghost open_sink = self.sink;
                let mut i: usize = 0;
                while i < self.consumers.len()
                    invariant
                        i <= self.consumers.len(),
                        self.consumers.len() == old(self).consumers.len(),
                        self.n == old(self).n,
                        self.sink == open_sink,
                        forall|j: int|
                            0 <= j < self.consumers.len() ==> (#[trigger] self.consumers[j]).id == old(
                                self,
                            ).consumers[j].id,
                        forall|j: int|
                            0 <= j < i ==> (#[trigger] self.consumers[j]).queue@ == old(
                                self,
                            ).consumers[j].queue@.push(sample),
                        forall|j: int|
                            i <= j < self.consumers.len() ==> (#[trigger] self.consumers[j]).queue@ == old(
                                self,
                            ).consumers[j].queue@,
                    decreases self.consumers.len() - i,
                {
                    let shared = share(&sample);
                    self.consumers[i].queue.push_back(shared);
                    i = i + 1;
                }
                proof {
                    assert(self@.consumers =~= old(self)@.distribute(sample).consumers);
                }
                true
            },
            None => {
                proof {
                    assert(self@.consumers =~= old(self)@.consumers);
                }
                false
            },
        }
    }

    fn find(&self, id: usize) -> (found: Option<usize>)
        requires
            self.wf(),
        ensures
            match found {
                Some(i) => i < self.consumers.len() && self.consumers[i as int].id == id
                    && self@.registered(id as nat) && self@.position(id as nat) == i,
                None => !self@.registered(id as nat),
            },
    {
        let mut i: usize = 0;
        while i < self.consumers.len()
            invariant
                self.wf(),
                i <= self.consumers.len(),
                forall|j: int| 0 <= j < i ==> (#[trigger] self.consumers[j]).id != id,
            decreases self.consumers.len() - i,
        {
            if self.consumers[i].id == id {
                proof {
                    assert(self@.consumers[i as int].id == id as nat);
                }
                return Some(i);
            }
            i = i + 1;
        }
        proof {
            assert forall|j: int| 0 <= j < self@.consumers.len() implies (#[trigger] self@.consumers[j]).id
                != id as nat by {}
        }
        None
    }

    /// Takes the consumer registered under `id` out of the broadcast, with
    /// what its queue still holds. Without such a consumer nothing changes.
    pub fn deregister(&mut self, id: usize)
        requires
            old(self).wf(),
        ensures
            final(self).wf(),
            final(self)@ == old(self)@.deregister(id as nat),
    {
        match self.find(id) {
            Some(i) => {
                self.consumers.remove(i);
                proof {
                    assert(self@.consumers =~= old(self)@.consumers.remove(i as int));
                }
            },
            None => {},
        }
    }
}

impl Consumer {
    /// The id under which the consumer registered.
    pub fn number(&self) -> (id: usize)
        ensures
            id == self.id(),
    {
        self.n
    }

    /// Whether the consumer's gate lets samples through.
    pub fn in_sync(&self) -> (sync: bool)
        ensures
            sync == (self.gate() == GateState::Passing),
    {
        match self.sync.state() {
            GateState::Passing => true,
            GateState::Seeking => false,
        }
    }

    /// Asks for the consumer's next sample, without waiting.
    ///
    /// Samples at the head of the consumer's queue that its gate does not let
    /// through are discarded. The first one that passes is taken from the
    /// queue and returned. Where none passes, the result is `Pending` while
    /// the port is open and `Closed` once it has ended. A consumer that is
    /// not registered with `broadcast` gets `Closed`.
    pub fn next(&mut self, broadcast: &mut Broadcast) -> (next: Next)
        requires
            old(broadcast).wf(),
        ensures
            final(broadcast).wf(),
            final(self).id() == old(self).id(),
            (final(broadcast)@, final(self).gate(), next) == old(broadcast)@.take(
                old(self).id(),
                old(self).gate(),
            ),
    {
        let i = match broadcast.find(self.n) {
            Some(i) => i,
            None => {
                return Next::Closed;
            },
        };
        let ghost before = broadcast@;
        let ghost queue = broadcast.consumers[i as int].queue@;
        let ghost gate = self.sync@;
        let ghost mut k: int = 0;
        loop
            invariant
                i < broadcast.consumers.len(),
                broadcast.consumers.len() == old(broadcast).consumers.len(),
                broadcast.n == old(broadcast).n,
                broadcast.sink == old(broadcast).sink,
                forall|j: int|
                    0 <= j < broadcast.consumers.len() ==> (#[trigger] broadcast.consumers[j]).id == old(
                        broadcast,
                    ).consumers[j].id,
                forall|j: int|
                    0 <= j < broadcast.consumers.len() && j != i ==> (#[trigger] broadcast.consumers[j]).queue@
                        == old(broadcast).consumers[j].queue@,
                before == old(broadcast)@,
                before.wf(),
                before.registered(self.n as nat),
                before.position(self.n as nat) == i,
                queue == old(broadcast).consumers[i as int].queue@,
                self.n == old(self).n,
                gate == old(self).sync@,
                self.sync@ == gate,
                0 <= k <= queue.len(),
                broadcast.consumers[i as int].queue@ == queue.skip(k),
                k > 0 ==> gate == GateState::Seeking,
                forall|j: int| 0 <= j < k ==> !(#[trigger] queue[j]).is_sync_point(),
            decreases queue.len() - k,
        {
            match broadcast.consumers[i].queue.pop_front() {
                None => {
                    proof {
                        if gate == GateState::Seeking {
                            lemma_first_sync_unique(queue, k);
                        }
                        assert(queue.skip(k) =~= Seq::empty());
                        assert(broadcast@.consumers =~= before.with_queue(
                            self.n as nat,
                            Seq::empty(),
                        ).consumers);
                    }
                    return if broadcast.sink.is_ended() {
                        Next::Closed
                    } else {
                        Next::Pending
                    };
                },
                Some(sample) => {
                    if self.sync.offer(&sample) {
                        proof {
                            if gate == GateState::Seeking {
                                lemma_first_sync_unique(queue, k);
                            }
                            assert(queue.skip(k).subrange(1, queue.skip(k).len() as int) =~= queue.skip(
                                k + 1,
                            ));
                            assert(broadcast@.consumers =~= before.with_queue(
                                self.n as nat,
                                queue.skip(k + 1),
                            ).consumers);
                        }
                        return Next::Sample(sample);
                    }
                    proof {
                        k = k + 1;
                    }
                },
            }
        }
    }

    /// Detaches the consumer: it leaves the broadcast, and what its queue
    /// still holds is dropped. No other consumer is touched.
    pub fn detach(self, broadcast: &mut Broadcast)
        requires
            old(broadcast).wf(),
        ensures
            final(broadcast).wf(),
            final(broadcast)@ == old(broadcast)@.deregister(self.id()),
    {
        broadcast.deregister(self.n);
    }
}

} // verus!
