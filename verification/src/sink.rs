//! A sample port of the engine, seen from the relay.

use vstd::prelude::*;
use crate::sample::SharedSample;

verus! {

/// What a pull from a sample port of the engine came back with.
#[derive(Debug)]
pub enum SinkEvent {
    /// The first sample of the port, produced before it started to play.
    NewPreroll(SharedSample),
    /// A sample.
    NewSample(SharedSample),
    /// The engine has no more samples for this port.
    Eos,
    /// The pull failed: the port is gone.
    Disconnected,
}

/// What the relay takes from an event of an open port: the sample of a
/// preroll or of a sample event, nothing of the two events that end it.
pub open spec fn sample_of(event: SinkEvent) -> Option<SharedSample> {
    match event {
        SinkEvent::NewPreroll(sample) => Some(sample),
        SinkEvent::NewSample(sample) => Some(sample),
        SinkEvent::Eos => None,
        SinkEvent::Disconnected => None,
    }
}

/// A sample port. It is open until an event ends it, and over from then on.
#[derive(Debug)]
pub struct Sink {
    ended: bool,
}

impl Sink {
    /// Whether the port has ended.
    pub closed spec fn ended(&self) -> bool {
        self.ended
    }

    /// An open port.
    pub fn new() -> (sink: Self)
        ensures
            !sink.ended(),
    {
        Sink { ended: false }
    }

    /// Whether the port has ended.
    pub fn is_ended(&self) -> (ended: bool)
        ensures
            ended == self.ended(),
    {
        self.ended
    }

    /// Takes the next event of the port. An open port yields the sample of a
    /// preroll or sample event, and ends, yielding nothing, on end of stream
    /// and on a failed pull. A port that has ended yields nothing, whatever
    /// the event.
    pub fn next(&mut self, event: SinkEvent) -> (sample: Option<SharedSample>)
        ensures
            sample == if old(self).ended() {
                None
            } else {
                sample_of(event)
            },
            final(self).ended() == (old(self).ended() || sample_of(event).is_none()),
    {
        if self.ended {
            return None;
        }
        match event {
            SinkEvent::NewPreroll(sample) => Some(sample),
            SinkEvent::NewSample(sample) => Some(sample),
            SinkEvent::Eos => {
                self.ended = true;
                None
            },
            SinkEvent::Disconnected => {
                self.ended = true;
                None
            },
        }
    }
}

} // verus!
