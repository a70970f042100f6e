//! The shared graph of one stream, as far as the relay keeps book of it.
//!
//! The engine owns the graph. A [`Pipe`] records what the relay has put into
//! it and has not taken out again: per output format, whether the bin of the
//! format's branch is inside the graph, and whether the branch is linked to
//! the point at which the format is handed out. It also follows the messages
//! of the engine's bus to know whether the graph still runs.

use vstd::prelude::*;
use crate::format::{Format, FormatSet};

verus! {

/// A message of the engine's bus, by its kind.
#[derive(Clone, Copy, Debug, PartialEq, Eq, Structural)]
pub enum BusMessage {
    /// An element changed its state.
    StateChanged,
    /// An element reports an error from which the graph does not recover.
    Error,
    /// The graph has reached the end of its stream.
    Eos,
    /// Anything else.
    Other,
}

/// Whether the graph runs, and if not, how it ended.
#[derive(Clone, Copy, Debug, PartialEq, Eq, Structural)]
pub enum PipeState {
    Playing,
    /// The graph reached the end of its stream.
    Finished,
    /// The engine reported an error.
    Failed,
}

/// A pipe as a mathematical value.
pub struct PipeView {
    pub state: PipeState,
    /// The formats whose branch has its bin inside the graph.
    pub bins: Set<Format>,
    /// The formats whose branch is linked to the point that hands out the
    /// format.
    pub links: Set<Format>,
}

impl PipeView {
    /// A graph that has just been launched.
    pub open spec fn launched() -> PipeView {
        PipeView { state: PipeState::Playing, bins: Set::empty(), links: Set::empty() }
    }

    /// Whether anything of the branch of `format` is in the graph.
    pub open spec fn holds(self, format: Format) -> bool {
        self.bins.contains(format) || self.links.contains(format)
    }

    /// The pipe after a message of the bus. An error and the end of the
    /// stream end a playing graph; nothing else changes anything.
    pub open spec fn watch(self, message: BusMessage) -> PipeView {
        match (self.state, message) {
            (PipeState::Playing, BusMessage::Error) => PipeView { state: PipeState::Failed, ..self },
            (PipeState::Playing, BusMessage::Eos) => PipeView { state: PipeState::Finished, ..self },
            _ => self,
        }
    }

    /// The pipe after the engine was asked to add the bin of `format`.
    pub open spec fn add(self, format: Format, accepted: bool) -> PipeView {
        if accepted {
            PipeView { bins: self.bins.insert(format), ..self }
        } else {
            self
        }
    }

    /// The pipe after the bin of `format` was removed.
    pub open spec fn remove(self, format: Format) -> PipeView {
        PipeView { bins: self.bins.remove(format), ..self }
    }

    /// The pipe after the engine was asked to link the branch of `format`.
    pub open spec fn link(self, format: Format, linked: bool) -> PipeView {
        if linked {
            PipeView { links: self.links.insert(format), ..self }
        } else {
            self
        }
    }

    /// The pipe after the branch of `format` was unlinked.
    pub open spec fn unlink(self, format: Format) -> PipeView {
        PipeView { links: self.links.remove(format), ..self }
    }

    /// The pipe with nothing of the branch of `format` in it.
    pub open spec fn without(self, format: Format) -> PipeView {
        self.unlink(format).remove(format)
    }
}

/// The relay's book of the shared graph of one stream.
#[derive(Debug)]
pub struct Pipe {
    state: PipeState,
    bins: FormatSet,
    links: FormatSet,
}

impl View for Pipe {
    type V = PipeView;

    closed spec fn view(&self) -> PipeView {
        PipeView { state: self.state, bins: self.bins@, links: self.links@ }
    }
}

impl Pipe {
    /// The book of a graph that the driver has asked the engine to launch.
    /// There is none if the engine could not launch it.
    pub fn new(launched: bool) -> (pipe: Option<Self>)
        ensures
            launched ==> pipe.is_some() && pipe.unwrap()@ == PipeView::launched(),
            !launched ==> pipe.is_none(),
    {
        if launched {
            Some(Pipe { state: PipeState::Playing, bins: FormatSet::new(), links: FormatSet::new() })
        } else {
            None
        }
    }

    /// Whether the graph runs, and if not, how it ended.
    pub fn state(&self) -> (state: PipeState)
        ensures
            state == self@.state,
    {
        self.state
    }

    /// Whether the bin of the branch of `format` is inside the graph.
    pub fn has_bin(&self, format: Format) -> (found: bool)
        ensures
            found == self@.bins.contains(format),
    {
        self.bins.contains(format)
    }

    /// Whether the branch of `format` is linked into the graph.
    pub fn is_linked(&self, format: Format) -> (linked: bool)
        ensures
            linked == self@.links.contains(format),
    {
        self.links.contains(format)
    }

    /// Takes a message of the bus. The result says whether the bus is to be
    /// watched further: it is until the graph has ended.
    pub fn watch(&mut self, message: BusMessage) -> (watching: bool)
        ensures
            final(self)@ == old(self)@.watch(message),
            watching == (final(self)@.state == PipeState::Playing),
    {
        match self.state {
            PipeState::Playing => match message {
                BusMessage::Error => {
                    self.state = PipeState::Failed;
                    false
                },
                BusMessage::Eos => {
                    self.state = PipeState::Finished;
                    false
                },
                _ => true,
            },
            _ => false,
        }
    }

    /// Records what came of adding the bin of the branch of `format` to the
    /// graph: the bin is inside if the engine accepted it.
    pub fn add(&mut self, format: Format, accepted: bool) -> (result: Result<(), &'static str>)
        ensures
            final(self)@ == old(self)@.add(format, accepted),
            accepted ==> result.is_ok(),
            !accepted ==> result.is_err() && result.unwrap_err()@ == "Cannot add element to pipeline"@,
    {
        if accepted {
            self.bins.insert(format);
            Ok(())
        } else {
            Err("Cannot add element to pipeline")
        }
    }

    /// Records that the bin of the branch of `format` was removed from the
    /// graph.
    pub fn remove(&mut self, format: Format)
        ensures
            final(self)@ == old(self)@.remove(format),
    {
        self.bins.remove(format);
    }

    /// Records what came of linking the branch of `format` to the point that
    /// hands out the format, and returns it.
    pub fn link(&mut self, format: Format, linked: bool) -> (result: bool)
        ensures
            final(self)@ == old(self)@.link(format, linked),
            result == linked,
    {
        if linked {
            self.links.insert(format);
        }
        linked
    }

    /// Records that the branch of `format` was unlinked.
    pub fn unlink(&mut self, format: Format)
        ensures
            final(self)@ == old(self)@.unlink(format),
    {
        self.links.remove(format);
    }
}

} // verus!
