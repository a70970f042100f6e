//! The ingest port of the engine, seen from the relay.
//!
//! A [`Source`] decides what is pushed into the engine and when the end of
//! the input is signalled. The driver performs the pushes and the reads and
//! reports what came of them.

use vstd::prelude::*;
use vstd::slice::slice_to_vec;
use crate::chunk_reader::{
    law_chunks_keep_the_bytes, ChunkAction, ChunkActionView, ChunkReader, ChunkReaderView, ReadEvent,
    ReadEventView,
};

verus! {

/// The size of the chunks in which an upload is pushed into the engine.
pub const CHUNK_SIZE: usize = 8192;

/// The flow code with which the engine accepts a buffer.
pub const FLOW_OK: i32 = 0;

/// The source was used after the end of its input had been signalled.
#[derive(Clone, Copy, Debug, PartialEq, Eq, Structural)]
pub enum SourceError {
    Ended,
}

/// One buffer to be pushed into the engine.
#[derive(Debug)]
pub struct Push {
    /// The buffers in use have another size: a pool of buffers of the size
    /// of `data` is to be made first, and used from now on.
    pub fresh_pool: bool,
    /// The bytes of the buffer.
    pub data: Vec<u8>,
}

/// A `Push` with its bytes as a sequence.
pub struct PushView {
    pub fresh_pool: bool,
    pub data: Seq<u8>,
}

impl View for Push {
    type V = PushView;

    open spec fn view(&self) -> PushView {
        PushView { fresh_pool: self.fresh_pool, data: self.data@ }
    }
}

/// What the driver of an upload reports to the source.
#[derive(Debug)]
pub enum PumpEvent {
    /// The upload begins.
    Begin,
    /// A read of the upload returned these bytes.
    Data(Vec<u8>),
    /// A read found the end of the upload.
    End,
    /// A read failed: the uploader is gone.
    Failed,
    /// The engine answered the last push with this flow code.
    Pushed(i32),
}

/// What the source asks of the driver of an upload.
#[derive(Debug)]
pub enum PumpAction {
    /// Read at most this many bytes of the upload and report them.
    Read(usize),
    /// Push this buffer into the engine and report the flow code.
    Push(Push),
    /// Signal the end of the input to the engine. The upload is over.
    Finish,
    /// Nothing: the end of the input was signalled before.
    Closed,
}

/// A `PumpEvent` with its bytes as a sequence.
pub enum PumpEventView {
    Begin,
    Data(Seq<u8>),
    End,
    Failed,
    Pushed(i32),
}

/// A `PumpAction` with its bytes as a sequence.
pub enum PumpActionView {
    Read(nat),
    Push(PushView),
    Finish,
    Closed,
}

impl View for PumpEvent {
    type V = PumpEventView;

    open spec fn view(&self) -> PumpEventView {
        match *self {
            PumpEvent::Begin => PumpEventView::Begin,
            PumpEvent::Data(bytes) => PumpEventView::Data(bytes@),
            PumpEvent::End => PumpEventView::End,
            PumpEvent::Failed => PumpEventView::Failed,
            PumpEvent::Pushed(flow) => PumpEventView::Pushed(flow),
        }
    }
}

impl View for PumpAction {
    type V = PumpActionView;

    open spec fn view(&self) -> PumpActionView {
        match *self {
            PumpAction::Read(n) => PumpActionView::Read(n as nat),
            PumpAction::Push(push) => PumpActionView::Push(push@),
            PumpAction::Finish => PumpActionView::Finish,
            PumpAction::Closed => PumpActionView::Closed,
        }
    }
}

/// A source as a mathematical value.
pub struct SourceView {
    /// The size of the buffers of the pool in use, if a pool has been made.
    pub pool: Option<nat>,
    /// The end of the input has been signalled.
    pub ended: bool,
    /// The reader that cuts the upload into chunks.
    pub reader: ChunkReaderView,
}

impl SourceView {
    /// The invariant of a source: that of its reader.
    pub open spec fn wf(self) -> bool {
        self.reader.wf()
    }

    /// A source that has pushed nothing: no pool, the input open, and a
    /// reader of chunks of `CHUNK_SIZE` bytes that has gathered nothing.
    pub open spec fn fresh() -> SourceView {
        SourceView {
            pool: None,
            ended: false,
            reader: ChunkReaderView { chunk_size: CHUNK_SIZE as nat, gathered: Seq::empty() },
        }
    }

    /// A buffer of `size` bytes is needed. The pool in use serves if its
    /// buffers have that size; otherwise a fresh pool replaces it. The second
    /// part of the result says whether a fresh pool is made.
    pub open spec fn need_pool(self, size: nat) -> (SourceView, bool) {
        (SourceView { pool: Some(size), ..self }, self.pool != Some(size))
    }

    /// `data` is to be pushed: as one buffer of its size, unless the end of
    /// the input has been signalled.
    pub open spec fn write(self, data: Seq<u8>) -> (SourceView, Result<PushView, SourceError>) {
        if self.ended {
            (self, Err(SourceError::Ended))
        } else {
            let (after, fresh_pool) = self.need_pool(data.len());
            (after, Ok(PushView { fresh_pool, data }))
        }
    }

    /// The end of the input is to be signalled: once, and never again.
    pub open spec fn end(self) -> (SourceView, Result<(), SourceError>) {
        if self.ended {
            (self, Err(SourceError::Ended))
        } else {
            (SourceView { ended: true, ..self }, Ok(()))
        }
    }

    /// What follows from an action of the chunk reader: a read is passed on,
    /// a chunk is pushed, and the end of the chunks ends the input.
    pub open spec fn follow(self, reader: ChunkReaderView, action: ChunkActionView) -> (
        SourceView,
        PumpActionView,
    ) {
        let source = SourceView { reader, ..self };
        match action {
            ChunkActionView::Read(n) => (source, PumpActionView::Read(n)),
            ChunkActionView::Emit(Some(chunk)) => (
                source.need_pool(chunk.len()).0,
                PumpActionView::Push(
                    PushView { fresh_pool: source.need_pool(chunk.len()).1, data: chunk },
                ),
            ),
            ChunkActionView::Emit(None) => (
                SourceView { ended: true, ..source },
                PumpActionView::Finish,
            ),
        }
    }

    /// One step of an upload. What is read goes to the chunk reader, and each
    /// chunk it hands out is pushed. An accepted push is followed by the next
    /// chunk. A refused push, like the end of the chunks, ends the input. Once
    /// the end has been signalled nothing is done any more.
    pub open spec fn read_from(self, event: PumpEventView) -> (SourceView, PumpActionView) {
        if self.ended {
            (self, PumpActionView::Closed)
        } else {
            match event {
                PumpEventView::Begin => {
                    let (reader, action) = self.reader.step(ReadEventView::Begin);
                    self.follow(reader, action)
                },
                PumpEventView::Data(bytes) => {
                    let (reader, action) = self.reader.step(ReadEventView::Data(bytes));
                    self.follow(reader, action)
                },
                PumpEventView::End => {
                    let (reader, action) = self.reader.step(ReadEventView::End);
                    self.follow(reader, action)
                },
                PumpEventView::Failed => {
                    let (reader, action) = self.reader.step(ReadEventView::Failed);
                    self.follow(reader, action)
                },
                PumpEventView::Pushed(flow) => {
                    if flow == FLOW_OK {
                        let (reader, action) = self.reader.step(ReadEventView::Begin);
                        self.follow(reader, action)
                    } else {
                        (SourceView { ended: true, ..self }, PumpActionView::Finish)
                    }
                },
            }
        }
    }
}

/// The end of the input is signalled exactly once. The first `end` is
/// accepted; a second one is refused and changes nothing, as is every write
/// after the first, and an upload that goes on is told that the source is
/// closed.
pub proof fn law_end_only_once(source: SourceView, data: Seq<u8>, event: PumpEventView)
    requires
        !source.ended,
    ensures
        source.end().1 == Ok::<(), SourceError>(()),
        source.end().0.ended,
        source.end().0.end() == (source.end().0, Err::<(), SourceError>(SourceError::Ended)),
        source.end().0.write(data) == (
            source.end().0,
            Err::<PushView, SourceError>(SourceError::Ended),
        ),
        source.end().0.read_from(event) == (source.end().0, PumpActionView::Closed),
{
}

/// An upload signals the end of its input at most once: `Finish` is asked
/// for only by the step that ends the source, and a source that has ended
/// never asks for anything again.
pub proof fn law_upload_finishes_once(source: SourceView, event: PumpEventView)
    requires
        source.wf(),
    ensures
        source.read_from(event).0.wf(),
        source.read_from(event).1 == PumpActionView::Finish <==> !source.ended && source.read_from(
            event,
        ).0.ended,
        source.ended ==> source.read_from(event) == (source, PumpActionView::Closed),
{
}

/// The bytes that an action pushes into the engine.
pub open spec fn pushed(action: PumpActionView) -> Seq<u8> {
    match action {
        PumpActionView::Push(push) => push.data,
        _ => Seq::empty(),
    }
}

/// The bytes that an event brings from the upload.
pub open spec fn brought(event: PumpEventView) -> ReadEventView {
    match event {
        PumpEventView::Data(bytes) => ReadEventView::Data(bytes),
        PumpEventView::End => ReadEventView::End,
        PumpEventView::Failed => ReadEventView::Failed,
        _ => ReadEventView::Begin,
    }
}

/// An upload passes on what it reads, byte for byte: after every step, what
/// has been pushed and what is still held for the next chunk are, in this
/// order, what was held before and what the event brought. A buffer that is
/// pushed is never empty and never longer than a chunk.
pub proof fn law_upload_keeps_the_bytes(source: SourceView, event: PumpEventView)
    requires
        source.wf(),
    ensures
        ({
            let (after, action) = source.read_from(event);
            &&& after.wf()
            &&& pushed(action) + after.reader.gathered == source.reader.gathered + if source.ended {
                Seq::<u8>::empty()
            } else {
                source.reader.taken(brought(event))
            }
            &&& action matches PumpActionView::Push(push) ==> 0 < push.data.len()
                <= source.reader.chunk_size
            &&& action matches PumpActionView::Push(push) ==> push.fresh_pool == (source.pool != Some(
                push.data.len(),
            ))
        }),
{
    let (after, action) = source.read_from(event);
    if !source.ended {
        law_chunks_keep_the_bytes(source.reader, brought(event));
    }
    assert(pushed(action) + after.reader.gathered =~= source.reader.gathered + if source.ended {
        Seq::<u8>::empty()
    } else {
        source.reader.taken(brought(event))
    });
}

/// The ingest port of one upload.
#[derive(Debug)]
pub struct Source {
    pool: Option<usize>,
    ended: bool,
    reader: ChunkReader,
}

impl View for Source {
    type V = SourceView;

    closed spec fn view(&self) -> SourceView {
        SourceView {
            pool: match self.pool {
                Some(size) => Some(size as nat),
                None => None,
            },
            ended: self.ended,
            reader: self.reader@,
        }
    }
}

impl Source {
    /// The invariant of a source.
    pub open spec fn wf(&self) -> bool {
        self@.wf()
    }

    /// A source that has pushed nothing: no pool, the input open, and a
    /// reader of chunks of `CHUNK_SIZE` bytes.
    pub fn new() -> (source: Self)
        ensures
            source.wf(),
            source@ == SourceView::fresh(),
    {
        Source { pool: None, ended: false, reader: ChunkReader::new(CHUNK_SIZE) }
    }

    /// Whether the end of the input has been signalled.
    pub fn is_ended(&self) -> (ended: bool)
        ensures
            ended == self@.ended,
    {
        self.ended
    }

    /// Makes sure that the pool in use has buffers of `size` bytes. The
    /// result says whether a fresh pool is to be made for that.
    pub fn need_pool(&mut self, size: usize) -> (fresh: bool)
        ensures
            (final(self)@, fresh) == old(self)@.need_pool(size as nat),
    {
        let fresh = match self.pool {
            Some(actual_size) => size != actual_size,
            None => true,
        };
        self.pool = Some(size);
        fresh
    }

    /// Prepares the push of `data` as one buffer. It is refused once the end
    /// of the input has been signalled.
    pub fn write(&mut self, data: &[u8]) -> (push: Result<Push, SourceError>)
        ensures
            final(self)@ == old(self)@.write(data@).0,
            match push {
                Ok(push) => old(self)@.write(data@).1 == Ok::<PushView, SourceError>(push@),
                Err(e) => old(self)@.write(data@).1 == Err::<PushView, SourceError>(e),
            },
    {
        if self.ended {
            return Err(SourceError::Ended);
        }
        let fresh_pool = self.need_pool(data.len());
        Ok(Push { fresh_pool, data: slice_to_vec(data) })
    }

    /// Whether the engine accepted a push that it answered with `flow`.
    pub fn accepted(flow: i32) -> (accepted: bool)
        ensures
            accepted == (flow == FLOW_OK),
    {
        flow == FLOW_OK
    }

    /// Marks the end of the input; the driver then signals it to the engine.
    /// A second call is refused.
    pub fn end(&mut self) -> (result: Result<(), SourceError>)
        ensures
            (final(self)@, result) == old(self)@.end(),
    {
        if self.ended {
            Err(SourceError::Ended)
        } else {
            self.ended = true;
            Ok(())
        }
    }

    fn follow(&mut self, action: ChunkAction) -> (next: PumpAction)
        requires
            !old(self).ended,
        ensures
            (final(self)@, next@) == old(self)@.follow(old(self)@.reader, action@),
    {
        match action {
            ChunkAction::Read(n) => PumpAction::Read(n),
            ChunkAction::Emit(Some(chunk)) => {
                let fresh_pool = self.need_pool(chunk.len());
                PumpAction::Push(Push { fresh_pool, data: chunk })
            },
            ChunkAction::Emit(None) => {
                self.ended = true;
                PumpAction::Finish
            },
        }
    }

    /// One step of an upload: takes what the driver reports and says what it
    /// is to do next.
    pub fn read_from(&mut self, event: PumpEvent) -> (next: PumpAction)
        requires
            old(self).wf(),
        ensures
            final(self).wf(),
            (final(self)@, next@) == old(self)@.read_from(event@),
    {
        if self.ended {
            return PumpAction::Closed;
        }
        let action = match event {
            PumpEvent::Begin => self.reader.read_chunk(ReadEvent::Begin),
            PumpEvent::Data(bytes) => self.reader.read_chunk(ReadEvent::Data(bytes)),
            PumpEvent::End => self.reader.read_chunk(ReadEvent::End),
            PumpEvent::Failed => self.reader.read_chunk(ReadEvent::Failed),
            PumpEvent::Pushed(flow) => {
                if Self::accepted(flow) {
                    self.reader.read_chunk(ReadEvent::Begin)
                } else {
                    self.ended = true;
                    return PumpAction::Finish;
                }
            },
        };
        self.follow(action)
    }
}

} // verus!
