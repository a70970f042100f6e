//! Cutting a byte stream into chunks of a fixed size.
//!
//! The reader does not read. It is told what each read came back with and
//! says what is to be done next: read again, or hand out a chunk.

use vstd::prelude::*;

verus! {

/// What the driver reports to the reader.
#[derive(Debug)]
pub enum ReadEvent {
    /// A new chunk is wanted; nothing has been read for it yet.
    Begin,
    /// A read returned these bytes. No bytes at all mean the end of the
    /// input.
    Data(Vec<u8>),
    /// A read found the end of the input.
    End,
    /// A read failed.
    Failed,
}

/// What the reader asks of the driver.
#[derive(Debug)]
pub enum ChunkAction {
    /// Read at most this many bytes and report them.
    Read(usize),
    /// The chunk is complete: here it is. `None` means that the input gave
    /// nothing more, and the sequence of chunks is over.
    Emit(Option<Vec<u8>>),
}

/// A `ReadEvent` with its bytes as a sequence.
pub enum ReadEventView {
    Begin,
    Data(Seq<u8>),
    End,
    Failed,
}

/// A `ChunkAction` with its bytes as a sequence.
pub enum ChunkActionView {
    Read(nat),
    Emit(Option<Seq<u8>>),
}

impl View for ReadEvent {
    type V = ReadEventView;

    open spec fn view(&self) -> ReadEventView {
        match *self {
            ReadEvent::Begin => ReadEventView::Begin,
            ReadEvent::Data(bytes) => ReadEventView::Data(bytes@),
            ReadEvent::End => ReadEventView::End,
            ReadEvent::Failed => ReadEventView::Failed,
        }
    }
}

impl View for ChunkAction {
    type V = ChunkActionView;

    open spec fn view(&self) -> ChunkActionView {
        match *self {
            ChunkAction::Read(n) => ChunkActionView::Read(n as nat),
            ChunkAction::Emit(Some(chunk)) => ChunkActionView::Emit(Some(chunk@)),
            ChunkAction::Emit(None) => ChunkActionView::Emit(None),
        }
    }
}

/// A chunk reader as a mathematical value: the size of a full chunk and the
/// bytes gathered for the chunk in the making.
pub struct ChunkReaderView {
    pub chunk_size: nat,
    pub gathered: Seq<u8>,
}

impl ChunkReaderView {
    /// The chunk in the making is never longer than a full chunk.
    pub open spec fn wf(self) -> bool {
        self.gathered.len() <= self.chunk_size
    }

    /// How many bytes the chunk in the making still lacks.
    pub open spec fn room(self) -> nat {
        (self.chunk_size - self.gathered.len()) as nat
    }

    /// The reader with the bytes of a read added to the chunk in the making.
    /// Of more bytes than the chunk lacks, only those that fit are taken: a
    /// read was never given room for more.
    pub open spec fn gather(self, bytes: Seq<u8>) -> ChunkReaderView {
        let fitting = if bytes.len() <= self.room() {
            bytes
        } else {
            bytes.take(self.room() as int)
        };
        ChunkReaderView { gathered: self.gathered + fitting, ..self }
    }

    /// The chunk in the making is handed out, if it holds anything, and a
    /// new one is begun.
    pub open spec fn emit(self) -> (ChunkReaderView, ChunkActionView) {
        (
            ChunkReaderView { gathered: Seq::empty(), ..self },
            ChunkActionView::Emit(
                if self.gathered.len() > 0 {
                    Some(self.gathered)
                } else {
                    None
                },
            ),
        )
    }

    /// While the chunk in the making lacks bytes, another read is asked for;
    /// once it is full, it is handed out.
    pub open spec fn proceed(self) -> (ChunkReaderView, ChunkActionView) {
        if self.gathered.len() < self.chunk_size {
            (self, ChunkActionView::Read(self.room()))
        } else {
            self.emit()
        }
    }

    /// The reader after an event, and what it asks for. Bytes are gathered
    /// until the chunk is full. The end of the input and a failed read
    /// complete the chunk with what has been gathered.
    pub open spec fn step(self, event: ReadEventView) -> (ChunkReaderView, ChunkActionView) {
        match event {
            ReadEventView::Begin => self.proceed(),
            ReadEventView::Data(bytes) => if bytes.len() == 0 {
                self.emit()
            } else {
                self.gather(bytes).proceed()
            },
            ReadEventView::End => self.emit(),
            ReadEventView::Failed => self.emit(),
        }
    }

    /// The bytes an action hands out.
    pub open spec fn emitted(action: ChunkActionView) -> Seq<u8> {
        match action {
            ChunkActionView::Emit(Some(chunk)) => chunk,
            _ => Seq::empty(),
        }
    }

    /// The bytes an event brings, as far as the reader has room for them.
    pub open spec fn taken(self, event: ReadEventView) -> Seq<u8> {
        match event {
            ReadEventView::Data(bytes) => if bytes.len() <= self.room() {
                bytes
            } else {
                bytes.take(self.room() as int)
            },
            _ => Seq::empty(),
        }
    }
}

/// No byte is lost, made up or moved: after every step, what the reader has
/// handed out and what it still holds are, in this order, what it held
/// before and what the event brought. A chunk that is handed out is not
/// empty and not longer than a full chunk, and it is shorter only where the
/// input ended or a read failed.
pub proof fn law_chunks_keep_the_bytes(reader: ChunkReaderView, event: ReadEventView)
    requires
        reader.wf(),
    ensures
        ({
            let (after, action) = reader.step(event);
            &&& after.wf()
            &&& after.chunk_size == reader.chunk_size
            &&& ChunkReaderView::emitted(action) + after.gathered == reader.gathered + reader.taken(
                event,
            )
            &&& action matches ChunkActionView::Emit(Some(chunk)) ==> 0 < chunk.len()
                <= reader.chunk_size
            &&& action matches ChunkActionView::Emit(Some(chunk)) ==> chunk.len() == reader.chunk_size
                || event is End || event is Failed || (event matches ReadEventView::Data(bytes)
                && bytes.len() == 0)
            &&& action matches ChunkActionView::Read(n) ==> 0 < n && n == after.room()
        }),
{
    let (after, action) = reader.step(event);
}

/// Gathers the bytes of an input into chunks of a fixed size.
#[derive(Debug)]
pub struct ChunkReader {
    chunk_size: usize,
    buf: Vec<u8>,
}

impl View for ChunkReader {
    type V = ChunkReaderView;

    closed spec fn view(&self) -> ChunkReaderView {
        ChunkReaderView { chunk_size: self.chunk_size as nat, gathered: self.buf@ }
    }
}

impl ChunkReader {
    /// The invariant of a reader.
    pub open spec fn wf(&self) -> bool {
        self@.wf()
    }

    /// A reader of chunks of `chunk_size` bytes that has gathered nothing.
    pub fn new(chunk_size: usize) -> (reader: Self)
        ensures
            reader.wf(),
            reader@ == (ChunkReaderView { chunk_size: chunk_size as nat, gathered: Seq::empty() }),
    {
        ChunkReader { chunk_size, buf: Vec::new() }
    }

    fn emit(&mut self) -> (action: ChunkAction)
        requires
            old(self).wf(),
        ensures
            final(self).wf(),
            (final(self)@, action@) == old(self)@.emit(),
    {
        if self.buf.len() > 0 {
            let mut chunk: Vec<u8> = Vec::new();
            std::mem::swap(&mut chunk, &mut self.buf);
            ChunkAction::Emit(Some(chunk))
        } else {
            proof {
                assert(self.buf@ =~= Seq::<u8>::empty());
            }
            ChunkAction::Emit(None)
        }
    }

    fn proceed(&mut self) -> (action: ChunkAction)
        requires
            old(self).wf(),
        ensures
            final(self).wf(),
            (final(self)@, action@) == old(self)@.proceed(),
    {
        if self.buf.len() < self.chunk_size {
            ChunkAction::Read(self.chunk_size - self.buf.len())
        } else {
            self.emit()
        }
    }

    fn gather(&mut self, bytes: &Vec<u8>)
        requires
            old(self).wf(),
        ensures
            final(self).wf(),
            final(self)@ == old(self)@.gather(bytes@),
    {
        let room = self.chunk_size - self.buf.len();
        let count = if bytes.len() <= room {
            bytes.len()
        } else {
            room
        };
        let mut i: usize = 0;
        while i < count
            invariant
                i <= count <= bytes.len(),
                count <= room,
                room == old(self).chunk_size - old(self).buf.len(),
                self.chunk_size == old(self).chunk_size,
                self.buf@ == old(self).buf@ + bytes@.take(i as int),
            decreases count - i,
        {
            self.buf.push(bytes[i]);
            i = i + 1;
        }
        proof {
            assert(bytes@.take(bytes.len() as int) =~= bytes@);
        }
    }

    /// Takes one event and says what is to be done next.
    ///
    /// The driver starts each chunk with `Begin`, performs the reads that are
    /// asked for, and reports each with `Data`, `End` or `Failed`, until a
    /// chunk is handed out.
    pub fn read_chunk(&mut self, event: ReadEvent) -> (action: ChunkAction)
        requires
            old(self).wf(),
        ensures
            final(self).wf(),
            (final(self)@, action@) == old(self)@.step(event@),
    {
        match event {
            ReadEvent::Begin => self.proceed(),
            ReadEvent::Data(bytes) => {
                if bytes.len() == 0 {
                    self.emit()
                } else {
                    self.gather(&bytes);
                    self.proceed()
                }
            },
            ReadEvent::End => self.emit(),
            ReadEvent::Failed => self.emit(),
        }
    }
}

} // verus!
