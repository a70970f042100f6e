use media_relay::chunk_reader::{ChunkAction, ChunkReader, ReadEvent};

fn read(action: ChunkAction) -> usize {
    match action {
        ChunkAction::Read(n) => n,
        other => panic!("no read asked for: {:?}", other),
    }
}

fn chunk(action: ChunkAction) -> Option<Vec<u8>> {
    match action {
        ChunkAction::Emit(chunk) => chunk,
        other => panic!("no chunk handed out: {:?}", other),
    }
}

#[test]
fn reader_asks_for_a_full_chunk_first() {
    let mut reader = ChunkReader::new(4);
    assert_eq!(read(reader.read_chunk(ReadEvent::Begin)), 4);
}

#[test]
fn full_read_gives_a_full_chunk() {
    let mut reader = ChunkReader::new(4);
    reader.read_chunk(ReadEvent::Begin);
    assert_eq!(chunk(reader.read_chunk(ReadEvent::Data(vec![1, 2, 3, 4]))), Some(vec![1, 2, 3, 4]));
    assert_eq!(read(reader.read_chunk(ReadEvent::Begin)), 4);
}

#[test]
fn short_reads_are_gathered() {
    let mut reader = ChunkReader::new(5);
    assert_eq!(read(reader.read_chunk(ReadEvent::Begin)), 5);
    assert_eq!(read(reader.read_chunk(ReadEvent::Data(vec![1, 2]))), 3);
    assert_eq!(read(reader.read_chunk(ReadEvent::Data(vec![3]))), 2);
    assert_eq!(chunk(reader.read_chunk(ReadEvent::Data(vec![4, 5]))), Some(vec![1, 2, 3, 4, 5]));
}

#[test]
fn end_of_input_gives_the_partial_chunk_then_nothing() {
    let mut reader = ChunkReader::new(4);
    reader.read_chunk(ReadEvent::Begin);
    assert_eq!(read(reader.read_chunk(ReadEvent::Data(vec![1, 2]))), 2);
    assert_eq!(chunk(reader.read_chunk(ReadEvent::End)), Some(vec![1, 2]));
    assert_eq!(read(reader.read_chunk(ReadEvent::Begin)), 4);
    assert_eq!(chunk(reader.read_chunk(ReadEvent::End)), None);
}

#[test]
fn empty_read_is_the_end_of_input() {
    let mut reader = ChunkReader::new(4);
    reader.read_chunk(ReadEvent::Begin);
    reader.read_chunk(ReadEvent::Data(vec![7]));
    assert_eq!(chunk(reader.read_chunk(ReadEvent::Data(vec![]))), Some(vec![7]));
    assert_eq!(chunk(reader.read_chunk(ReadEvent::Data(vec![]))), None);
}

#[test]
fn failed_read_gives_the_partial_chunk_then_nothing() {
    let mut reader = ChunkReader::new(4);
    reader.read_chunk(ReadEvent::Begin);
    reader.read_chunk(ReadEvent::Data(vec![1, 2, 3]));
    assert_eq!(chunk(reader.read_chunk(ReadEvent::Failed)), Some(vec![1, 2, 3]));
    assert_eq!(chunk(reader.read_chunk(ReadEvent::Failed)), None);
}

#[test]
fn reader_of_empty_chunks_yields_nothing() {
    let mut reader = ChunkReader::new(0);
    assert_eq!(chunk(reader.read_chunk(ReadEvent::Begin)), None);
}

#[test]
fn bytes_beyond_the_chunk_are_not_taken() {
    let mut reader = ChunkReader::new(3);
    reader.read_chunk(ReadEvent::Begin);
    assert_eq!(chunk(reader.read_chunk(ReadEvent::Data(vec![1, 2, 3, 4, 5]))), Some(vec![1, 2, 3]));
}

#[test]
fn chunks_put_together_are_the_input() {
    let input: Vec<u8> = (0..23u8).collect();
    let reads = [3usize, 1, 4, 1, 5, 9];
    let mut reader = ChunkReader::new(4);
    let mut position = 0;
    let mut turn = 0;
    let mut chunks: Vec<Vec<u8>> = Vec::new();
    let mut action = reader.read_chunk(ReadEvent::Begin);
    loop {
        match action {
            ChunkAction::Read(room) => {
                let want = reads[turn % reads.len()].min(room).min(input.len() - position);
                turn += 1;
                let event = if want == 0 {
                    ReadEvent::End
                } else {
                    ReadEvent::Data(input[position..position + want].to_vec())
                };
                position += want;
                action = reader.read_chunk(event);
            }
            ChunkAction::Emit(Some(chunk)) => {
                chunks.push(chunk);
                action = reader.read_chunk(ReadEvent::Begin);
            }
            ChunkAction::Emit(None) => break,
        }
    }
    assert_eq!(chunks.len(), 6);
    for chunk in &chunks[..5] {
        assert_eq!(chunk.len(), 4);
    }
    assert_eq!(chunks[5].len(), 3);
    assert_eq!(chunks.concat(), input);
}
