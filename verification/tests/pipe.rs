use media_relay::format::Format;
use media_relay::pipe::{BusMessage, Pipe, PipeState};

#[test]
fn pipe_exists_only_for_a_launched_graph() {
    assert!(Pipe::new(false).is_none());
    let pipe = Pipe::new(true).unwrap();
    assert_eq!(pipe.state(), PipeState::Playing);
    for format in [Format::Mp3, Format::Ogg, Format::M4a, Format::Opus] {
        assert!(!pipe.has_bin(format));
        assert!(!pipe.is_linked(format));
    }
}

#[test]
fn state_changes_and_other_messages_keep_the_bus_watched() {
    let mut pipe = Pipe::new(true).unwrap();
    assert!(pipe.watch(BusMessage::StateChanged));
    assert!(pipe.watch(BusMessage::Other));
    assert_eq!(pipe.state(), PipeState::Playing);
}

#[test]
fn error_ends_the_watch() {
    let mut pipe = Pipe::new(true).unwrap();
    assert!(!pipe.watch(BusMessage::Error));
    assert_eq!(pipe.state(), PipeState::Failed);
    assert!(!pipe.watch(BusMessage::StateChanged));
    assert!(!pipe.watch(BusMessage::Eos));
    assert_eq!(pipe.state(), PipeState::Failed);
}

#[test]
fn end_of_stream_ends_the_watch() {
    let mut pipe = Pipe::new(true).unwrap();
    assert!(!pipe.watch(BusMessage::Eos));
    assert_eq!(pipe.state(), PipeState::Finished);
    assert!(!pipe.watch(BusMessage::Error));
    assert_eq!(pipe.state(), PipeState::Finished);
}

#[test]
fn accepted_bin_is_in_the_graph() {
    let mut pipe = Pipe::new(true).unwrap();
    assert_eq!(pipe.add(Format::Mp3, true), Ok(()));
    assert!(pipe.has_bin(Format::Mp3));
    assert!(!pipe.has_bin(Format::Ogg));
    pipe.remove(Format::Mp3);
    assert!(!pipe.has_bin(Format::Mp3));
}

#[test]
fn refused_bin_is_an_error() {
    let mut pipe = Pipe::new(true).unwrap();
    assert_eq!(pipe.add(Format::Mp3, false), Err("Cannot add element to pipeline"));
    assert!(!pipe.has_bin(Format::Mp3));
}

#[test]
fn link_is_recorded_when_made() {
    let mut pipe = Pipe::new(true).unwrap();
    assert!(!pipe.link(Format::Ogg, false));
    assert!(!pipe.is_linked(Format::Ogg));
    assert!(pipe.link(Format::Ogg, true));
    assert!(pipe.is_linked(Format::Ogg));
    assert!(!pipe.is_linked(Format::Mp3));
    pipe.unlink(Format::Ogg);
    assert!(!pipe.is_linked(Format::Ogg));
}
