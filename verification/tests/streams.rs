use std::sync::Arc;

use media_relay::broadcast::Next;
use media_relay::format::Format;
use media_relay::pipe::BusMessage;
use media_relay::sample::MediaSample;
use media_relay::sink::SinkEvent;
use media_relay::graph_op::{reason, GraphOp, STEPS};
use media_relay::stream_view::{BranchState, Pull, WriteEvent};
use media_relay::streams::{Attach, AttachError, Consumer, Stream, WriteAction, INPUT, PIPELINE};

const CONSTRUCTION: [GraphOp; 14] = [
    GraphOp::CreateBin,
    GraphOp::CreateQueue,
    GraphOp::AddQueue,
    GraphOp::CreateMuxer,
    GraphOp::ConfigureMuxer,
    GraphOp::AddMuxer,
    GraphOp::CreateAppSink,
    GraphOp::AddAppSink,
    GraphOp::AddBin,
    GraphOp::FindTee,
    GraphOp::LinkTee,
    GraphOp::LinkQueue,
    GraphOp::LinkMuxer,
    GraphOp::Play,
];

fn key(bytes: &[u8]) -> Arc<MediaSample> {
    Arc::new(MediaSample::new(bytes.to_vec(), false, false))
}

fn delta(bytes: &[u8]) -> Arc<MediaSample> {
    Arc::new(MediaSample::new(bytes.to_vec(), true, false))
}

/// Attaches a consumer, doing every operation the stream asks for.
fn attach(stream: &mut Stream, name: &str) -> Consumer {
    let format = Format::parse(name).unwrap();
    let mut answer = stream.get_mux_consumer(name).unwrap();
    loop {
        match answer {
            Attach::Joined(consumer) => return consumer,
            Attach::Build(_) => answer = stream.built(format, true).unwrap(),
            Attach::Busy => panic!("busy"),
        }
    }
}

/// Runs a construction in which the operation at place `failing` cannot be
/// done, and returns how it ended.
fn fail_at(stream: &mut Stream, format: Format, failing: usize) -> Result<Attach, AttachError> {
    let mut answer = stream.get_mux_consumer(format.tee_name());
    let mut step = 0;
    loop {
        match answer {
            Ok(Attach::Build(_)) => {
                answer = stream.built(format, step != failing);
                step += 1;
            }
            other => return other,
        }
    }
}

#[test]
fn graph_description_names_the_ports() {
    assert_eq!(STEPS, 14);
    assert_eq!(INPUT, "input");
    assert!(PIPELINE.contains("appsrc name=input"));
    for format in [Format::Mp3, Format::Ogg, Format::M4a, Format::Opus] {
        assert!(PIPELINE.contains(&format!("tee name={} allow-not-linked=true", format.tee_name())));
    }
    assert!(PIPELINE.contains("lamemp3enc quality=6"));
    assert!(PIPELINE.contains("vorbisenc bitrate=128000"));
    assert!(PIPELINE.contains("voaacenc bitrate=80000"));
    assert!(PIPELINE.contains("opusenc bitrate=64000"));
}

#[test]
fn stream_exists_only_for_a_launched_graph() {
    assert!(Stream::new(false).is_none());
    let stream = Stream::new(true).unwrap();
    for format in [Format::Mp3, Format::Ogg, Format::M4a, Format::Opus] {
        assert_eq!(stream.branch_state(format), None);
        assert_eq!(stream.consumers(format), 0);
        assert!(!stream.in_graph(format));
    }
}

#[test]
fn ingest_port_is_handed_out_once() {
    let mut stream = Stream::new(true).unwrap();
    let source = stream.get_source();
    assert!(source.is_some());
    assert!(!source.unwrap().is_ended());
    assert!(stream.get_source().is_none());
    assert!(stream.get_source().is_none());
}

#[test]
fn first_attach_builds_the_branch_operation_by_operation() {
    let mut stream = Stream::new(true).unwrap();
    let mut ops = Vec::new();
    let mut answer = stream.get_mux_consumer("ogg").unwrap();
    let consumer = loop {
        match answer {
            Attach::Build(op) => {
                assert_eq!(stream.branch_state(Format::Ogg), Some(BranchState::Constructing(ops.len())));
                assert_eq!(stream.consumers(Format::Ogg), 0);
                ops.push(op);
                answer = stream.built(Format::Ogg, true).unwrap();
            }
            Attach::Joined(consumer) => break consumer,
            Attach::Busy => panic!("busy"),
        }
    };
    assert_eq!(ops, CONSTRUCTION.to_vec());
    assert_eq!(consumer.format(), Format::Ogg);
    assert_eq!(consumer.branch(), 1);
    assert_eq!(stream.branch_state(Format::Ogg), Some(BranchState::Active));
    assert_eq!(stream.consumers(Format::Ogg), 1);
    assert!(stream.in_graph(Format::Ogg));
    assert!(!stream.in_graph(Format::Mp3));
}

#[test]
fn graph_holds_the_branch_from_the_adding_of_its_bin() {
    let mut stream = Stream::new(true).unwrap();
    let mut answer = stream.get_mux_consumer("mp3").unwrap();
    let mut done = 0;
    while let Attach::Build(op) = answer {
        assert_eq!(stream.in_graph(Format::Mp3), done > 8, "before {:?}", op);
        answer = stream.built(Format::Mp3, true).unwrap();
        done += 1;
    }
    assert_eq!(done, 14);
    assert!(stream.in_graph(Format::Mp3));
}

#[test]
fn second_attach_joins_the_branch() {
    let mut stream = Stream::new(true).unwrap();
    let first = attach(&mut stream, "mp3");
    let second = match stream.get_mux_consumer("mp3").unwrap() {
        Attach::Joined(consumer) => consumer,
        other => panic!("{:?}", other),
    };
    assert_eq!(first.branch(), second.branch());
    assert_eq!(stream.consumers(Format::Mp3), 2);
    assert_eq!(stream.branch_state(Format::Mp3), Some(BranchState::Active));
}

#[test]
fn attach_during_construction_is_busy() {
    let mut stream = Stream::new(true).unwrap();
    assert!(matches!(stream.get_mux_consumer("mp3"), Ok(Attach::Build(GraphOp::CreateBin))));
    assert!(matches!(stream.get_mux_consumer("mp3"), Ok(Attach::Busy)));
    assert!(matches!(stream.built(Format::Mp3, true), Ok(Attach::Build(GraphOp::CreateQueue))));
    assert!(matches!(stream.get_mux_consumer("mp3"), Ok(Attach::Busy)));
    assert_eq!(stream.branch_state(Format::Mp3), Some(BranchState::Constructing(1)));
    assert!(matches!(stream.get_mux_consumer("ogg"), Ok(Attach::Build(GraphOp::CreateBin))));
}

#[test]
fn unknown_format_is_refused() {
    let mut stream = Stream::new(true).unwrap();
    assert!(matches!(stream.get_mux_consumer("wav"), Err(AttachError::UnknownFormat)));
    assert!(matches!(stream.get_mux_consumer(""), Err(AttachError::UnknownFormat)));
}

#[test]
fn report_without_construction_is_refused() {
    let mut stream = Stream::new(true).unwrap();
    assert!(matches!(stream.built(Format::Mp3, true), Err(AttachError::NotConstructing)));
    let _consumer = attach(&mut stream, "mp3");
    assert!(matches!(stream.built(Format::Mp3, true), Err(AttachError::NotConstructing)));
    assert!(matches!(stream.built(Format::Mp3, false), Err(AttachError::NotConstructing)));
    assert_eq!(stream.consumers(Format::Mp3), 1);
}

#[test]
fn each_critical_operation_fails_with_its_reason() {
    let expected: [(usize, &str, Vec<GraphOp>); 11] = [
        (0, "Cannot create bin", vec![]),
        (1, "Cannot create queue", vec![]),
        (2, "Cannot add queue to bin", vec![]),
        (3, "Cannot create muxer", vec![]),
        (5, "Cannot add muxer to bin", vec![]),
        (6, "Cannot create appsink", vec![]),
        (7, "Cannot add appsink to bin", vec![]),
        (9, "Cannot get tee", vec![GraphOp::RemoveBin]),
        (10, "Cannot link tee to queue", vec![GraphOp::RemoveBin]),
        (11, "Cannot link tee to mp4mux", vec![GraphOp::UnlinkTee, GraphOp::RemoveBin]),
        (12, "Cannot link mp4mux to appsink", vec![GraphOp::UnlinkTee, GraphOp::RemoveBin]),
    ];
    for (failing, text, ops) in expected.iter() {
        let mut stream = Stream::new(true).unwrap();
        match fail_at(&mut stream, Format::M4a, *failing) {
            Err(AttachError::GraphConstructionFailed { reason, undo }) => {
                assert_eq!(&reason, text);
                assert_eq!(&undo, ops);
            }
            other => panic!("{:?}", other),
        }
        assert_eq!(stream.branch_state(Format::M4a), None);
        assert_eq!(stream.consumers(Format::M4a), 0);
        assert!(!stream.in_graph(Format::M4a));
    }
}

#[test]
fn unchecked_operations_do_not_fail_the_construction() {
    for failing in [4usize, 8, 13] {
        let mut stream = Stream::new(true).unwrap();
        assert!(matches!(fail_at(&mut stream, Format::Mp3, failing), Ok(Attach::Joined(_))));
        assert_eq!(stream.branch_state(Format::Mp3), Some(BranchState::Active));
    }
}

#[test]
fn reasons_name_the_muxer_of_the_format() {
    assert_eq!(reason(Format::Mp3, GraphOp::LinkQueue), "Cannot link tee to mpegpsmux");
    assert_eq!(reason(Format::Opus, GraphOp::LinkMuxer), "Cannot link oggmux to appsink");
    assert_eq!(reason(Format::Ogg, GraphOp::Play), "");
    assert!(GraphOp::LinkTee.is_critical());
    assert!(!GraphOp::AddBin.is_critical());
    assert!(!GraphOp::ConfigureMuxer.is_critical());
    assert!(!GraphOp::Play.is_critical());
    assert!(!GraphOp::Pause.is_critical());
}

#[test]
fn failed_construction_does_not_touch_other_branches() {
    let mut stream = Stream::new(true).unwrap();
    let mut listener = attach(&mut stream, "mp3");
    assert_eq!(stream.deliver(Format::Mp3, listener.branch(), SinkEvent::NewSample(key(&[1]))), Pull::Continue);
    assert!(matches!(fail_at(&mut stream, Format::Ogg, 10), Err(AttachError::GraphConstructionFailed { .. })));
    assert_eq!(stream.branch_state(Format::Mp3), Some(BranchState::Active));
    assert_eq!(stream.consumers(Format::Mp3), 1);
    assert!(stream.in_graph(Format::Mp3));
    assert!(matches!(listener.next(&mut stream), Next::Sample(_)));
    let _again = attach(&mut stream, "ogg");
    assert_eq!(stream.branch_state(Format::Ogg), Some(BranchState::Active));
}

#[test]
fn samples_reach_the_consumers_of_their_branch_only() {
    let mut stream = Stream::new(true).unwrap();
    let mut mp3 = attach(&mut stream, "mp3");
    let mut ogg = attach(&mut stream, "ogg");
    assert_eq!(stream.deliver(Format::Mp3, mp3.branch(), SinkEvent::NewSample(key(&[1]))), Pull::Continue);
    assert!(matches!(ogg.next(&mut stream), Next::Pending));
    match mp3.next(&mut stream) {
        Next::Sample(sample) => assert_eq!(sample.payload, vec![1]),
        other => panic!("{:?}", other),
    }
    assert!(matches!(mp3.next(&mut stream), Next::Pending));
}

#[test]
fn events_for_a_branch_that_is_not_there_stop_the_distributor() {
    let mut stream = Stream::new(true).unwrap();
    assert_eq!(stream.deliver(Format::Mp3, 1, SinkEvent::NewSample(key(&[1]))), Pull::Stop);
    let consumer = attach(&mut stream, "mp3");
    assert_eq!(stream.deliver(Format::Mp3, consumer.branch() + 1, SinkEvent::Eos), Pull::Stop);
    assert_eq!(stream.branch_state(Format::Mp3), Some(BranchState::Active));
    assert!(matches!(stream.get_mux_consumer("ogg"), Ok(Attach::Build(_))));
    assert_eq!(stream.deliver(Format::Ogg, 2, SinkEvent::NewSample(key(&[1]))), Pull::Stop);
}

#[test]
fn end_of_the_port_drains_the_branch() {
    let mut stream = Stream::new(true).unwrap();
    let mut consumer = attach(&mut stream, "opus");
    let serial = consumer.branch();
    assert_eq!(stream.deliver(Format::Opus, serial, SinkEvent::NewSample(key(&[1]))), Pull::Continue);
    assert_eq!(stream.deliver(Format::Opus, serial, SinkEvent::Eos), Pull::Drain);
    assert_eq!(stream.branch_state(Format::Opus), Some(BranchState::Draining));
    assert_eq!(stream.deliver(Format::Opus, serial, SinkEvent::NewSample(key(&[2]))), Pull::Stop);
    assert!(matches!(consumer.next(&mut stream), Next::Sample(_)));
    assert!(matches!(consumer.next(&mut stream), Next::Closed));
    assert!(stream.in_graph(Format::Opus));
}

#[test]
fn engine_error_ends_every_branch() {
    let mut stream = Stream::new(true).unwrap();
    let mut mp3 = attach(&mut stream, "mp3");
    let mut ogg = attach(&mut stream, "ogg");
    stream.deliver(Format::Mp3, mp3.branch(), SinkEvent::NewSample(key(&[1])));
    assert!(stream.watch(BusMessage::StateChanged));
    assert!(stream.watch(BusMessage::Other));
    assert_eq!(stream.branch_state(Format::Mp3), Some(BranchState::Active));
    assert!(!stream.watch(BusMessage::Error));
    assert_eq!(stream.branch_state(Format::Mp3), Some(BranchState::Draining));
    assert_eq!(stream.branch_state(Format::Ogg), Some(BranchState::Draining));
    assert!(matches!(mp3.next(&mut stream), Next::Sample(_)));
    assert!(matches!(mp3.next(&mut stream), Next::Closed));
    assert!(matches!(ogg.next(&mut stream), Next::Closed));
    assert_eq!(stream.deliver(Format::Mp3, mp3.branch(), SinkEvent::NewSample(key(&[2]))), Pull::Stop);
    assert!(!stream.watch(BusMessage::StateChanged));
}

#[test]
fn detach_of_one_of_two_consumers_keeps_the_branch() {
    let mut stream = Stream::new(true).unwrap();
    let first = attach(&mut stream, "mp3");
    let mut second = attach(&mut stream, "mp3");
    stream.deliver(Format::Mp3, first.branch(), SinkEvent::NewSample(key(&[1])));
    assert_eq!(first.detach(&mut stream), vec![]);
    assert_eq!(stream.consumers(Format::Mp3), 1);
    assert_eq!(stream.branch_state(Format::Mp3), Some(BranchState::Active));
    assert!(stream.in_graph(Format::Mp3));
    stream.deliver(Format::Mp3, second.branch(), SinkEvent::NewSample(delta(&[2])));
    assert!(matches!(second.next(&mut stream), Next::Sample(_)));
    assert!(matches!(second.next(&mut stream), Next::Sample(_)));
    assert!(matches!(second.next(&mut stream), Next::Pending));
}

#[test]
fn detach_of_the_last_consumer_tears_the_branch_down_in_order() {
    let mut stream = Stream::new(true).unwrap();
    let first = attach(&mut stream, "mp3");
    let second = attach(&mut stream, "mp3");
    assert_eq!(second.detach(&mut stream), vec![]);
    assert_eq!(first.detach(&mut stream), vec![GraphOp::UnlinkTee, GraphOp::Pause, GraphOp::RemoveBin]);
    assert_eq!(stream.consumers(Format::Mp3), 0);
    assert_eq!(stream.branch_state(Format::Mp3), None);
    assert!(!stream.in_graph(Format::Mp3));
}

#[test]
fn detach_of_the_last_consumer_of_a_draining_branch_tears_it_down() {
    let mut stream = Stream::new(true).unwrap();
    let consumer = attach(&mut stream, "m4a");
    assert_eq!(stream.deliver(Format::M4a, consumer.branch(), SinkEvent::Eos), Pull::Drain);
    assert_eq!(consumer.detach(&mut stream), vec![GraphOp::UnlinkTee, GraphOp::Pause, GraphOp::RemoveBin]);
    assert_eq!(stream.branch_state(Format::M4a), None);
    assert!(!stream.in_graph(Format::M4a));
}

#[test]
fn output_writes_each_sample_and_waits_in_between() {
    let mut stream = Stream::new(true).unwrap();
    let mut consumer = attach(&mut stream, "mp3");
    let serial = consumer.branch();
    assert!(matches!(consumer.write_to(&mut stream, WriteEvent::Ready), WriteAction::Wait));
    stream.deliver(Format::Mp3, serial, SinkEvent::NewSample(key(&[1, 2, 3])));
    stream.deliver(Format::Mp3, serial, SinkEvent::NewSample(delta(&[4, 5])));
    match consumer.write_to(&mut stream, WriteEvent::Ready) {
        WriteAction::Write(bytes) => assert_eq!(bytes, vec![1, 2, 3]),
        other => panic!("{:?}", other),
    }
    match consumer.write_to(&mut stream, WriteEvent::Written(3)) {
        WriteAction::Write(bytes) => assert_eq!(bytes, vec![4, 5]),
        other => panic!("{:?}", other),
    }
    assert!(matches!(consumer.write_to(&mut stream, WriteEvent::Written(2)), WriteAction::Wait));
    stream.deliver(Format::Mp3, serial, SinkEvent::Eos);
    assert!(matches!(consumer.write_to(&mut stream, WriteEvent::Ready), WriteAction::Stop));
}

#[test]
fn short_write_stops_the_output() {
    let mut stream = Stream::new(true).unwrap();
    let mut consumer = attach(&mut stream, "mp3");
    let serial = consumer.branch();
    stream.deliver(Format::Mp3, serial, SinkEvent::NewSample(key(&[1, 2, 3])));
    stream.deliver(Format::Mp3, serial, SinkEvent::NewSample(delta(&[4, 5])));
    assert!(matches!(consumer.write_to(&mut stream, WriteEvent::Ready), WriteAction::Write(_)));
    assert!(matches!(consumer.write_to(&mut stream, WriteEvent::Written(2)), WriteAction::Stop));
}

#[test]
fn failed_write_stops_the_output_and_spares_the_sibling() {
    let mut stream = Stream::new(true).unwrap();
    let mut failing = attach(&mut stream, "mp3");
    let mut sibling = attach(&mut stream, "mp3");
    let serial = failing.branch();
    stream.deliver(Format::Mp3, serial, SinkEvent::NewSample(key(&[1])));
    stream.deliver(Format::Mp3, serial, SinkEvent::NewSample(delta(&[2])));
    assert!(matches!(failing.write_to(&mut stream, WriteEvent::Ready), WriteAction::Write(_)));
    assert!(matches!(failing.write_to(&mut stream, WriteEvent::Failed), WriteAction::Stop));
    assert_eq!(failing.detach(&mut stream), vec![]);
    let mut written = Vec::new();
    let mut event = WriteEvent::Ready;
    while let WriteAction::Write(bytes) = sibling.write_to(&mut stream, event) {
        event = WriteEvent::Written(bytes.len());
        written.extend(bytes);
    }
    assert_eq!(written, vec![1, 2]);
    assert_eq!(stream.consumers(Format::Mp3), 1);
}
