use std::sync::Arc;

use media_relay::broadcast::{Broadcast, Consumer, Next};
use media_relay::sample::MediaSample;
use media_relay::sink::{Sink, SinkEvent};

fn key(byte: u8) -> Arc<MediaSample> {
    Arc::new(MediaSample::new(vec![byte], false, false))
}

fn delta(byte: u8) -> Arc<MediaSample> {
    Arc::new(MediaSample::new(vec![byte], true, false))
}

fn header(byte: u8) -> Arc<MediaSample> {
    Arc::new(MediaSample::new(vec![byte], false, true))
}

/// Takes what the consumer can get now: the first bytes of the samples, and
/// how the taking ended.
fn drain(consumer: &mut Consumer, broadcast: &mut Broadcast) -> (Vec<u8>, bool) {
    let mut bytes = Vec::new();
    loop {
        match consumer.next(broadcast) {
            Next::Sample(sample) => bytes.push(sample.payload[0]),
            Next::Pending => return (bytes, false),
            Next::Closed => return (bytes, true),
        }
    }
}

#[test]
fn new_broadcast_is_open_and_empty() {
    let broadcast = Broadcast::new(Sink::new());
    assert_eq!(broadcast.consumers(), 0);
    assert!(!broadcast.is_closed());
    assert!(!broadcast.is_full());
}

#[test]
fn consumers_get_growing_ids() {
    let mut broadcast = Broadcast::new(Sink::new());
    let a = broadcast.consumer();
    let b = broadcast.consumer();
    let c = broadcast.consumer();
    assert_eq!(a.number(), 1);
    assert_eq!(b.number(), 2);
    assert_eq!(c.number(), 3);
    assert_eq!(broadcast.consumers(), 3);
    b.detach(&mut broadcast);
    let d = broadcast.consumer();
    assert_eq!(d.number(), 4);
    assert_eq!(broadcast.consumers(), 3);
}

#[test]
fn consumer_without_samples_is_pending() {
    let mut broadcast = Broadcast::new(Sink::new());
    let mut a = broadcast.consumer();
    assert!(matches!(a.next(&mut broadcast), Next::Pending));
    assert!(!a.in_sync());
}

#[test]
fn every_consumer_gets_every_sample_in_order() {
    let mut broadcast = Broadcast::new(Sink::new());
    let mut a = broadcast.consumer();
    let mut b = broadcast.consumer();
    assert!(broadcast.run_distributer(SinkEvent::NewPreroll(key(1))));
    assert!(broadcast.run_distributer(SinkEvent::NewSample(delta(2))));
    assert!(broadcast.run_distributer(SinkEvent::NewSample(delta(3))));
    assert_eq!(drain(&mut a, &mut broadcast), (vec![1, 2, 3], false));
    assert_eq!(drain(&mut b, &mut broadcast), (vec![1, 2, 3], false));
}

#[test]
fn consumers_share_one_sample() {
    let mut broadcast = Broadcast::new(Sink::new());
    let mut a = broadcast.consumer();
    let mut b = broadcast.consumer();
    let produced = Arc::new(MediaSample::new(vec![9, 8, 7], false, false));
    assert!(broadcast.run_distributer(SinkEvent::NewSample(produced.clone())));
    let got_a = match a.next(&mut broadcast) {
        Next::Sample(sample) => sample,
        other => panic!("no sample: {:?}", other),
    };
    let got_b = match b.next(&mut broadcast) {
        Next::Sample(sample) => sample,
        other => panic!("no sample: {:?}", other),
    };
    assert!(Arc::ptr_eq(&got_a, &produced));
    assert!(Arc::ptr_eq(&got_b, &produced));
    assert_eq!(got_a.payload, vec![9, 8, 7]);
}

#[test]
fn consumer_starts_at_first_sync_point_after_attach() {
    let mut broadcast = Broadcast::new(Sink::new());
    broadcast.run_distributer(SinkEvent::NewSample(key(1)));
    let mut a = broadcast.consumer();
    broadcast.run_distributer(SinkEvent::NewSample(delta(2)));
    broadcast.run_distributer(SinkEvent::NewSample(header(3)));
    assert_eq!(drain(&mut a, &mut broadcast), (vec![], false));
    assert!(!a.in_sync());
    broadcast.run_distributer(SinkEvent::NewSample(key(4)));
    broadcast.run_distributer(SinkEvent::NewSample(delta(5)));
    broadcast.run_distributer(SinkEvent::NewSample(header(6)));
    assert_eq!(drain(&mut a, &mut broadcast), (vec![4, 5, 6], false));
    assert!(a.in_sync());
}

#[test]
fn taking_in_pieces_gives_what_taking_at_once_gives() {
    let samples = [delta(1), key(2), delta(3), header(4), key(5), delta(6)];
    let mut at_once = Broadcast::new(Sink::new());
    let mut a = at_once.consumer();
    for sample in samples.iter() {
        at_once.run_distributer(SinkEvent::NewSample(sample.clone()));
    }
    let (all, _) = drain(&mut a, &mut at_once);

    let mut in_pieces = Broadcast::new(Sink::new());
    let mut b = in_pieces.consumer();
    let mut pieces = Vec::new();
    for sample in samples.iter() {
        in_pieces.run_distributer(SinkEvent::NewSample(sample.clone()));
        pieces.extend(drain(&mut b, &mut in_pieces).0);
    }
    assert_eq!(all, vec![2, 3, 4, 5, 6]);
    assert_eq!(pieces, all);
}

#[test]
fn detaching_one_consumer_leaves_the_other_untouched() {
    let mut broadcast = Broadcast::new(Sink::new());
    let a = broadcast.consumer();
    let mut b = broadcast.consumer();
    broadcast.run_distributer(SinkEvent::NewSample(key(1)));
    broadcast.run_distributer(SinkEvent::NewSample(delta(2)));
    a.detach(&mut broadcast);
    assert_eq!(broadcast.consumers(), 1);
    broadcast.run_distributer(SinkEvent::NewSample(delta(3)));
    assert_eq!(drain(&mut b, &mut broadcast), (vec![1, 2, 3], false));
}

#[test]
fn deregistering_an_unknown_id_changes_nothing() {
    let mut broadcast = Broadcast::new(Sink::new());
    let mut a = broadcast.consumer();
    broadcast.run_distributer(SinkEvent::NewSample(key(1)));
    broadcast.deregister(7);
    assert_eq!(broadcast.consumers(), 1);
    assert_eq!(drain(&mut a, &mut broadcast), (vec![1], false));
}

#[test]
fn detached_consumer_is_closed() {
    let mut broadcast = Broadcast::new(Sink::new());
    let mut a = broadcast.consumer();
    broadcast.run_distributer(SinkEvent::NewSample(key(1)));
    broadcast.deregister(a.number());
    assert!(matches!(a.next(&mut broadcast), Next::Closed));
}

#[test]
fn end_of_stream_closes_after_the_queue_is_drained() {
    let mut broadcast = Broadcast::new(Sink::new());
    let mut a = broadcast.consumer();
    assert!(broadcast.run_distributer(SinkEvent::NewSample(key(1))));
    assert!(broadcast.run_distributer(SinkEvent::NewSample(delta(2))));
    assert!(!broadcast.run_distributer(SinkEvent::Eos));
    assert!(broadcast.is_closed());
    assert!(matches!(a.next(&mut broadcast), Next::Sample(_)));
    assert!(matches!(a.next(&mut broadcast), Next::Sample(_)));
    assert!(matches!(a.next(&mut broadcast), Next::Closed));
    assert!(matches!(a.next(&mut broadcast), Next::Closed));
}

#[test]
fn failed_pull_closes_like_end_of_stream() {
    let mut broadcast = Broadcast::new(Sink::new());
    let mut a = broadcast.consumer();
    assert!(!broadcast.run_distributer(SinkEvent::Disconnected));
    assert!(broadcast.is_closed());
    assert!(matches!(a.next(&mut broadcast), Next::Closed));
}

#[test]
fn closed_broadcast_takes_no_more_samples() {
    let mut broadcast = Broadcast::new(Sink::new());
    let mut a = broadcast.consumer();
    assert!(!broadcast.run_distributer(SinkEvent::Eos));
    assert!(!broadcast.run_distributer(SinkEvent::NewSample(key(1))));
    assert_eq!(drain(&mut a, &mut broadcast), (vec![], true));
}

#[test]
fn consumer_of_a_closed_broadcast_that_never_synced_is_closed() {
    let mut broadcast = Broadcast::new(Sink::new());
    let mut a = broadcast.consumer();
    broadcast.run_distributer(SinkEvent::NewSample(delta(1)));
    broadcast.run_distributer(SinkEvent::NewSample(delta(2)));
    broadcast.run_distributer(SinkEvent::Eos);
    assert_eq!(drain(&mut a, &mut broadcast), (vec![], true));
}

#[test]
fn sink_yields_samples_until_it_ends() {
    let mut sink = Sink::new();
    assert!(!sink.is_ended());
    assert_eq!(sink.next(SinkEvent::NewPreroll(key(1))).unwrap().payload, vec![1]);
    assert_eq!(sink.next(SinkEvent::NewSample(delta(2))).unwrap().payload, vec![2]);
    assert!(!sink.is_ended());
    assert!(sink.next(SinkEvent::Eos).is_none());
    assert!(sink.is_ended());
    assert!(sink.next(SinkEvent::NewSample(key(3))).is_none());
}

#[test]
fn sink_ends_on_failed_pull() {
    let mut sink = Sink::new();
    assert!(sink.next(SinkEvent::Disconnected).is_none());
    assert!(sink.is_ended());
}

#[test]
fn stalled_consumer_does_not_hold_back_the_others() {
    let mut broadcast = Broadcast::new(Sink::new());
    let mut stalled = broadcast.consumer();
    let mut reader = broadcast.consumer();
    let mut seen = Vec::new();
    for i in 0..100u8 {
        assert!(broadcast.run_distributer(SinkEvent::NewSample(key(i))));
        seen.extend(drain(&mut reader, &mut broadcast).0);
    }
    assert_eq!(seen, (0..100u8).collect::<Vec<u8>>());
    assert_eq!(drain(&mut stalled, &mut broadcast).0, (0..100u8).collect::<Vec<u8>>());
}
