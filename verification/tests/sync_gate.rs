use media_relay::broadcast::buffer_is_sync_frame;
use media_relay::sample::MediaSample;
use media_relay::sync_gate::{GateState, SyncGate};

fn sample(byte: u8, delta_unit: bool, header: bool) -> MediaSample {
    MediaSample::new(vec![byte], delta_unit, header)
}

#[test]
fn sample_keeps_its_parts() {
    let s = MediaSample::new(vec![1, 2, 3], true, false);
    assert_eq!(s.payload, vec![1, 2, 3]);
    assert!(s.delta_unit);
    assert!(!s.header);
}

#[test]
fn sync_frame_is_neither_delta_nor_header() {
    assert!(buffer_is_sync_frame(&sample(0, false, false)));
    assert!(!buffer_is_sync_frame(&sample(0, true, false)));
    assert!(!buffer_is_sync_frame(&sample(0, false, true)));
    assert!(!buffer_is_sync_frame(&sample(0, true, true)));
}

#[test]
fn gate_starts_seeking() {
    let gate = SyncGate::new();
    assert_eq!(gate.state(), GateState::Seeking);
}

#[test]
fn gate_discards_until_first_sync_point() {
    let mut gate = SyncGate::new();
    assert!(!gate.offer(&sample(1, true, false)));
    assert_eq!(gate.state(), GateState::Seeking);
    assert!(!gate.offer(&sample(2, false, true)));
    assert_eq!(gate.state(), GateState::Seeking);
    assert!(gate.offer(&sample(3, false, false)));
    assert_eq!(gate.state(), GateState::Passing);
}

#[test]
fn gate_passes_everything_after_first_sync_point() {
    let mut gate = SyncGate::new();
    assert!(gate.offer(&sample(1, false, false)));
    assert!(gate.offer(&sample(2, true, false)));
    assert!(gate.offer(&sample(3, false, true)));
    assert!(gate.offer(&sample(4, true, true)));
    assert_eq!(gate.state(), GateState::Passing);
}

#[test]
fn gate_delivers_exactly_the_suffix_from_the_first_sync_point() {
    let flags = [(true, false), (false, true), (true, true), (false, false), (true, false), (false, true)];
    let mut gate = SyncGate::new();
    let mut delivered = Vec::new();
    for (i, (delta_unit, header)) in flags.iter().enumerate() {
        if gate.offer(&sample(i as u8, *delta_unit, *header)) {
            delivered.push(i);
        }
    }
    assert_eq!(delivered, vec![3, 4, 5]);
}
