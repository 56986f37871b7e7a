use fun60_analog_plugin::socket::{
    parse_frames, DepthEvent, DepthState, DepthUpdate, EventReceiver, Frame, ReadOutcome,
    ReaderStep, RecvStep, SocketError,
};

fn ev(key_index: u8, depth_raw: u16) -> DepthEvent {
    DepthEvent { key_index, depth_raw }
}

fn recv_all(rx: &mut EventReceiver) -> Vec<DepthUpdate> {
    let mut out = Vec::new();
    while let Some(u) = rx.try_recv() {
        out.push(u);
    }
    out
}

fn protocol_message(r: Result<Vec<Frame>, SocketError>) -> &'static str {
    match r {
        Err(SocketError::Protocol(m)) => m,
        other => panic!("expected a protocol error, got {other:?}"),
    }
}

#[test]
fn parses_event_frame() {
    let buf = [b'D', 10, 0x1F, 0x00]; // key 10, depth 31
    assert_eq!(
        parse_frames(&buf).unwrap(),
        vec![Frame::Event(DepthEvent {
            key_index: 10,
            depth_raw: 31
        })]
    );
}

#[test]
fn parses_snapshot_frame() {
    let buf = [b'S', 2, 1, 0x64, 0x00, 2, 0xC8, 0x01];
    assert_eq!(
        parse_frames(&buf).unwrap(),
        vec![Frame::Snapshot(vec![
            DepthEvent {
                key_index: 1,
                depth_raw: 100
            },
            DepthEvent {
                key_index: 2,
                depth_raw: 456
            },
        ])]
    );
}

#[test]
fn parses_back_to_back_frames() {
    let buf = [b'D', 5, 0x0A, 0x00, b'D', 6, 0x14, 0x00, b'E', 1];
    assert_eq!(
        parse_frames(&buf).unwrap(),
        vec![
            Frame::Event(DepthEvent {
                key_index: 5,
                depth_raw: 10
            }),
            Frame::Event(DepthEvent {
                key_index: 6,
                depth_raw: 20
            }),
            Frame::Error(1),
        ]
    );
}

#[test]
fn truncated_frame_is_error() {
    assert!(parse_frames(&[b'D', 5]).is_err());
    assert!(parse_frames(&[b'S', 3, 1, 0, 0]).is_err());
}

#[test]
fn unknown_frame_is_error() {
    assert!(parse_frames(&[b'Z', 0, 0, 0]).is_err());
}

#[test]
fn depth_state_applies_and_snapshots() {
    let mut st = DepthState::default();
    assert_eq!(st.get(9), 0);
    st.apply(9, 200);
    st.apply(10, 0); // at-rest report
    assert_eq!(st.get(9), 200);
    assert_eq!(st.get(10), 0);
    assert_eq!(st.pressed(), vec![(9, 200)]);
}

#[test]
fn drop_oldest_on_overflow() {
    let mut rx = EventReceiver::new(3);
    for i in 0..5u16 {
        rx.push_oldest_drop(DepthUpdate::Event(DepthEvent {
            key_index: 1,
            depth_raw: i,
        }));
    }
    let got = recv_all(&mut rx);
    assert_eq!(got.len(), 3, "capacity respected");
    // Oldest two (0, 1) dropped; newest three kept.
    assert_eq!(
        got,
        vec![
            DepthUpdate::Event(DepthEvent {
                key_index: 1,
                depth_raw: 2
            }),
            DepthUpdate::Event(DepthEvent {
                key_index: 1,
                depth_raw: 3
            }),
            DepthUpdate::Event(DepthEvent {
                key_index: 1,
                depth_raw: 4
            }),
        ]
    );
}

#[test]
fn recv_timeout_returns_none_when_empty() {
    // An open, empty queue whose wait has timed out yields nothing.
    let mut rx = EventReceiver::new(4);
    assert_eq!(rx.recv_step(false), RecvStep::Wait);
    assert_eq!(rx.recv_step(true), RecvStep::Done);
}

#[test]
fn closed_ring_drains_then_returns_none() {
    let mut rx = EventReceiver::new(4);
    rx.push_oldest_drop(DepthUpdate::Event(DepthEvent {
        key_index: 1,
        depth_raw: 5,
    }));
    rx.close();
    // Drains remaining, then None.
    assert!(matches!(rx.recv_step(false), RecvStep::Item(_)));
    assert_eq!(rx.recv_step(false), RecvStep::Done);
    assert_eq!(rx.recv_step(false), RecvStep::Done);
}

#[test]
fn disconnected_update_then_close() {
    let mut rx = EventReceiver::new(4);
    rx.close_disconnected();
    assert_eq!(rx.recv_step(false), RecvStep::Item(DepthUpdate::Disconnected));
    assert_eq!(rx.recv_step(false), RecvStep::Done);
}

#[test]
fn zero_capacity_is_ignored() {
    // capacity 0 must not drop everything: it means unbounded.
    let mut rx = EventReceiver::new(0);
    rx.push_oldest_drop(DepthUpdate::Event(DepthEvent {
        key_index: 1,
        depth_raw: 9,
    }));
    assert_eq!(rx.len(), 1, "capacity 0 means unbounded");
}

#[test]
fn protocol_errors_name_the_failure() {
    assert_eq!(protocol_message(parse_frames(&[b'S', 3, 1, 0, 0])), "truncated snapshot");
    assert_eq!(protocol_message(parse_frames(&[b'D', 5])), "unknown or truncated frame");
    assert_eq!(protocol_message(parse_frames(&[b'Z', 0, 0, 0])), "unknown or truncated frame");
    assert_eq!(protocol_message(parse_frames(&[b'E'])), "unknown or truncated frame");
    assert_eq!(protocol_message(parse_frames(&[b'S'])), "unknown or truncated frame");
}

#[test]
fn empty_buffer_and_empty_snapshot_parse() {
    assert_eq!(parse_frames(&[]).unwrap(), vec![]);
    assert_eq!(parse_frames(&[b'S', 0]).unwrap(), vec![Frame::Snapshot(vec![])]);
}

#[test]
fn depth_is_little_endian() {
    assert_eq!(
        parse_frames(&[b'D', 0xFF, 0x34, 0x12]).unwrap(),
        vec![Frame::Event(ev(0xFF, 0x1234))]
    );
}

#[test]
fn concatenated_buffers_parse_to_concatenated_frames() {
    let a = [b'D', 5, 0x0A, 0x00, b'E', 7];
    let b = [b'S', 1, 3, 0x01, 0x00];
    let mut ab = a.to_vec();
    ab.extend_from_slice(&b);
    let mut expected = parse_frames(&a).unwrap();
    expected.extend(parse_frames(&b).unwrap());
    assert_eq!(parse_frames(&ab).unwrap(), expected);
    // A good prefix followed by a bad tail fails as the tail does.
    let mut bad = a.to_vec();
    bad.push(b'Q');
    assert!(parse_frames(&bad).is_err());
}

#[test]
fn read_gives_back_last_write() {
    let mut st = DepthState::new();
    st.apply(3, 10);
    st.apply(4, 20);
    st.apply(3, 30);
    assert_eq!(st.get(3), 30);
    assert_eq!(st.get(4), 20);
    assert_eq!(st.get(5), 0);
}

#[test]
fn snapshot_lists_every_reported_key_by_ascending_key() {
    let mut st = DepthState::new();
    st.apply(40, 7);
    st.apply(2, 0);
    st.apply(9, 150);
    assert_eq!(st.snapshot_all(), vec![(2, 0), (9, 150), (40, 7)]);
    assert_eq!(st.pressed(), vec![(9, 150), (40, 7)]);
    assert_eq!(st.snapshot_events(), vec![ev(2, 0), ev(9, 150), ev(40, 7)]);
    st.clear();
    assert!(st.snapshot_all().is_empty());
}

#[test]
fn snapshot_frame_replaces_state() {
    let mut st = DepthState::new();
    st.apply(1, 100);
    st.apply(2, 200);
    let u = st.apply_frame(&Frame::Snapshot(vec![ev(2, 5), ev(3, 6), ev(3, 9)]));
    assert_eq!(u, Some(DepthUpdate::Snapshot(vec![ev(2, 5), ev(3, 6), ev(3, 9)])));
    assert_eq!(st.get(1), 0);
    assert_eq!(st.get(2), 5);
    assert_eq!(st.get(3), 9);
    assert_eq!(st.apply_frame(&Frame::Error(4)), None);
    assert_eq!(st.get(2), 5);
    assert_eq!(st.apply_frame(&Frame::Event(ev(1, 77))), Some(DepthUpdate::Event(ev(1, 77))));
    assert_eq!(st.get(1), 77);
}

#[test]
fn chunk_updates_state_and_collects_updates() {
    let mut st = DepthState::new();
    st.set_connected(true);
    let out = st
        .apply_chunk(&[b'D', 5, 0x0A, 0x00, b'E', 1, b'S', 1, 6, 0x14, 0x00, b'E', 9])
        .unwrap();
    assert_eq!(
        out.updates,
        vec![DepthUpdate::Event(ev(5, 10)), DepthUpdate::Snapshot(vec![ev(6, 20)])]
    );
    assert_eq!(out.server_errors, vec![1, 9]);
    assert_eq!(st.get(5), 0);
    assert_eq!(st.get(6), 20);
    assert!(st.is_connected());
    // A bad chunk changes nothing.
    assert!(st.apply_chunk(&[b'D', 6, 0x01, 0x00, b'X']).is_err());
    assert_eq!(st.get(6), 20);
}

#[test]
fn subscriber_queue_starts_with_snapshot() {
    let mut st = DepthState::new();
    st.apply(8, 12);
    let mut rx = EventReceiver::with_snapshot(st.snapshot_events(), 2);
    assert_eq!(rx.capacity(), 2);
    assert!(!rx.is_closed());
    assert_eq!(rx.len(), 1);
    rx.push_oldest_drop(DepthUpdate::Event(ev(8, 0)));
    rx.close_disconnected();
    assert!(rx.is_closed());
    // The snapshot was dropped to make room; newest kept.
    assert_eq!(
        recv_all(&mut rx),
        vec![DepthUpdate::Event(ev(8, 0)), DepthUpdate::Disconnected]
    );
    assert!(rx.is_empty());
}

#[test]
fn recv_step_prefers_queued_items_over_timeout() {
    let mut rx = EventReceiver::new(1);
    rx.push_oldest_drop(DepthUpdate::Event(ev(1, 1)));
    assert_eq!(rx.recv_step(true), RecvStep::Item(DepthUpdate::Event(ev(1, 1))));
    assert_eq!(rx.try_recv(), None);
}

#[test]
fn reader_stops_on_end_of_input_bad_chunk_or_failure() {
    let mut st = DepthState::new();
    st.apply(1, 50);
    assert!(matches!(st.reader_step(ReadOutcome::Bytes, &[]), ReaderStep::Stop(None)));
    assert!(matches!(st.reader_step(ReadOutcome::Failed, &[]), ReaderStep::Stop(None)));
    assert!(matches!(st.reader_step(ReadOutcome::TimedOut, &[]), ReaderStep::Idle));
    match st.reader_step(ReadOutcome::Bytes, &[b'Z']) {
        ReaderStep::Stop(Some(SocketError::Protocol(m))) => {
            assert_eq!(m, "unknown or truncated frame")
        }
        _ => panic!("a bad chunk must stop the reader with its protocol error"),
    }
    assert_eq!(st.get(1), 50);
    match st.reader_step(ReadOutcome::Bytes, &[b'D', 1, 0, 0]) {
        ReaderStep::Forward(out) => {
            assert_eq!(out.updates, vec![DepthUpdate::Event(ev(1, 0))]);
            assert!(out.server_errors.is_empty());
        }
        _ => panic!("a good chunk is forwarded"),
    }
    assert_eq!(st.get(1), 0);
}

#[test]
fn cache_answers_last_apply_since_clear() {
    let mut st = DepthState::default();
    st.apply(9, 200);
    st.apply(10, 0);
    assert_eq!(st.snapshot_all(), vec![(9, 200), (10, 0)]);
    st.clear();
    st.apply(10, 5);
    st.apply(10, 6);
    assert_eq!(st.get(9), 0);
    assert_eq!(st.get(10), 6);
    assert_eq!(st.snapshot_all(), vec![(10, 6)]);
}
