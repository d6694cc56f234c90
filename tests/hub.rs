use gps::connection::MessageSink;
use gps::hub::{find_message, handle_incoming, take_frames, HubAction};
use gps::ntrip::{content_type_ok, skip_to_preamble, take_rtcm_frames};
use gps::outgoing::{OutgoingAction, OutgoingConnection, OutgoingConnectionState, OutgoingEvent, BACKOFF_MS};
use gps::pool::ConnectionPool;
use gps::VecExt;

fn hex(s: &str) -> Vec<u8> {
    s.split_whitespace()
        .map(|h| u8::from_str_radix(h, 16).unwrap())
        .collect()
}

/// Drains a sink that just accepted a payload, as a transport taking `step` bytes per write would.
fn drain(sink: &mut MessageSink<()>, step: usize) -> Vec<u8> {
    let mut wire = Vec::new();
    loop {
        let chunk = sink.next_chunk();
        if chunk.is_empty() {
            return wire;
        }
        let n = step.min(chunk.len());
        wire.extend_from_slice(&chunk[..n]);
        sink.advance(n);
    }
}

#[test]
fn broadcast_reaches_only_peers_present() {
    let mut pool = ConnectionPool::new();
    let first = vec![0xaa; 100];
    pool.start_send(first);
    assert!(pool.is_ready());
    assert!(pool.target().is_none());

    let a = pool.add_peer().unwrap();
    let b = pool.add_peer().unwrap();
    let mut sinks = vec![(a, MessageSink::new(()), Vec::new()), (b, MessageSink::new(()), Vec::new())];

    let second: Vec<u8> = (0..100u8).collect();
    pool.start_send(second.clone());
    while let Some((id, data)) = pool.target() {
        let data = data.clone();
        let entry = sinks.iter_mut().find(|s| s.0 == id).unwrap();
        entry.1.start_send(data).unwrap();
        let bytes = drain(&mut entry.1, 7);
        entry.2.extend_from_slice(&bytes);
        pool.on_ready(true);
    }
    let mut expected = vec![0x64, 0x00, 0x00, 0x00];
    expected.extend_from_slice(&second);
    for (_, _, wire) in &sinks {
        assert_eq!(wire, &expected);
    }
    assert!(pool.is_ready());
}

#[test]
fn broadcast_drops_failing_peer() {
    let mut pool = ConnectionPool::new();
    let a = pool.add_peer().unwrap();
    let b = pool.add_peer().unwrap();
    let c = pool.add_peer().unwrap();
    pool.start_send(vec![1, 2, 3]);
    let mut served = Vec::new();
    while let Some((id, _)) = pool.target() {
        if id == b {
            pool.on_ready(false);
        } else {
            served.push(id);
            pool.on_ready(true);
        }
    }
    served.sort();
    assert_eq!(served, vec![a, c]);
    assert_eq!(pool.peers.len(), 2);
    assert!(!pool.peers.contains(&b));
}

#[test]
fn peer_removed_mid_broadcast_is_neither_skipped_nor_repeated() {
    let mut pool = ConnectionPool::new();
    let ids: Vec<u64> = (0..4).map(|_| pool.add_peer().unwrap()).collect();
    pool.start_send(vec![9]);
    let mut served = Vec::new();
    let (first, _) = pool.target().unwrap();
    served.push(first);
    pool.on_ready(true);
    assert!(pool.remove_peer(ids[0]));
    assert!(!pool.remove_peer(ids[0]));
    while let Some((id, _)) = pool.target() {
        served.push(id);
        pool.on_ready(true);
    }
    served.sort();
    let mut want = vec![ids[1], ids[2], ids[3]];
    want.sort();
    assert_eq!(served, want);
}

#[test]
fn quit_frame_ends_the_loop() {
    assert_eq!(handle_incoming(&[0x25, 0x01]), HubAction::Quit);
    assert_eq!(handle_incoming(&[0x25, 0x00]), HubAction::ResetPort);
    assert_eq!(handle_incoming(&[0x25, 0x02]), HubAction::WriteSerial);
    assert_eq!(handle_incoming(&hex("B5 62 05 01 02 00 06 8A 98 C1")), HubAction::WriteSerial);
    assert_eq!(handle_incoming(&[]), HubAction::WriteSerial);
}

#[test]
fn resync_yields_messages_between_garbage() {
    let ack = hex("B5 62 05 01 02 00 06 8A 98 C1");
    let rtcm = hex("D3 00 05 3E D0 00 00 00 99 6E 27");
    let nmea = b"$GPGGA,\r\n".to_vec();
    let mut stream = vec![0x00, 0x11, 0x22];
    stream.extend_from_slice(&ack);
    stream.extend_from_slice(&[0x99, 0xb5, 0x00]);
    stream.extend_from_slice(&rtcm);
    stream.extend_from_slice(&nmea);
    stream.extend_from_slice(&[0x01]);
    stream.extend_from_slice(&[0x25, 0x01]);
    let frames = take_frames(&mut stream);
    assert_eq!(frames, vec![ack, rtcm, nmea, vec![0x25, 0x01]]);
    assert!(stream.is_empty());
}

#[test]
fn partial_message_waits_for_more_bytes() {
    let ack = hex("B5 62 05 01 02 00 06 8A 98 C1");
    let mut acc = vec![0x42];
    acc.extend_from_slice(&ack[..6]);
    let frames = take_frames(&mut acc);
    assert!(frames.is_empty());
    assert_eq!(acc, ack[..6].to_vec());
    acc.extend_from_slice(&ack[6..]);
    assert_eq!(take_frames(&mut acc), vec![ack]);
    assert!(acc.is_empty());
}

#[test]
fn find_message_edge_cases() {
    let mut one = vec![0x42];
    find_message(&mut one);
    assert_eq!(one, vec![0x42]);
    let mut none = vec![1, 2, 3, 4];
    find_message(&mut none);
    assert!(none.is_empty());
    let mut at = vec![1, 2, 0x24, 3];
    find_message(&mut at);
    assert_eq!(at, vec![0x24, 3]);
}

#[test]
fn vec_shift_drops_front() {
    let mut v = vec![1u8, 2, 3, 4];
    v.shift(2);
    assert_eq!(v, vec![3, 4]);
    v.shift(0);
    assert_eq!(v, vec![3, 4]);
}

#[test]
fn ntrip_body_framing() {
    assert!(content_type_ok(b"gnss/data"));
    assert!(!content_type_ok(b"text/html"));
    assert!(!content_type_ok(b"gnss/dat"));
    let rtcm = hex("D3 00 05 3E D0 00 00 00 99 6E 27");
    let mut body = vec![0x10, 0x20, 0x30];
    body.extend_from_slice(&rtcm);
    body.extend_from_slice(&rtcm[..4]);
    let frames = take_rtcm_frames(&mut body);
    assert_eq!(frames, vec![rtcm.clone()]);
    assert_eq!(body, rtcm[..4].to_vec());
    let mut junk = vec![1, 2, 3, 0xd3];
    assert_eq!(skip_to_preamble(&mut junk), 3);
    assert_eq!(junk, vec![0xd3]);
    let mut short = vec![1, 2];
    assert_eq!(skip_to_preamble(&mut short), 0);
}

#[test]
fn outgoing_retries_until_reachable() {
    let mut c = OutgoingConnection::new(Some("127.0.0.1:9165".to_string()));
    assert_eq!(c.on_event(OutgoingEvent::Poll), OutgoingAction::Connect);
    assert_eq!(c.on_event(OutgoingEvent::ConnectFailed), OutgoingAction::Sleep(BACKOFF_MS));
    assert_eq!(BACKOFF_MS, 500);
    assert_eq!(c.on_event(OutgoingEvent::Message), OutgoingAction::Wait);
    assert_eq!(c.on_event(OutgoingEvent::TimerElapsed), OutgoingAction::Wait);
    assert_eq!(c.connection, OutgoingConnectionState::Start);
    assert_eq!(c.on_event(OutgoingEvent::Poll), OutgoingAction::Connect);
    assert!(!c.try_send_message());
    assert_eq!(c.on_event(OutgoingEvent::ConnectOk), OutgoingAction::Wait);
    assert!(c.try_send_message());
    assert_eq!(c.on_event(OutgoingEvent::Message), OutgoingAction::Yield);
    assert_eq!(c.on_event(OutgoingEvent::WriteError), OutgoingAction::Sleep(500));
    assert_eq!(c.connection, OutgoingConnectionState::Waiting);
}

#[test]
fn outgoing_without_address_parks() {
    let mut c = OutgoingConnection::new(None);
    assert_eq!(c.on_event(OutgoingEvent::Poll), OutgoingAction::Park);
    assert_eq!(c.connection, OutgoingConnectionState::Start);
    assert_eq!(c.on_event(OutgoingEvent::Poll), OutgoingAction::Park);
}

#[test]
fn sync_byte_split_across_reads_is_kept() {
    let ack = hex("B5 62 05 01 02 00 06 8A 98 C1");
    let mut acc = vec![0x00];
    acc.push(ack[0]);
    assert!(take_frames(&mut acc).is_empty());
    assert_eq!(acc, vec![0xb5]);
    acc.extend_from_slice(&ack[1..]);
    assert_eq!(take_frames(&mut acc), vec![ack]);
    assert!(acc.is_empty());
}

#[test]
fn stream_in_every_chunking_yields_the_messages() {
    let ack = hex("B5 62 05 01 02 00 06 8A 98 C1");
    let rtcm = hex("D3 00 05 3E D0 00 00 00 99 6E 27");
    let mut stream = vec![0x11, 0xb5];
    stream.extend_from_slice(&ack);
    stream.extend_from_slice(&[0x00]);
    stream.extend_from_slice(&rtcm);
    stream.extend_from_slice(b"$X\r\n");
    for size in 1..stream.len() {
        let mut acc = Vec::new();
        let mut got = Vec::new();
        for chunk in stream.chunks(size) {
            acc.extend_from_slice(chunk);
            got.extend(take_frames(&mut acc));
        }
        assert_eq!(got, vec![ack.clone(), rtcm.clone(), b"$X\r\n".to_vec()], "chunk size {size}");
    }
}
