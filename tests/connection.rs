use gps::connection::{frame_message, MessageSink, MessageStream};
use gps::parse::ParseError;

#[test]
fn envelope_stream_reads_back_sink_output() {
    let msgs: Vec<Vec<u8>> = vec![vec![], vec![1, 2, 3], (0..=255u8).collect(), vec![7; 1000]];
    let mut wire = Vec::new();
    let mut sink = MessageSink::new(());
    for m in &msgs {
        assert!(sink.is_ready());
        sink.start_send(m.clone()).unwrap();
        loop {
            let chunk = sink.next_chunk();
            if chunk.is_empty() {
                break;
            }
            let n = chunk.len().min(3);
            wire.extend_from_slice(&chunk[..n]);
            sink.advance(n);
        }
    }
    let mut stream = MessageStream::new(());
    let mut out = Vec::new();
    for piece in wire.chunks(5) {
        stream.push_bytes(piece);
        while let Some(m) = stream.next_message() {
            out.push(m);
        }
    }
    assert_eq!(out, msgs);
    assert!(stream.next_message().is_none());
}

#[test]
fn envelope_frame_layout() {
    let f = frame_message(&[0xaa, 0xbb]).unwrap();
    assert_eq!(f, vec![2, 0, 0, 0, 0xaa, 0xbb]);
    let f = frame_message(&[]).unwrap();
    assert_eq!(f, vec![0, 0, 0, 0]);
}

#[test]
fn truncated_envelope_yields_nothing() {
    let mut stream = MessageStream::new(());
    stream.push_bytes(&[5, 0, 0, 0, 1, 2]);
    assert!(stream.next_message().is_none());
    stream.push_bytes(&[3, 4, 5, 9]);
    assert_eq!(stream.next_message(), Some(vec![1, 2, 3, 4, 5]));
    assert!(stream.next_message().is_none());
    assert_eq!(stream.buffer, vec![9]);
}

#[test]
fn sink_refuses_nothing_small() {
    let mut sink = MessageSink::new(());
    assert_eq!(sink.start_send(vec![1]).map_err(|e: ParseError| e), Ok(()));
    assert!(!sink.is_ready());
    assert_eq!(sink.next_chunk(), vec![1, 0, 0, 0]);
    sink.advance(4);
    assert_eq!(sink.next_chunk(), vec![1]);
    sink.advance(1);
    assert!(sink.is_ready());
}
