use gps::cfg::{Layer, Value};
use gps::config::{classify_ack, GetTransaction, SetTransaction, TxnState};

fn hex(s: &str) -> Vec<u8> {
    s.split_whitespace()
        .map(|h| u8::from_str_radix(h, 16).unwrap())
        .collect()
}

fn two_values() -> Vec<Value> {
    vec![
        Value { key: 0x30210001, data: vec![0xe8, 0x03] },
        Value { key: 0x10770001, data: vec![0x01] },
    ]
}

#[test]
fn nak_aborts_set() {
    let mut t = SetTransaction::new(two_values(), 1);
    let first = t.next_request().unwrap();
    assert_eq!(first, hex("B5 62 06 8A 0F 00 00 01 00 00 01 00 21 30 E8 03 01 00 77 10 01 66 DC"));
    assert_eq!(t.state, TxnState::Awaiting { cls: 0x06, id: 0x8a });
    let st = t.on_message(&hex("B5 62 05 00 02 00 06 8A 97 BC"));
    assert_eq!(st, TxnState::Failed);
    assert!(t.next_request().is_none());
    assert!(!t.is_done());
}

#[test]
fn ack_completes_set_and_other_traffic_does_not() {
    let mut t = SetTransaction::new(two_values(), 1);
    t.next_request().unwrap();
    assert_eq!(t.on_message(b"$GPGGA,\r\n"), TxnState::Awaiting { cls: 0x06, id: 0x8a });
    assert_eq!(t.on_message(&hex("B5 62 05 01 02 00 06 8A 98 C6")), TxnState::Awaiting { cls: 0x06, id: 0x8a });
    assert!(t.next_request().is_none());
    assert_eq!(t.on_message(&hex("B5 62 05 01 02 00 06 8A 98 C1")), TxnState::Idle);
    assert!(t.next_request().is_none());
    assert!(t.is_done());
}

#[test]
fn set_is_sent_in_chunks_of_64() {
    let values: Vec<Value> = (0..130u32).map(|i| Value { key: 0x10770000 + i, data: vec![1] }).collect();
    let mut t = SetTransaction::new(values, 1);
    let ack = hex("B5 62 05 01 02 00 06 8A 98 C1");
    let mut lens = Vec::new();
    while let Some(frame) = t.next_request() {
        lens.push(u16::from_le_bytes([frame[4], frame[5]]));
        t.on_message(&ack);
    }
    assert_eq!(lens, vec![4 + 64 * 5, 4 + 64 * 5, 4 + 2 * 5]);
    assert!(t.is_done());
}

#[test]
fn close_while_waiting_fails() {
    let mut t = SetTransaction::new(two_values(), 1);
    t.next_request().unwrap();
    t.on_close();
    assert_eq!(t.state, TxnState::Failed);
}

#[test]
fn get_reads_values() {
    let mut t = GetTransaction::new(vec![0x30210001], Layer::Ram);
    let req = t.next_request().unwrap();
    assert_eq!(req, hex("B5 62 06 8B 08 00 00 00 00 00 01 00 21 30 EB 07"));
    assert!(t.on_message(&hex("B5 62 05 01 02 00 06 8A 98 C1")).is_none());
    let vals = t.on_message(&hex("B5 62 06 8B 0A 00 01 00 00 00 01 00 21 30 E8 03 D9 D2")).unwrap();
    assert_eq!(vals.len(), 1);
    assert_eq!(vals[0].key, 0x30210001);
    assert_eq!(vals[0].data, vec![0xe8, 0x03]);
    assert_eq!(t.state, TxnState::Idle);
    assert!(t.is_done());
}

#[test]
fn classify_ack_reads_pairs() {
    assert_eq!(classify_ack(&hex("B5 62 05 01 02 00 06 8A 98 C1")), Some((true, 0x06, 0x8a)));
    assert_eq!(classify_ack(&hex("B5 62 05 00 02 00 06 8A 97 BC")), Some((false, 0x06, 0x8a)));
    assert_eq!(classify_ack(&[0x25, 0x01]), None);
}
