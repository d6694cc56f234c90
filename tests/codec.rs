use gps::cfg::{Layer, ValGet, ValSet, Value};
use gps::classes::{Ack, AckData, Inf};
use gps::message::{Cfg, Ubx, UbxPoll};
use gps::msg::GpsMsg;
use gps::nmea::Nmea;
use gps::parse::{collect, eat, read_u16, read_u32, tag, write_u16, write_u32, ErrorExt, ParseError, ResultExt};
use gps::rtcm::RtcmFrame;
use gps::server::{Server, ServerMsg};
use gps::ubx::checksum;

fn hex(s: &str) -> Vec<u8> {
    s.split_whitespace()
        .map(|h| u8::from_str_radix(h, 16).unwrap())
        .collect()
}

#[test]
fn ack_of_valset_decodes() {
    let b = hex("B5 62 05 01 02 00 06 8A 98 C1");
    let (m, n) = GpsMsg::parse_read(&b).unwrap();
    assert_eq!(n, 10);
    match m {
        GpsMsg::Ubx(Ubx::Ack(Ack::Ack(d))) => {
            assert_eq!(d, AckData { cls_id: 0x06, msg_id: 0x8a });
        }
        other => panic!("unexpected {:?}", other),
    }
}

#[test]
fn ack_with_wrong_checksum_is_rejected() {
    let b = hex("B5 62 05 01 02 00 06 8A 98 C6");
    assert_eq!(GpsMsg::parse_read(&b).unwrap_err(), ParseError::InvalidChecksum);
    assert_eq!(Ubx::parse_read(&b).unwrap_err(), ParseError::InvalidChecksum);
}

#[test]
fn fletcher_checksum_of_ack_body() {
    assert_eq!(checksum(&hex("05 01 02 00 06 8A")), (0x98, 0xc1));
    assert_eq!(checksum(&[]), (0, 0));
}

#[test]
fn nmea_sentence_round_trips() {
    let b = hex("24 47 50 47 47 41 2C 0D 0A");
    let (m, n) = GpsMsg::parse_read(&b).unwrap();
    assert_eq!(n, 9);
    assert!(matches!(m, GpsMsg::Nmea(_)));
    let mut out = Vec::new();
    m.parse_write(&mut out);
    assert_eq!(out, b);
    assert_eq!(String::from_utf8(out).unwrap(), "$GPGGA,\r\n");
}

#[test]
fn nmea_usage_stops_at_first_crlf() {
    let b = b"$A\r\n$B\r\n".to_vec();
    assert_eq!(Nmea::message_usage(&b), Some(4));
    assert_eq!(Nmea::message_usage(b"$ABC"), None);
    assert_eq!(Nmea::message_usage(b"ABC\r\n"), None);
    assert!(Nmea::contains_prefix(b"$"));
}

#[test]
fn nmea_incomplete_and_non_ascii() {
    assert_eq!(Nmea::parse_read(b"$GPGGA,").unwrap_err(), ParseError::NotEnoughData);
    assert_eq!(Nmea::parse_read(&[0x24, 0xc3, 0xa9, 0x0d, 0x0a]).unwrap_err(), ParseError::Invalid);
    assert_eq!(Nmea::parse_read(b"").unwrap_err(), ParseError::NotEnoughData);
    assert_eq!(Nmea::parse_read(b"x\r\n").unwrap_err(), ParseError::Invalid);
}

#[test]
fn rtcm_frame_message_type() {
    let b = hex("D3 00 05 3E D0 00 00 00 99 6E 27");
    let (m, n) = GpsMsg::parse_read(&b).unwrap();
    assert_eq!(n, 11);
    match m {
        GpsMsg::Rtcm3(f) => {
            assert_eq!(f.message_type(), 0x3ed);
            assert_eq!(f.as_bytes(), &b[..]);
        }
        other => panic!("unexpected {:?}", other),
    }
}

#[test]
fn rtcm_write_reproduces_bytes() {
    let b = hex("D3 00 05 3E D0 00 00 00 99 6E 27 FF");
    let (f, n) = RtcmFrame::from_bytes(&b).unwrap();
    assert_eq!(n, 11);
    let mut out = Vec::new();
    f.parse_write(&mut out);
    assert_eq!(out, &b[..11]);
    assert_eq!(RtcmFrame::message_usage(&b), Some(11));
}

#[test]
fn rtcm_any_single_byte_change_fails_crc() {
    let b = hex("D3 00 05 3E D0 00 00 00 99 6E 27");
    for i in 3..b.len() {
        for x in [0x00u8, 0x01, 0x80, 0xff] {
            if x == b[i] {
                continue;
            }
            let mut c = b.clone();
            c[i] = x;
            assert_eq!(RtcmFrame::from_bytes(&c).unwrap_err(), ParseError::InvalidChecksum, "byte {i}");
        }
    }
}

#[test]
fn rtcm_errors() {
    assert_eq!(RtcmFrame::from_bytes(&hex("D3 00")).unwrap_err(), ParseError::NotEnoughData);
    assert_eq!(RtcmFrame::from_bytes(&hex("D4 00 00 00 00 00")).unwrap_err(), ParseError::InvalidHeader);
    assert_eq!(RtcmFrame::from_bytes(&hex("D3 00 05 3E D0 00")).unwrap_err(), ParseError::NotEnoughData);
    assert!(RtcmFrame::valid_prefix(&[0xd3]));
    assert!(!RtcmFrame::valid_prefix(&[]));
    assert_eq!(RtcmFrame::message_usage(&hex("D3 00")), None);
}

#[test]
fn ubx_any_single_byte_change_fails_checksum() {
    let b = hex("B5 62 05 01 02 00 06 8A 98 C1");
    for i in [2usize, 3, 6, 7] {
        for x in 0u8..=255 {
            if x == b[i] {
                continue;
            }
            let mut c = b.clone();
            c[i] = x;
            assert_eq!(Ubx::parse_read(&c).unwrap_err(), ParseError::InvalidChecksum);
        }
    }
}

#[test]
fn server_quit_and_reset() {
    let (m, n) = GpsMsg::parse_read(&[0x25, 0x01]).unwrap();
    assert_eq!(n, 2);
    assert!(matches!(m, GpsMsg::Server(Server { msg: ServerMsg::Quit })));
    let (s, _) = Server::parse_read(&[0x25, 0x00]).unwrap();
    assert_eq!(s.msg, ServerMsg::ResetPort);
    let mut out = Vec::new();
    s.parse_write(&mut out);
    assert_eq!(out, vec![0x25, 0x00]);
    assert_eq!(Server::parse_read(&[0x25, 0x02]).unwrap_err(), ParseError::Invalid);
    assert_eq!(Server::parse_read(&[0x25]).unwrap_err(), ParseError::NotEnoughData);
    assert_eq!(Server::message_usage(&[0x25]), None);
    assert_eq!(Server::message_usage(&[0x25, 9]), Some(2));
}

#[test]
fn unknown_prefix_is_invalid() {
    assert_eq!(GpsMsg::parse_read(&[0x00, 0x01]).unwrap_err(), ParseError::Invalid);
    assert!(!GpsMsg::contains_prefix(&[0x00]));
    assert!(GpsMsg::contains_prefix(&[0xb5, 0x62]));
    assert!(!GpsMsg::contains_prefix(&[0xb5]));
}

#[test]
fn ubx_header_errors() {
    assert_eq!(Ubx::parse_read(&hex("B5 63 05 01")).unwrap_err(), ParseError::InvalidHeader);
    assert_eq!(Ubx::parse_read(&hex("B4")).unwrap_err(), ParseError::InvalidHeader);
    assert_eq!(Ubx::parse_read(&hex("B5 62 05 01 02")).unwrap_err(), ParseError::NotEnoughData);
    assert_eq!(Ubx::parse_read(&hex("B5 62 05 01 02 00 06 8A 98")).unwrap_err(), ParseError::NotEnoughData);
    assert_eq!(Ubx::message_usage(&hex("B5 62 05 01 02 00 06 8A 98")), None);
    assert_eq!(Ubx::message_usage(&hex("B5 62 05 01 02 00 06 8A 98 C1 00")), Some(10));
}

#[test]
fn ack_with_wrong_length_is_invalid_len_then_poll() {
    let b = hex("B5 62 05 01 00 00 06 17");
    assert_eq!(Ubx::parse_read(&b).unwrap_err(), ParseError::InvalidLen);
    let (m, n) = GpsMsg::parse_read(&b).unwrap();
    assert_eq!(n, 8);
    assert!(matches!(m, GpsMsg::UbxPoll(UbxPoll::Ack(0x01))));
}

#[test]
fn poll_of_nav_pvt_round_trips() {
    let b = hex("B5 62 01 07 00 00 08 19");
    let (m, n) = GpsMsg::parse_read(&b).unwrap();
    assert_eq!(n, 8);
    assert!(matches!(m, GpsMsg::UbxPoll(UbxPoll::Nav(0x07))));
    let mut out = Vec::new();
    m.parse_write(&mut out);
    assert_eq!(out, b);
}

#[test]
fn poll_errors() {
    assert_eq!(UbxPoll::parse_read(&hex("B5 62 01 07 01 00 00 08 19")).unwrap_err(), ParseError::Invalid);
    assert_eq!(UbxPoll::parse_read(&hex("B5 62 01 55 00 00 56 AB")).unwrap_err(), ParseError::Invalid);
    assert_eq!(UbxPoll::parse_read(&hex("B5 62 01 07 00 00 08 18")).unwrap_err(), ParseError::InvalidChecksum);
    let (p, _) = UbxPoll::parse_read(&hex("B5 62 27 01 00 00 28 9F")).unwrap();
    assert_eq!(p, UbxPoll::Unknown { class: 0x27, msg: 0x01, ck_a: 0x28, ck_b: 0x9f });
    assert_eq!(UbxPoll::parse_read(&hex("B5 62 27 01 00 00 00 00")).unwrap_err(), ParseError::InvalidChecksum);
}

#[test]
fn inf_notice_round_trips() {
    let b = hex("B5 62 04 02 02 00 68 69 D9 63");
    let (m, n) = GpsMsg::parse_read(&b).unwrap();
    assert_eq!(n, 10);
    match &m {
        GpsMsg::Ubx(Ubx::Inf(i)) => {
            assert!(matches!(i, Inf::Notice(_)));
            assert_eq!(i.id(), 0x02);
            assert_eq!(i.text(), &b"hi".to_vec());
        }
        other => panic!("unexpected {:?}", other),
    }
    assert_eq!(m.write_bytes(), b);
}

#[test]
fn unknown_class_keeps_checksum_bytes() {
    let b = hex("B5 62 27 03 03 00 01 02 03 33 3C");
    let (m, n) = Ubx::parse_read(&b).unwrap();
    assert_eq!(n, 11);
    match &m {
        Ubx::Unknown { class, msg, len, payload, ck_a, ck_b } => {
            assert_eq!((*class, *msg, *len), (0x27, 0x03, 3));
            assert_eq!(payload, &vec![1, 2, 3]);
            assert_eq!((*ck_a, *ck_b), (0x33, 0x3c));
        }
        other => panic!("unexpected {:?}", other),
    }
    let mut out = Vec::new();
    m.parse_write(&mut out);
    assert_eq!(out, b);
}

#[test]
fn valset_round_trips() {
    let b = hex("B5 62 06 8A 0F 00 00 01 00 00 01 00 21 30 E8 03 01 00 77 10 01 66 DC");
    let (m, n) = Ubx::parse_read(&b).unwrap();
    assert_eq!(n, b.len());
    match &m {
        Ubx::Cfg(Cfg::ValSet(v)) => {
            assert_eq!(v.layers, 1);
            assert_eq!(v.values.len(), 2);
            assert_eq!(v.values[0].key, 0x30210001);
            assert_eq!(v.values[0].data, vec![0xe8, 0x03]);
            assert_eq!(v.values[1].key, 0x10770001);
            assert_eq!(v.values[1].data, vec![0x01]);
        }
        other => panic!("unexpected {:?}", other),
    }
    let mut out = Vec::new();
    m.parse_write(&mut out);
    assert_eq!(out, b);
}

#[test]
fn valset_payload_drops_unknown_layer_bits() {
    let p = hex("00 F9 00 00");
    let v = ValSet::from_bytes(&p).unwrap();
    assert_eq!(v.layers, 1);
    assert!(v.values.is_empty());
    assert_eq!(ValSet::from_bytes(&hex("01 01 00 00")).unwrap_err(), ParseError::Invalid);
    assert_eq!(ValSet::from_bytes(&hex("00 01 00 00 01 00 21")).unwrap_err(), ParseError::Invalid);
    assert_eq!(ValSet::from_bytes(&hex("00 01 00 00 01 00 00 00")).unwrap_err(), ParseError::Invalid);
}

#[test]
fn valget_request_and_response() {
    let req = hex("B5 62 06 8B 08 00 00 00 00 00 01 00 21 30 EB 07");
    let (m, _) = Ubx::parse_read(&req).unwrap();
    match &m {
        Ubx::Cfg(Cfg::ValGet(ValGet::Request { layer, keys, .. })) => {
            assert_eq!(*layer, Layer::Ram);
            assert_eq!(keys, &vec![0x30210001]);
        }
        other => panic!("unexpected {:?}", other),
    }
    let resp = hex("B5 62 06 8B 0A 00 01 00 00 00 01 00 21 30 E8 03 D9 D2");
    let (m, _) = Ubx::parse_read(&resp).unwrap();
    assert!(matches!(m, Ubx::Cfg(Cfg::ValGet(ValGet::Response { .. }))));
    assert_eq!(ValGet::from_bytes(&hex("00 03 00 00")).unwrap_err(), ParseError::Invalid);
    assert_eq!(ValGet::from_bytes(&hex("02 00 00 00")).unwrap_err(), ParseError::Invalid);
    assert_eq!(ValGet::from_bytes(&hex("00 00 00 00 01")).unwrap_err(), ParseError::Invalid);
    assert_eq!(Layer::from_u8(7).unwrap(), Layer::Default);
    assert_eq!(Layer::from_u8(3).unwrap_err(), ParseError::Invalid);
}

#[test]
fn ack_payload_codec() {
    let a = Ack::from_bytes(0x00, &[0x06, 0x8b]).unwrap();
    assert!(matches!(a, Ack::Nak(AckData { cls_id: 0x06, msg_id: 0x8b })));
    let mut out = Vec::new();
    a.write_payload(&mut out);
    assert_eq!(out, vec![0x06, 0x8b]);
    let mut out = Vec::new();
    a.write_bytes(&mut out);
    assert_eq!(out, vec![0x00, 0x02, 0x00, 0x06, 0x8b]);
    assert_eq!(Ack::from_bytes(0x01, &[0x06]).unwrap_err(), ParseError::InvalidLen);
    assert!(matches!(Ack::from_bytes(0x09, &[1, 2, 3]).unwrap(), Ack::Unknown { id: 0x09, .. }));
}

#[test]
fn value_sizes_follow_key() {
    assert_eq!(gps::cfg::value_size_of(0x10770001), 1);
    assert_eq!(gps::cfg::value_size_of(0x20110021), 1);
    assert_eq!(gps::cfg::value_size_of(0x30210001), 2);
    assert_eq!(gps::cfg::value_size_of(0x40030011), 4);
    assert_eq!(gps::cfg::value_size_of(0x50030011), 8);
    assert_eq!(gps::cfg::value_size_of(0x00030011), 0);
}

#[test]
fn gps_msg_round_trip_for_each_variant() {
    let samples = vec![
        hex("B5 62 05 01 02 00 06 8A 98 C1"),
        hex("B5 62 01 07 00 00 08 19"),
        hex("D3 00 05 3E D0 00 00 00 99 6E 27"),
        hex("24 47 50 47 47 41 2C 0D 0A"),
        vec![0x25, 0x01],
        hex("B5 62 27 03 03 00 01 02 03 33 3C"),
    ];
    for b in samples {
        let (m, n) = GpsMsg::parse_read(&b).unwrap();
        assert_eq!(n, b.len());
        let out = m.write_bytes();
        assert_eq!(out, b);
        let (again, n2) = GpsMsg::parse_read(&out).unwrap();
        assert_eq!(n2, n);
        assert_eq!(again.write_bytes(), out);
    }
}

#[test]
fn message_usage_dispatch() {
    assert_eq!(GpsMsg::message_usage(&hex("B5 62 05 01 02 00 06 8A 98 C1")), Some(10));
    assert_eq!(GpsMsg::message_usage(&hex("D3 00 05 3E D0 00 00 00 99 6E 27")), Some(11));
    assert_eq!(GpsMsg::message_usage(b"$X\r\nrest"), Some(4));
    assert_eq!(GpsMsg::message_usage(&[0x25, 0x00, 0x00]), Some(2));
    assert_eq!(GpsMsg::message_usage(&[0x25]), None);
    assert_eq!(GpsMsg::message_usage(&[0x11, 0x22]), None);
}

#[test]
fn into_server_splits_variants() {
    let m = GpsMsg::Server(Server { msg: ServerMsg::Quit });
    assert_eq!(m.into_server().unwrap().msg, ServerMsg::Quit);
    let (n, _) = GpsMsg::parse_read(b"$A\r\n").unwrap();
    assert!(n.into_server().is_err());
}

#[test]
fn byte_primitives() {
    let b = [0x34u8, 0x12, 0x78, 0x56];
    assert_eq!(read_u16(&b, 0), 0x1234);
    assert_eq!(read_u32(&b, 0), 0x56781234);
    let mut out = Vec::new();
    write_u16(0xabcd, &mut out);
    write_u32(0x01020304, &mut out);
    assert_eq!(out, vec![0xcd, 0xab, 0x04, 0x03, 0x02, 0x01]);
    assert_eq!(tag(&b, 0, 0x34).unwrap(), 1);
    assert_eq!(tag(&b, 0, 0x35).unwrap_err(), ParseError::Invalid);
    assert_eq!(tag(&b, 4, 0x35).unwrap_err(), ParseError::NotEnoughData);
    assert_eq!(eat(&b, 1, 3).unwrap(), 4);
    assert_eq!(eat(&b, 1, 4).unwrap_err(), ParseError::NotEnoughData);
    assert_eq!(collect(&b, 1, 2).unwrap(), (3, vec![0x12, 0x78]));
    assert_eq!(collect(&b, 3, 2).unwrap_err(), ParseError::NotEnoughData);
}

#[test]
fn error_helpers() {
    assert!(ParseError::NotEnoughData.not_enough_data());
    assert!(!ParseError::Invalid.not_enough_data());
    let r: Result<u8, ParseError> = Err(ParseError::Invalid);
    assert_eq!(r.map_invalid(ParseError::InvalidLen), Err(ParseError::InvalidLen));
    let r: Result<u8, ParseError> = Err(ParseError::InvalidChecksum);
    assert_eq!(r.map_invalid(ParseError::InvalidLen), Err(ParseError::InvalidChecksum));
    let r: Result<u8, ParseError> = Ok(3);
    assert_eq!(r.map_invalid(ParseError::InvalidLen), Ok(3));
}

#[test]
fn valset_written_by_hand_matches_frame() {
    let v = ValSet {
        version: 0,
        layers: 1,
        res1: [0, 0],
        values: vec![Value { key: 0x30210001, data: vec![0xe8, 0x03] }],
    };
    let m = Ubx::Cfg(Cfg::ValSet(v));
    let mut out = Vec::new();
    m.parse_write(&mut out);
    let (back, n) = Ubx::parse_read(&out).unwrap();
    assert_eq!(n, out.len());
    assert_eq!((back.class(), back.id()), (0x06, 0x8a));
}

#[test]
fn class_writers_emit_id_length_payload() {
    let mut out = Vec::new();
    Ack::Ack(AckData { cls_id: 0x06, msg_id: 0x8a }).write_bytes(&mut out);
    assert_eq!(out, vec![0x01, 0x02, 0x00, 0x06, 0x8a]);
    let mut out = Vec::new();
    Inf::Notice(b"hi".to_vec()).write_bytes(&mut out);
    assert_eq!(out, vec![0x02, 0x02, 0x00, 0x68, 0x69]);
    let mut b = hex("b5 62 06 71 28 00");
    b.extend_from_slice(&[0u8; 40]);
    b.extend_from_slice(&[0x9f, 0x93]);
    let (m, _) = Ubx::parse_read(&b).unwrap();
    match m {
        Ubx::Cfg(c) => {
            let mut out = Vec::new();
            c.write_bytes(&mut out);
            let mut want = vec![0x71, 0x28, 0x00];
            want.extend_from_slice(&[0u8; 40]);
            assert_eq!(out, want);
        }
        other => panic!("unexpected {:?}", other),
    }
}

#[test]
fn dispatch_reports_checksum_error() {
    let b = hex("B5 62 05 01 02 00 06 8A 98 C6");
    assert_eq!(GpsMsg::parse_read(&b).unwrap_err(), ParseError::InvalidChecksum);
}

#[test]
fn u64_codec() {
    let mut out = Vec::new();
    gps::parse::write_u64(0x0102030405060708, &mut out);
    assert_eq!(out, vec![8, 7, 6, 5, 4, 3, 2, 1]);
    assert_eq!(gps::parse::read_u64(&out, 0), 0x0102030405060708);
}

#[test]
fn value_from_integer_uses_key_size() {
    let v = Value::from_integer(0x30210001, 1000).unwrap();
    assert_eq!(v.data, vec![0xe8, 0x03]);
    let v = Value::from_integer(0x20030003, (-2i64) as u64).unwrap();
    assert_eq!(v.data, vec![0xfe]);
    let v = Value::from_integer(0x40520001, 115200).unwrap();
    assert_eq!(v.data, vec![0x00, 0xc2, 0x01, 0x00]);
    assert!(Value::from_integer(0x00030011, 1).is_none());
}
