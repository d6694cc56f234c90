use gps::fields::{CarrierPhaseSol, FixType, PsmState};
use gps::message::Ubx;
use gps::msg::GpsMsg;
use gps::nav::{Nav, Rxm};
use gps::parse::ParseError;

fn hex(s: &str) -> Vec<u8> {
    s.split_whitespace()
        .map(|h| u8::from_str_radix(h, 16).unwrap())
        .collect()
}

const PVT: &str = "b5 62 01 07 5c 00 40 e2 01 00 e8 07 05 11 0c 1e 2d 37 32 00 00 00 50 fb ff ff 03 a7 00 0c \
    79 29 ed ff c0 46 b2 1e 90 d0 03 00 40 0d 03 00 dc 05 00 00 c4 09 00 00 f6 ff ff ff 14 00 00 00 \
    e2 ff ff ff 28 00 00 00 40 54 89 00 64 00 00 00 c8 00 00 00 96 00 00 00 00 00 00 00 0c fe ff ff \
    e7 ff 2c 01 18 db";

#[test]
fn nav_pvt_fields() {
    let b = hex(PVT);
    let (m, n) = Ubx::parse_read(&b).unwrap();
    assert_eq!(n, b.len());
    match &m {
        Ubx::Nav(Nav::Pvt(p)) => {
            assert_eq!(p.i_tow, 123456);
            assert_eq!((p.year, p.month, p.day), (2024, 5, 17));
            assert_eq!((p.hour, p.min, p.sec), (12, 30, 45));
            assert_eq!(p.nano, -1200);
            assert_eq!(p.fix_type(), FixType::Fix3D);
            let st = p.fix_status().unwrap();
            assert_eq!(st.car_sol, CarrierPhaseSol::Fixed);
            assert_eq!(st.psm_state, PsmState::Enabled);
            assert_eq!(p.numsv, 12);
            assert_eq!(p.lon, -1234567);
            assert_eq!(p.lat, 515000000);
            assert_eq!(p.vel_n, -10);
            assert_eq!(p.head_veh, -500);
            assert_eq!(p.mag_dec, -25);
            assert_eq!(p.mag_acc, 300);
            assert_eq!(p.valid_flags(), 0x07);
        }
        other => panic!("unexpected {:?}", other),
    }
    let mut out = Vec::new();
    m.parse_write(&mut out);
    assert_eq!(out, b);
}

#[test]
fn nav_pvt_wrong_length_then_poll() {
    let b = hex("B5 62 01 07 00 00 08 19");
    assert_eq!(Ubx::parse_read(&b).unwrap_err(), ParseError::InvalidLen);
    assert!(matches!(GpsMsg::parse_read(&b).unwrap().0, GpsMsg::UbxPoll(_)));
}

#[test]
fn rxm_rtcm_status() {
    let b = hex("b5 62 02 32 08 00 02 01 00 00 00 00 ed 03 2f 82");
    let (m, _) = Ubx::parse_read(&b).unwrap();
    match &m {
        Ubx::Rxm(Rxm::Rtcm(r)) => {
            assert_eq!(r.version, 2);
            assert_eq!(r.flags, 1);
            assert_eq!(r.msg_type, 1005);
        }
        other => panic!("unexpected {:?}", other),
    }
    let mut out = Vec::new();
    m.parse_write(&mut out);
    assert_eq!(out, b);
}

const COMMS: &str = "b5 62 0a 36 30 00 00 01 00 00 00 01 05 ff 01 01 03 00 e8 03 00 00 05 09 00 00 d0 07 00 00 \
    01 02 00 00 0a 00 14 00 1e 00 28 00 00 00 00 00 00 00 00 00 07 00 00 00 b9 cd";

#[test]
fn mon_comms_blocks() {
    let b = hex(COMMS);
    let (m, n) = Ubx::parse_read(&b).unwrap();
    assert_eq!(n, b.len());
    match &m {
        Ubx::Mon(gps::mon::Mon::Comms(c)) => {
            assert_eq!(c.n_ports, 1);
            assert_eq!(c.prot_ids, [0, 1, 5, 0xff]);
            assert_eq!(c.blocks.len(), 1);
            let blk = &c.blocks[0];
            assert_eq!(blk.port_id, 0x0101);
            assert_eq!(blk.tx_bytes, 1000);
            assert_eq!(blk.rx_bytes, 2000);
            assert_eq!(blk.msgs, [10, 20, 30, 40]);
            assert_eq!(blk.skipped, 7);
        }
        other => panic!("unexpected {:?}", other),
    }
    let mut out = Vec::new();
    m.parse_write(&mut out);
    assert_eq!(out, b);
}

#[test]
fn mon_comms_port_count_must_match_length() {
    let b = hex("b5 62 0a 36 30 00 00 02 00 00 00 01 05 ff 01 01 03 00 e8 03 00 00 05 09 00 00 d0 07 00 00 \
        01 02 00 00 0a 00 14 00 1e 00 28 00 00 00 00 00 00 00 00 00 07 00 00 00 ba fc");
    assert_eq!(Ubx::parse_read(&b).unwrap_err(), ParseError::Invalid);
}

#[test]
fn cfg_tmode3_fields() {
    let b = hex("b5 62 06 71 28 00 00 00 02 01 64 00 00 00 38 ff ff ff 2c 01 00 00 01 fe 03 00 88 13 00 00 \
        3c 00 00 00 58 1b 00 00 00 00 00 00 00 00 00 00 b4 e3");
    let (m, _) = Ubx::parse_read(&b).unwrap();
    match &m {
        Ubx::Cfg(gps::message::Cfg::TMode3(t)) => {
            assert_eq!(t.ecefy_or_lon, -200);
            assert_eq!(t.ecefy_or_lon_hp, -2);
            assert_eq!(t.svin_min_dur, 60);
            let f = t.mode_flags();
            assert!(f.lla);
            assert_eq!(f.mode, gps::fields::TMode::FixedMode);
        }
        other => panic!("unexpected {:?}", other),
    }
    let mut out = Vec::new();
    m.parse_write(&mut out);
    assert_eq!(out, b);
}

#[test]
fn cfg_prt_uart_and_poll() {
    let b = hex("b5 62 06 00 14 00 01 00 00 00 c0 08 00 00 00 c2 01 00 07 00 03 00 00 00 00 00 b0 7e");
    let (m, _) = Ubx::parse_read(&b).unwrap();
    match &m {
        Ubx::Cfg(gps::message::Cfg::Prt(p)) => {
            assert_eq!(p.port_id, 1);
            assert_eq!(p.baud_rate, 115200);
            let mode = p.port_mode();
            assert_eq!(mode.char_len, gps::fields::CharLen::Bit8);
            assert_eq!(mode.parity, gps::fields::Parity::NoParity);
            assert_eq!(mode.stop_bits, gps::fields::StopBits::Bit1);
            assert_eq!(p.in_proto_mask, 7);
        }
        other => panic!("unexpected {:?}", other),
    }
    let mut out = Vec::new();
    m.parse_write(&mut out);
    assert_eq!(out, b);
    let poll = hex("b5 62 06 00 01 00 01 08 22");
    let (m, _) = Ubx::parse_read(&poll).unwrap();
    assert!(matches!(m, Ubx::Cfg(gps::message::Cfg::PrtPoll { port_id: 1 })));
    let bad = hex("b5 62 06 00 02 00 01 01 0a 2f");
    assert_eq!(Ubx::parse_read(&bad).unwrap_err(), ParseError::InvalidLen);
}

#[test]
fn cfg_ant_cfg_and_valdel() {
    let ant = hex("b5 62 06 13 04 00 1b 00 8b 00 c3 4f");
    let (m, _) = Ubx::parse_read(&ant).unwrap();
    assert!(matches!(&m, Ubx::Cfg(gps::message::Cfg::Ant(a)) if a.flags == 0x1b && a.pins == 0x8b));
    let cfg = hex("b5 62 06 09 0d 00 00 00 00 00 ff ff 00 00 00 00 00 00 17 31 bf");
    let (m, _) = Ubx::parse_read(&cfg).unwrap();
    match &m {
        Ubx::Cfg(gps::message::Cfg::Cfg(c)) => {
            assert_eq!(c.masks.save_mask, 0xffff);
            assert_eq!(c.dev_mask, Some(0x17));
        }
        other => panic!("unexpected {:?}", other),
    }
    let mut out = Vec::new();
    m.parse_write(&mut out);
    assert_eq!(out, cfg);
    let del = hex("b5 62 06 8c 08 00 00 81 00 00 01 00 21 30 6d 99");
    let (m, _) = Ubx::parse_read(&del).unwrap();
    match &m {
        Ubx::Cfg(gps::message::Cfg::ValDel(v)) => {
            assert_eq!(v.layers, 1);
            assert_eq!(v.keys, vec![0x30210001]);
        }
        other => panic!("unexpected {:?}", other),
    }
}

#[test]
fn nav_sat_lists_satellites() {
    let b = hex("b5 62 01 35 20 00 e8 03 00 00 01 02 00 00 00 05 28 f6 0e 01 fd ff 1f 00 00 00 \
        02 0b 23 2d 5a 00 07 00 08 00 00 00 57 d5");
    let (m, _) = Ubx::parse_read(&b).unwrap();
    match &m {
        Ubx::Nav(Nav::Sat(s)) => {
            assert_eq!(s.i_tow, 1000);
            assert_eq!(s.num_svs, 2);
            assert_eq!(s.sats.len(), 2);
            assert_eq!((s.sats[0].sv_id, s.sats[0].elev, s.sats[0].azim), (5, -10, 270));
            assert_eq!((s.sats[1].gnss_id, s.sats[1].cno, s.sats[1].pr_res), (2, 35, 7));
        }
        other => panic!("unexpected {:?}", other),
    }
    let mut out = Vec::new();
    m.parse_write(&mut out);
    assert_eq!(out, b);
}

#[test]
fn nav_timegps_fields() {
    let b = hex("b5 62 01 20 10 00 88 13 00 00 50 fb ff ff fc 08 12 07 14 00 00 00 46 9e");
    let (m, _) = Ubx::parse_read(&b).unwrap();
    match &m {
        Ubx::Nav(Nav::TimeGps(t)) => {
            assert_eq!(t.ftow, -1200);
            assert_eq!(t.week, 2300);
            assert_eq!(t.leap_s, 18);
        }
        other => panic!("unexpected {:?}", other),
    }
}

#[test]
fn mon_io_and_rf() {
    let io = hex("b5 62 0a 02 28 00 64 00 00 00 c8 00 00 00 01 00 02 00 03 00 04 00 00 00 00 00 07 00 00 00 \
        08 00 00 00 00 00 00 00 00 00 00 00 00 00 00 00 79 82");
    let (m, _) = Ubx::parse_read(&io).unwrap();
    match &m {
        Ubx::Mon(gps::mon::Mon::Io(bs)) => {
            assert_eq!(bs.len(), 2);
            assert_eq!((bs[0].rx_bytes, bs[0].tx_bytes, bs[0].break_cond), (100, 200, 4));
            assert_eq!(bs[1].tx_bytes, 8);
        }
        other => panic!("unexpected {:?}", other),
    }
    let mut out = Vec::new();
    m.parse_write(&mut out);
    assert_eq!(out, io);
    let rf = hex("b5 62 0a 38 1c 00 00 01 00 00 00 00 02 01 00 00 00 00 00 00 00 00 5a 00 b8 0b 0c fb 64 06 \
        65 00 00 00 55 be");
    let (m, _) = Ubx::parse_read(&rf).unwrap();
    match &m {
        Ubx::Mon(gps::mon::Mon::Rf(r)) => {
            assert_eq!(r.n_blocks, 1);
            assert_eq!(r.blocks[0].ant_status, 2);
            assert_eq!(r.blocks[0].agc_cnt, 3000);
            assert_eq!(r.blocks[0].ofs_i, -5);
        }
        other => panic!("unexpected {:?}", other),
    }
}
