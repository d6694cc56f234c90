use gps::fields::{
    truncate_bits, CarrierPhaseSol, CharLen, FixStatus, FixType, Mode, MsgMask, Parity, ProtoMask, PsmState,
    StopBits, TMode, TModeFlags, Valid,
};
use gps::parse::ParseError;

#[test]
fn mode_word_round_trips() {
    let m = Mode { char_len: CharLen::Bit8, parity: Parity::NoParity, stop_bits: StopBits::Bit1 };
    assert_eq!(m.to_u32(), 0x8c0);
    assert_eq!(Mode::from_u32(0x8c0), m);
    assert_eq!(Mode::from_u32(0xac0).parity, Parity::NoParity);
    assert_eq!(Mode::from_u32(0x4c0).parity, Parity::Reserved);
    assert_eq!(Mode::from_u32(0x2000).stop_bits, StopBits::Bit2);
}

#[test]
fn tmode_flags_round_trip() {
    let f = TModeFlags::from_u16(0x0101);
    assert_eq!(f, TModeFlags { lla: true, mode: TMode::SurvayIn });
    assert_eq!(f.to_u16(), 0x0101);
    assert_eq!(TModeFlags::from_u16(0x0007).mode, TMode::Reserved(7));
}

#[test]
fn fix_type_and_status() {
    assert_eq!(FixType::from_u8(3), FixType::Fix3D);
    assert_eq!(FixType::from_u8(9), FixType::Reserved(9));
    assert_eq!(FixType::Time.to_u8(), 5);
    let s = FixStatus::from_u8(0b1010_0111).unwrap();
    assert_eq!(s.car_sol, CarrierPhaseSol::Fixed);
    assert!(s.head_veh_valid);
    assert_eq!(s.psm_state, PsmState::Enabled);
    assert!(s.diff_soln);
    assert!(s.gnss_fix_ok);
    assert_eq!(s.to_u8(), 0b1010_0111);
    assert_eq!(FixStatus::from_u8(0b1100_0000).unwrap_err(), ParseError::Invalid);
    assert_eq!(FixStatus::from_u8(0b0001_1000).unwrap_err(), ParseError::Invalid);
}

#[test]
fn unknown_flag_bits_are_dropped() {
    assert_eq!(truncate_bits(0xff, Valid::ALL), 0x0f);
    assert_eq!(truncate_bits(0xff, ProtoMask::ALL), 0x27);
    assert_eq!(truncate_bits(0xff, MsgMask::ALL), 0x1f);
    assert_eq!(Valid::Mag.bit(), 8);
    assert_eq!(ProtoMask::Rtcm3.bit(), 0x20);
}
