//! Packed fields inside UBX payloads: serial port mode words, time mode
//! flags, fix type and status bytes, and the bit-flag sets.
use vstd::prelude::*;

use crate::parse::ParseError;

verus! {

#[derive(Debug, Clone, Copy, PartialEq, Eq, Structural)]
pub enum StopBits {
    Bit1,
    Bit1_5,
    Bit2,
    Bit0_5,
}

#[derive(Debug, Clone, Copy, PartialEq, Eq, Structural)]
pub enum Parity {
    Even,
    Odd,
    NoParity,
    Reserved,
}

#[derive(Debug, Clone, Copy, PartialEq, Eq, Structural)]
pub enum CharLen {
    Bit5,
    Bit6,
    Bit7,
    Bit8,
}

/// Serial port mode: character length in bits 6..7, parity in bits 9..11,
/// stop bits in bits 12..13.
#[derive(Debug, Clone, Copy, PartialEq, Eq, Structural)]
pub struct Mode {
    pub char_len: CharLen,
    pub parity: Parity,
    pub stop_bits: StopBits,
}

pub open spec fn char_len_code(c: CharLen) -> u32 {
    match c {
        CharLen::Bit5 => 0,
        CharLen::Bit6 => 1,
        CharLen::Bit7 => 2,
        CharLen::Bit8 => 3,
    }
}

pub open spec fn stop_bits_code(s: StopBits) -> u32 {
    match s {
        StopBits::Bit1 => 0,
        StopBits::Bit1_5 => 1,
        StopBits::Bit2 => 2,
        StopBits::Bit0_5 => 3,
    }
}

/// Parity as written: even 000, odd 001, none 100, reserved 010.
pub open spec fn parity_code(p: Parity) -> u32 {
    match p {
        Parity::Even => 0,
        Parity::Odd => 1,
        Parity::NoParity => 4,
        Parity::Reserved => 2,
    }
}

/// Parity as read: 000 even, 001 odd, 10x none, anything else reserved.
pub open spec fn parity_of(c: u32) -> Parity {
    if c == 0 {
        Parity::Even
    } else if c == 1 {
        Parity::Odd
    } else if c == 4 || c == 5 {
        Parity::NoParity
    } else {
        Parity::Reserved
    }
}

pub open spec fn char_len_of(c: u32) -> CharLen {
    if c == 0 {
        CharLen::Bit5
    } else if c == 1 {
        CharLen::Bit6
    } else if c == 2 {
        CharLen::Bit7
    } else {
        CharLen::Bit8
    }
}

pub open spec fn stop_bits_of(c: u32) -> StopBits {
    if c == 0 {
        StopBits::Bit1
    } else if c == 1 {
        StopBits::Bit1_5
    } else if c == 2 {
        StopBits::Bit2
    } else {
        StopBits::Bit0_5
    }
}

impl Mode {
    pub open spec fn spec_to_u32(self) -> u32 {
        (stop_bits_code(self.stop_bits) * 4096 + parity_code(self.parity) * 512 + char_len_code(
            self.char_len,
        ) * 64) as u32
    }

    /// Reads the mode word; bits outside the three fields are ignored.
    pub fn from_u32(v: u32) -> (r: Mode)
        ensures
            r.char_len == char_len_of((v / 64) % 4),
            r.parity == parity_of((v / 512) % 8),
            r.stop_bits == stop_bits_of((v / 4096) % 4),
    {
        let c = (v / 64) % 4;
        let char_len = if c == 0 {
            CharLen::Bit5
        } else if c == 1 {
            CharLen::Bit6
        } else if c == 2 {
            CharLen::Bit7
        } else {
            CharLen::Bit8
        };
        let p = (v / 512) % 8;
        let parity = if p == 0 {
            Parity::Even
        } else if p == 1 {
            Parity::Odd
        } else if p == 4 || p == 5 {
            Parity::NoParity
        } else {
            Parity::Reserved
        };
        let s = (v / 4096) % 4;
        let stop_bits = if s == 0 {
            StopBits::Bit1
        } else if s == 1 {
            StopBits::Bit1_5
        } else if s == 2 {
            StopBits::Bit2
        } else {
            StopBits::Bit0_5
        };
        Mode { char_len, parity, stop_bits }
    }

    /// The mode word with only the three fields set.
    pub fn to_u32(self) -> (r: u32)
        ensures
            r == self.spec_to_u32(),
    {
        let s: u32 = match self.stop_bits {
            StopBits::Bit1 => 0,
            StopBits::Bit1_5 => 1,
            StopBits::Bit2 => 2,
            StopBits::Bit0_5 => 3,
        };
        let p: u32 = match self.parity {
            Parity::Even => 0,
            Parity::Odd => 1,
            Parity::NoParity => 4,
            Parity::Reserved => 2,
        };
        let c: u32 = match self.char_len {
            CharLen::Bit5 => 0,
            CharLen::Bit6 => 1,
            CharLen::Bit7 => 2,
            CharLen::Bit8 => 3,
        };
        s * 4096 + p * 512 + c * 64
    }
}

/// Writing a mode word and reading it back gives the same mode.
pub proof fn lemma_mode_round_trip(m: Mode)
    ensures
        char_len_of((m.spec_to_u32() / 64) % 4) == m.char_len,
        parity_of((m.spec_to_u32() / 512) % 8) == m.parity,
        stop_bits_of((m.spec_to_u32() / 4096) % 4) == m.stop_bits,
{
    let s = stop_bits_code(m.stop_bits);
    let p = parity_code(m.parity);
    let c = char_len_code(m.char_len);
    let v = m.spec_to_u32();
    assert(v == s * 4096 + p * 512 + c * 64);
    assert((v / 64) % 4 == c) by (nonlinear_arith)
        requires
            v == s * 4096 + p * 512 + c * 64,
            c < 4,
            p < 8,
            s < 4,
    ;
    assert((v / 512) % 8 == p) by (nonlinear_arith)
        requires
            v == s * 4096 + p * 512 + c * 64,
            c < 4,
            p < 8,
            s < 4,
    ;
    assert((v / 4096) % 4 == s) by (nonlinear_arith)
        requires
            v == s * 4096 + p * 512 + c * 64,
            c < 4,
            p < 8,
            s < 4,
    ;
}

/// Time mode of the receiver.
#[derive(Debug, Clone, Copy, PartialEq, Eq, Structural)]
pub enum TMode {
    Disabled,
    SurvayIn,
    FixedMode,
    Reserved(u8),
}

/// Time mode flags: the mode in the low byte, `lla` in bit 8.
#[derive(Debug, Clone, Copy, PartialEq, Eq, Structural)]
pub struct TModeFlags {
    pub lla: bool,
    pub mode: TMode,
}

pub open spec fn tmode_code(m: TMode) -> u8 {
    match m {
        TMode::Disabled => 0,
        TMode::SurvayIn => 1,
        TMode::FixedMode => 2,
        TMode::Reserved(x) => x,
    }
}

impl TModeFlags {
    pub open spec fn spec_to_u16(self) -> u16 {
        ((if self.lla { 256nat } else { 0nat }) + tmode_code(self.mode) as nat) as u16
    }

    /// A reserved mode never carries a code that has a name.
    pub open spec fn wf(self) -> bool {
        self.mode matches TMode::Reserved(x) ==> x > 2
    }

    pub fn from_u16(d: u16) -> (r: TModeFlags)
        ensures
            r.wf(),
            tmode_code(r.mode) == d % 256,
            r.lla == ((d / 256) % 2 == 1),
    {
        let code = (d % 256) as u8;
        let mode = match code {
            0 => TMode::Disabled,
            1 => TMode::SurvayIn,
            2 => TMode::FixedMode,
            x => TMode::Reserved(x),
        };
        TModeFlags { lla: (d / 256) % 2 == 1, mode }
    }

    pub fn to_u16(self) -> (r: u16)
        ensures
            r == self.spec_to_u16(),
    {
        let code: u16 = match self.mode {
            TMode::Disabled => 0,
            TMode::SurvayIn => 1,
            TMode::FixedMode => 2,
            TMode::Reserved(x) => x as u16,
        };
        if self.lla {
            256 + code
        } else {
            code
        }
    }
}

/// Writing well-formed time mode flags and reading them back gives them again.
pub proof fn lemma_tmode_round_trip(f: TModeFlags)
    requires
        f.wf(),
    ensures
        ({
            let d = f.spec_to_u16();
            &&& d % 256 == tmode_code(f.mode)
            &&& ((d / 256) % 2 == 1) == f.lla
        }),
{
}

/// Kind of position fix.
#[derive(Debug, Clone, Copy, PartialEq, Eq, Structural)]
pub enum FixType {
    NoFix,
    DeadReckoning,
    Fix2D,
    Fix3D,
    Gnss,
    Time,
    Reserved(u8),
}

impl FixType {
    pub open spec fn spec_code(self) -> u8 {
        match self {
            FixType::NoFix => 0,
            FixType::DeadReckoning => 1,
            FixType::Fix2D => 2,
            FixType::Fix3D => 3,
            FixType::Gnss => 4,
            FixType::Time => 5,
            FixType::Reserved(x) => x,
        }
    }

    pub fn from_u8(d: u8) -> (r: FixType)
        ensures
            r.spec_code() == d,
            r is Reserved ==> d > 5,
    {
        match d {
            0 => FixType::NoFix,
            1 => FixType::DeadReckoning,
            2 => FixType::Fix2D,
            3 => FixType::Fix3D,
            4 => FixType::Gnss,
            5 => FixType::Time,
            x => FixType::Reserved(x),
        }
    }

    pub fn to_u8(self) -> (r: u8)
        ensures
            r == self.spec_code(),
    {
        match self {
            FixType::NoFix => 0,
            FixType::DeadReckoning => 1,
            FixType::Fix2D => 2,
            FixType::Fix3D => 3,
            FixType::Gnss => 4,
            FixType::Time => 5,
            FixType::Reserved(x) => x,
        }
    }
}

/// Power save mode state.
#[derive(Debug, Clone, Copy, PartialEq, Eq, Structural)]
pub enum PsmState {
    NotActive,
    Enabled,
    Acquisition,
    Tracking,
    PowerOptimizedTracking,
    Inactive,
}

/// Carrier phase range solution.
#[derive(Debug, Clone, Copy, PartialEq, Eq, Structural)]
pub enum CarrierPhaseSol {
    NoSolution,
    Float,
    Fixed,
}

pub open spec fn psm_code(p: PsmState) -> u8 {
    match p {
        PsmState::NotActive => 0,
        PsmState::Enabled => 1,
        PsmState::Acquisition => 2,
        PsmState::Tracking => 3,
        PsmState::PowerOptimizedTracking => 4,
        PsmState::Inactive => 5,
    }
}

pub open spec fn car_sol_code(c: CarrierPhaseSol) -> u8 {
    match c {
        CarrierPhaseSol::NoSolution => 0,
        CarrierPhaseSol::Float => 1,
        CarrierPhaseSol::Fixed => 2,
    }
}

/// Fix status byte: fix ok in bit 0, differential in bit 1, power save state
/// in bits 2..4, heading valid in bit 5, carrier solution in bits 6..7.
#[derive(Debug, Clone, Copy, PartialEq, Eq, Structural)]
pub struct FixStatus {
    pub car_sol: CarrierPhaseSol,
    pub head_veh_valid: bool,
    pub psm_state: PsmState,
    pub diff_soln: bool,
    pub gnss_fix_ok: bool,
}

pub open spec fn bit_of(b: bool) -> nat {
    if b {
        1
    } else {
        0
    }
}

impl FixStatus {
    pub open spec fn spec_to_u8(self) -> u8 {
        (car_sol_code(self.car_sol) as nat * 64 + bit_of(self.head_veh_valid) * 32 + psm_code(
            self.psm_state,
        ) as nat * 4 + bit_of(self.diff_soln) * 2 + bit_of(self.gnss_fix_ok)) as u8
    }

    /// Reads a status byte; a power save state above 5 or a carrier solution of 3 is invalid.
    pub fn from_u8(d: u8) -> (r: Result<FixStatus, ParseError>)
        ensures
            r is Ok <==> ((d / 4) % 8 <= 5 && d / 64 <= 2),
            r is Err ==> r->Err_0 == ParseError::Invalid,
            r is Ok ==> r->Ok_0.spec_to_u8() == d,
            r is Ok ==> ({
                let f = r->Ok_0;
                &&& psm_code(f.psm_state) == (d / 4) % 8
                &&& car_sol_code(f.car_sol) == d / 64
                &&& f.head_veh_valid == ((d / 32) % 2 == 1)
                &&& f.diff_soln == ((d / 2) % 2 == 1)
                &&& f.gnss_fix_ok == (d % 2 == 1)
            }),
    {
        let psm_state = match (d / 4) % 8 {
            0 => PsmState::NotActive,
            1 => PsmState::Enabled,
            2 => PsmState::Acquisition,
            3 => PsmState::Tracking,
            4 => PsmState::PowerOptimizedTracking,
            5 => PsmState::Inactive,
            _ => return Err(ParseError::Invalid),
        };
        let car_sol = match d / 64 {
            0 => CarrierPhaseSol::NoSolution,
            1 => CarrierPhaseSol::Float,
            2 => CarrierPhaseSol::Fixed,
            _ => return Err(ParseError::Invalid),
        };
        let f = FixStatus {
            car_sol,
            head_veh_valid: (d / 32) % 2 == 1,
            psm_state,
            diff_soln: (d / 2) % 2 == 1,
            gnss_fix_ok: d % 2 == 1,
        };
        proof {
            let x = d as int;
            assert(x == (x / 64) * 64 + ((x / 32) % 2) * 32 + ((x / 4) % 8) * 4 + ((x / 2) % 2) * 2
                + x % 2) by (nonlinear_arith)
                requires
                    0 <= x < 256,
            ;
        }
        Ok(f)
    }

    pub fn to_u8(self) -> (r: u8)
        ensures
            r == self.spec_to_u8(),
    {
        let c: u8 = match self.car_sol {
            CarrierPhaseSol::NoSolution => 0,
            CarrierPhaseSol::Float => 1,
            CarrierPhaseSol::Fixed => 2,
        };
        let p: u8 = match self.psm_state {
            PsmState::NotActive => 0,
            PsmState::Enabled => 1,
            PsmState::Acquisition => 2,
            PsmState::Tracking => 3,
            PsmState::PowerOptimizedTracking => 4,
            PsmState::Inactive => 5,
        };
        let h: u8 = if self.head_veh_valid { 1 } else { 0 };
        let s: u8 = if self.diff_soln { 1 } else { 0 };
        let g: u8 = if self.gnss_fix_ok { 1 } else { 0 };
        c * 64 + h * 32 + p * 4 + s * 2 + g
    }
}

/// Keeps the bits of `v` that `all` names, dropping unknown flags.
pub fn truncate_bits(v: u32, all: u32) -> (r: u32)
    ensures
        r == v & all,
{
    v & all
}

/// Validity flags of a navigation solution.
#[derive(Debug, Clone, Copy, PartialEq, Eq, Structural)]
pub enum Valid {
    Date,
    Time,
    FullyResolved,
    Mag,
}

impl Valid {
    pub const ALL: u32 = 0b1111;

    pub open spec fn spec_bit(self) -> u32 {
        match self {
            Valid::Date => 0b0001,
            Valid::Time => 0b0010,
            Valid::FullyResolved => 0b0100,
            Valid::Mag => 0b1000,
        }
    }

    pub fn bit(self) -> (r: u32)
        ensures
            r == self.spec_bit(),
    {
        match self {
            Valid::Date => 0b0001,
            Valid::Time => 0b0010,
            Valid::FullyResolved => 0b0100,
            Valid::Mag => 0b1000,
        }
    }
}

/// Flags of a relative position solution.
#[derive(Debug, Clone, Copy, PartialEq, Eq, Structural)]
pub enum RelFlags {
    GnssFixOk,
    DiffSoln,
    RelPosValid,
    CarrSolnFloat,
    CarrSolnFixed,
    IsMoving,
    RefPosMiss,
    RefObsMiss,
    RelPosHeadingValid,
    RelPosNormalized,
}

impl RelFlags {
    pub const ALL: u32 = 0b11_1111_1111;

    pub open spec fn spec_bit(self) -> u32 {
        match self {
            RelFlags::GnssFixOk => 0b0000000001,
            RelFlags::DiffSoln => 0b0000000010,
            RelFlags::RelPosValid => 0b0000000100,
            RelFlags::CarrSolnFloat => 0b0000001000,
            RelFlags::CarrSolnFixed => 0b0000010000,
            RelFlags::IsMoving => 0b0000100000,
            RelFlags::RefPosMiss => 0b0001000000,
            RelFlags::RefObsMiss => 0b0010000000,
            RelFlags::RelPosHeadingValid => 0b0100000000,
            RelFlags::RelPosNormalized => 0b1000000000,
        }
    }

    pub fn bit(self) -> (r: u32)
        ensures
            r == self.spec_bit(),
    {
        match self {
            RelFlags::GnssFixOk => 0b0000000001,
            RelFlags::DiffSoln => 0b0000000010,
            RelFlags::RelPosValid => 0b0000000100,
            RelFlags::CarrSolnFloat => 0b0000001000,
            RelFlags::CarrSolnFixed => 0b0000010000,
            RelFlags::IsMoving => 0b0000100000,
            RelFlags::RefPosMiss => 0b0001000000,
            RelFlags::RefObsMiss => 0b0010000000,
            RelFlags::RelPosHeadingValid => 0b0100000000,
            RelFlags::RelPosNormalized => 0b1000000000,
        }
    }
}

/// Flags of an RTCM input status report.
#[derive(Debug, Clone, Copy, PartialEq, Eq, Structural)]
pub enum RtcmFlags {
    CrcFailed,
}

impl RtcmFlags {
    pub const ALL: u32 = 0b1;

    pub fn bit(self) -> (r: u32)
        ensures
            r == 1,
    {
        1
    }
}

/// Protocols enabled on a port.
#[derive(Debug, Clone, Copy, PartialEq, Eq, Structural)]
pub enum ProtoMask {
    Ubx,
    Nmea,
    Rtcm,
    Rtcm3,
}

impl ProtoMask {
    pub const ALL: u32 = 0b100111;

    pub open spec fn spec_bit(self) -> u32 {
        match self {
            ProtoMask::Ubx => 0b000001,
            ProtoMask::Nmea => 0b000010,
            ProtoMask::Rtcm => 0b000100,
            ProtoMask::Rtcm3 => 0b100000,
        }
    }

    pub fn bit(self) -> (r: u32)
        ensures
            r == self.spec_bit(),
    {
        match self {
            ProtoMask::Ubx => 0b000001,
            ProtoMask::Nmea => 0b000010,
            ProtoMask::Rtcm => 0b000100,
            ProtoMask::Rtcm3 => 0b100000,
        }
    }
}

/// Kinds of INF message enabled on a port.
#[derive(Debug, Clone, Copy, PartialEq, Eq, Structural)]
pub enum MsgMask {
    Error,
    Warning,
    Notice,
    Test,
    Debug,
}

impl MsgMask {
    pub const ALL: u32 = 0x1f;

    pub open spec fn spec_bit(self) -> u32 {
        match self {
            MsgMask::Error => 0x01,
            MsgMask::Warning => 0x02,
            MsgMask::Notice => 0x04,
            MsgMask::Test => 0x08,
            MsgMask::Debug => 0x10,
        }
    }

    pub fn bit(self) -> (r: u32)
        ensures
            r == self.spec_bit(),
    {
        match self {
            MsgMask::Error => 0x01,
            MsgMask::Warning => 0x02,
            MsgMask::Notice => 0x04,
            MsgMask::Test => 0x08,
            MsgMask::Debug => 0x10,
        }
    }
}

} // verus!
