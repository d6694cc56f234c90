//! UBX messages: the typed classes, frames of unknown classes, and polls.
use vstd::prelude::*;
use vstd::slice::slice_subrange;

use crate::cfg::{CfgCfg, ValDel, ValGet, ValSet, CFG_VALDEL, CFG_VALGET, CFG_VALSET};
use crate::classes::{fixed_len, Ack, Inf, RawMsg};
use crate::mon::Mon;
use crate::nav::{Nav, Rxm};
use crate::payloads::{Ant, Prt, TMode3};
use crate::parse::{write_all, ParseError};
use crate::ubx::{
    ubx_header_bad, fletcher, frame_checksum_ok, lemma_frame_fields, lemma_frame_split, read_frame, ubx_body,
    ubx_checksum_ok, ubx_complete, ubx_frame, ubx_frame_with, ubx_payload, ubx_payload_len,
    write_frame, write_frame_with,
};

verus! {

pub const CLASS_NAV: u8 = 0x01;

pub const CLASS_RXM: u8 = 0x02;

pub const CLASS_INF: u8 = 0x04;

pub const CLASS_ACK: u8 = 0x05;

pub const CLASS_CFG: u8 = 0x06;

pub const CLASS_MON: u8 = 0x0a;

/// The classes that have a variant of their own.
pub open spec fn known_class(class: u8) -> bool {
    class == CLASS_NAV || class == CLASS_RXM || class == CLASS_INF || class == CLASS_ACK || class
        == CLASS_CFG || class == CLASS_MON
}

/// The message ids that have a name within a known class.
pub open spec fn known_id(class: u8, id: u8) -> bool {
    if class == CLASS_CFG {
        cfg_typed_id(id)
    } else if class == CLASS_NAV {
        fixed_len(class, id) is Some || id == 0x35
    } else if class == CLASS_ACK {
        id == 0x00 || id == 0x01
    } else if class == CLASS_MON {
        id == 0x06 || id == 0x36
    } else if class == CLASS_RXM {
        id == 0x32
    } else if class == CLASS_INF {
        id <= 0x04
    } else {
        false
    }
}

pub const CFG_PRT: u8 = 0x00;

pub const CFG_CFG: u8 = 0x09;

pub const CFG_ANT: u8 = 0x13;

pub const CFG_TMODE3: u8 = 0x71;

/// Class CFG (0x06).
#[derive(Debug, Clone)]
pub enum Cfg {
    /// A request for the settings of one port.
    PrtPoll { port_id: u8 },
    Prt(Prt),
    Cfg(CfgCfg),
    Ant(Ant),
    TMode3(TMode3),
    ValSet(ValSet),
    ValGet(ValGet),
    ValDel(ValDel),
    Unknown { id: u8, payload: Vec<u8> },
}

/// The ids of class CFG that have a typed variant.
pub open spec fn cfg_typed_id(id: u8) -> bool {
    id == CFG_PRT || id == CFG_CFG || id == CFG_ANT || id == CFG_TMODE3 || id == CFG_VALSET || id
        == CFG_VALGET || id == CFG_VALDEL
}

impl Cfg {
    pub open spec fn spec_id(&self) -> u8 {
        match self {
            Cfg::PrtPoll { .. } => CFG_PRT,
            Cfg::Prt(_) => CFG_PRT,
            Cfg::Cfg(_) => CFG_CFG,
            Cfg::Ant(_) => CFG_ANT,
            Cfg::TMode3(_) => CFG_TMODE3,
            Cfg::ValSet(_) => CFG_VALSET,
            Cfg::ValGet(_) => CFG_VALGET,
            Cfg::ValDel(_) => CFG_VALDEL,
            Cfg::Unknown { id, .. } => *id,
        }
    }

    pub open spec fn spec_payload(&self) -> Seq<u8> {
        match self {
            Cfg::PrtPoll { port_id } => seq![*port_id],
            Cfg::Prt(x) => x.spec_payload(),
            Cfg::Cfg(x) => x.spec_payload(),
            Cfg::Ant(x) => x.spec_payload(),
            Cfg::TMode3(t) => t.spec_payload(),
            Cfg::ValSet(v) => v.spec_payload(),
            Cfg::ValGet(v) => v.spec_payload(),
            Cfg::ValDel(v) => v.spec_payload(),
            Cfg::Unknown { payload, .. } => payload@,
        }
    }

    pub open spec fn wf(&self) -> bool {
        match self {
            Cfg::PrtPoll { .. } => true,
            Cfg::Prt(x) => x.spec_payload().len() == 20,
            Cfg::Cfg(x) => x.wf(),
            Cfg::Ant(x) => x.spec_payload().len() == 4,
            Cfg::TMode3(t) => t.spec_payload().len() == 40,
            Cfg::ValSet(v) => v.wf(),
            Cfg::ValGet(v) => v.wf(),
            Cfg::ValDel(v) => v.wf(),
            Cfg::Unknown { id, payload } => !cfg_typed_id(*id) && payload@.len() <= 0xffff,
        }
    }

    /// Message id of this value within class CFG.
    pub fn id(&self) -> (r: u8)
        ensures
            r == self.spec_id(),
    {
        match self {
            Cfg::PrtPoll { .. } => CFG_PRT,
            Cfg::Prt(_) => CFG_PRT,
            Cfg::Cfg(_) => CFG_CFG,
            Cfg::Ant(_) => CFG_ANT,
            Cfg::TMode3(_) => CFG_TMODE3,
            Cfg::ValSet(_) => CFG_VALSET,
            Cfg::ValGet(_) => CFG_VALGET,
            Cfg::ValDel(_) => CFG_VALDEL,
            Cfg::Unknown { id, .. } => *id,
        }
    }

    /// Reads the payload `p` of a CFG message with id `id`.
    pub fn from_bytes(id: u8, p: &[u8]) -> (r: Result<Cfg, ParseError>)
        requires
            p@.len() <= 0xffff,
        ensures
            r is Ok <==> payload_decodes(CLASS_CFG, id, p@),
            r is Ok ==> r->Ok_0.wf() && r->Ok_0.spec_id() == id && r->Ok_0.spec_payload()
                == stored_payload(CLASS_CFG, id, p@),
            r is Err ==> r->Err_0 == payload_error(CLASS_CFG, id),
    {
        if id == CFG_VALSET {
            match ValSet::from_bytes(p) {
                Ok(v) => Ok(Cfg::ValSet(v)),
                Err(e) => Err(e),
            }
        } else if id == CFG_VALGET {
            match ValGet::from_bytes(p) {
                Ok(v) => Ok(Cfg::ValGet(v)),
                Err(e) => Err(e),
            }
        } else if id == CFG_VALDEL {
            match ValDel::from_bytes(p) {
                Ok(v) => Ok(Cfg::ValDel(v)),
                Err(e) => Err(e),
            }
        } else if id == CFG_CFG {
            match CfgCfg::from_bytes(p) {
                Ok(v) => Ok(Cfg::Cfg(v)),
                Err(e) => Err(e),
            }
        } else if id == CFG_PRT {
            if p.len() == 1 {
                proof {
                    assert(seq![p@[0]] =~= p@);
                }
                Ok(Cfg::PrtPoll { port_id: p[0] })
            } else if p.len() == 20 {
                Ok(Cfg::Prt(Prt::from_bytes(p)))
            } else {
                Err(ParseError::InvalidLen)
            }
        } else if id == CFG_ANT {
            if p.len() == 4 {
                Ok(Cfg::Ant(Ant::from_bytes(p)))
            } else {
                Err(ParseError::InvalidLen)
            }
        } else if id == CFG_TMODE3 {
            if p.len() == 40 {
                Ok(Cfg::TMode3(TMode3::from_bytes(p)))
            } else {
                Err(ParseError::InvalidLen)
            }
        } else {
            Ok(Cfg::Unknown { id, payload: vstd::slice::slice_to_vec(p) })
        }
    }

    /// Appends the message as it stands in a class body: id, little-endian
    /// length, payload.
    pub fn write_bytes(&self, out: &mut Vec<u8>)
        requires
            self.spec_payload().len() <= 0xffff,
        ensures
            final(out)@ == old(out)@ + crate::classes::class_record(self.spec_id(), self.spec_payload()),
    {
        let mut p: Vec<u8> = Vec::new();
        self.write_payload(&mut p);
        proof {
            assert(p@ =~= self.spec_payload());
        }
        crate::classes::write_record(self.id(), p.as_slice(), out);
    }
    /// Appends the payload.
    pub fn write_payload(&self, out: &mut Vec<u8>)
        ensures
            final(out)@ == old(out)@ + self.spec_payload(),
    {
        match self {
            Cfg::PrtPoll { port_id } => {
                out.push(*port_id);
                proof {
                    assert(final(out)@ =~= old(out)@ + self.spec_payload());
                }
            },
            Cfg::Prt(x) => x.write_bytes(out),
            Cfg::Cfg(x) => x.write_bytes(out),
            Cfg::Ant(x) => x.write_bytes(out),
            Cfg::TMode3(t) => t.write_bytes(out),
            Cfg::ValSet(v) => v.write_bytes(out),
            Cfg::ValGet(v) => v.write_bytes(out),
            Cfg::ValDel(v) => v.write_bytes(out),
            Cfg::Unknown { payload, .. } => write_all(payload.as_slice(), out),
        }
    }
}

impl TMode3 {
    /// The packed time mode flags, read.
    pub fn mode_flags(&self) -> (r: crate::fields::TModeFlags)
        ensures
            crate::fields::tmode_code(r.mode) == self.flags % 256,
            r.lla == ((self.flags / 256) % 2 == 1),
    {
        crate::fields::TModeFlags::from_u16(self.flags)
    }
}

impl Prt {
    /// The packed serial mode word, read.
    pub fn port_mode(&self) -> (r: crate::fields::Mode)
        ensures
            r.char_len == crate::fields::char_len_of((self.mode / 64) % 4),
            r.parity == crate::fields::parity_of((self.mode / 512) % 8),
            r.stop_bits == crate::fields::stop_bits_of((self.mode / 4096) % 4),
    {
        crate::fields::Mode::from_u32(self.mode)
    }
}

/// A payload of `class` with id `id` can be read into a typed value.
pub open spec fn payload_decodes(class: u8, id: u8, p: Seq<u8>) -> bool {
    if class == CLASS_CFG {
        if id == CFG_VALSET {
            ValSet::decodes(p)
        } else if id == CFG_VALGET {
            ValGet::decodes(p)
        } else if id == CFG_VALDEL {
            ValDel::decodes(p)
        } else if id == CFG_CFG {
            CfgCfg::decodes(p)
        } else if id == CFG_PRT {
            p.len() == 1 || p.len() == 20
        } else if id == CFG_ANT {
            p.len() == 4
        } else if id == CFG_TMODE3 {
            p.len() == 40
        } else {
            true
        }
    } else if class == CLASS_ACK {
        Ack::decodes(id, p)
    } else if class == CLASS_MON {
        Mon::decodes(id, p)
    } else if class == CLASS_NAV {
        Nav::decodes(id, p)
    } else {
        fixed_len(class, id) is Some ==> p.len() == fixed_len(class, id)->Some_0
    }
}

/// The payload as a read stores it: layer bits of a VALSET or VALDEL beyond
/// the three known are dropped.
pub open spec fn stored_payload(class: u8, id: u8, p: Seq<u8>) -> Seq<u8> {
    if class == CLASS_CFG && (id == CFG_VALSET || id == CFG_VALDEL) {
        p.update(1, p[1] % 8)
    } else {
        p
    }
}

/// A read keeps every payload byte of messages of `class` with id `id`.
pub open spec fn lossless(class: u8, id: u8) -> bool {
    !(class == CLASS_CFG && (id == CFG_VALSET || id == CFG_VALDEL))
}

/// Error reported for a payload that cannot be read.
pub open spec fn payload_error(class: u8, id: u8) -> ParseError {
    if class == CLASS_CFG && (id == CFG_VALSET || id == CFG_VALGET || id == CFG_VALDEL) {
        ParseError::Invalid
    } else if class == CLASS_MON {
        Mon::decode_error(id)
    } else {
        ParseError::InvalidLen
    }
}

/// `b` starts with a whole frame that reads as a message.
pub open spec fn ubx_accepts(b: Seq<u8>) -> bool {
    &&& ubx_complete(b)
    &&& ubx_checksum_ok(b)
    &&& (known_class(b[2]) ==> payload_decodes(b[2], b[3], ubx_payload(b)))
}

/// The error a read of `b` reports when `b` does not start with a message.
pub open spec fn ubx_error(b: Seq<u8>) -> ParseError {
    if ubx_header_bad(b) {
        ParseError::InvalidHeader
    } else if !ubx_complete(b) {
        ParseError::NotEnoughData
    } else if !ubx_checksum_ok(b) {
        ParseError::InvalidChecksum
    } else {
        payload_error(b[2], b[3])
    }
}

/// A UBX message.
#[derive(Debug, Clone)]
pub enum Ubx {
    Cfg(Cfg),
    Nav(Nav),
    Ack(Ack),
    Mon(Mon),
    Rxm(Rxm),
    Inf(Inf),
    Unknown { class: u8, msg: u8, len: u16, payload: Vec<u8>, ck_a: u8, ck_b: u8 },
}

impl Ubx {
    pub open spec fn spec_class(&self) -> u8 {
        match self {
            Ubx::Cfg(_) => CLASS_CFG,
            Ubx::Nav(_) => CLASS_NAV,
            Ubx::Ack(_) => CLASS_ACK,
            Ubx::Mon(_) => CLASS_MON,
            Ubx::Rxm(_) => CLASS_RXM,
            Ubx::Inf(_) => CLASS_INF,
            Ubx::Unknown { class, .. } => *class,
        }
    }

    pub open spec fn spec_id(&self) -> u8 {
        match self {
            Ubx::Cfg(c) => c.spec_id(),
            Ubx::Nav(m) => m.spec_id(),
            Ubx::Ack(a) => a.spec_id(),
            Ubx::Mon(m) => m.spec_id(),
            Ubx::Rxm(m) => m.spec_id(),
            Ubx::Inf(i) => i.spec_id(),
            Ubx::Unknown { msg, .. } => *msg,
        }
    }

    pub open spec fn spec_payload(&self) -> Seq<u8> {
        match self {
            Ubx::Cfg(c) => c.spec_payload(),
            Ubx::Nav(m) => m.spec_payload(),
            Ubx::Ack(a) => a.spec_payload(),
            Ubx::Mon(m) => m.spec_payload(),
            Ubx::Rxm(m) => m.spec_payload(),
            Ubx::Inf(i) => i.spec_payload(),
            Ubx::Unknown { payload, .. } => payload@,
        }
    }

    /// The bytes that `parse_write` produces.
    pub open spec fn spec_encode(&self) -> Seq<u8> {
        match self {
            Ubx::Unknown { class, msg, payload, ck_a, ck_b, .. } => ubx_frame_with(
                *class,
                *msg,
                payload@,
                *ck_a,
                *ck_b,
            ),
            _ => ubx_frame(self.spec_class(), self.spec_id(), self.spec_payload()),
        }
    }

    /// A value that a read can produce: fields agree with the frame they describe.
    pub open spec fn wf(&self) -> bool {
        match self {
            Ubx::Cfg(c) => c.wf(),
            Ubx::Nav(m) => m.wf(),
            Ubx::Ack(a) => a.wf(),
            Ubx::Mon(m) => m.wf(),
            Ubx::Rxm(m) => m.wf(),
            Ubx::Inf(i) => i.wf(),
            Ubx::Unknown { class, msg, len, payload, ck_a, ck_b } => {
                &&& !known_class(*class)
                &&& payload@.len() == *len as nat
                &&& fletcher(ubx_body(*class, *msg, payload@)) == (*ck_a, *ck_b)
            },
        }
    }

    /// `b` starts with the UBX sync bytes `B5 62`.
    pub fn contains_prefix(b: &[u8]) -> (r: bool)
        ensures
            r == crate::ubx::ubx_prefix(b@),
    {
        b.len() >= 2 && b[0] == 0xb5 && b[1] == 0x62
    }

    /// Length of the whole frame at the start of `b`, once all of it is there.
    pub fn message_usage(b: &[u8]) -> (r: Option<usize>)
        ensures
            r is Some <==> ubx_complete(b@),
            r is Some ==> r->Some_0 == ubx_payload_len(b@) + 8,
    {
        if !Self::contains_prefix(b) {
            return None;
        }
        if b.len() < 6 {
            return None;
        }
        let len = crate::parse::read_u16(b, 4) as usize;
        if b.len() < 8 || b.len() - 8 < len {
            None
        } else {
            Some(len + 8)
        }
    }

    /// Reads the payload of a message of a known `class` with id `id` into a typed value.
    pub fn decode_payload(class: u8, id: u8, p: &[u8]) -> (r: Result<Ubx, ParseError>)
        requires
            p@.len() <= 0xffff,
            known_class(class),
        ensures
            r is Ok <==> payload_decodes(class, id, p@),
            r is Ok ==> ({
                let m = r->Ok_0;
                &&& m.wf()
                &&& m.spec_class() == class
                &&& m.spec_id() == id
                &&& m.spec_payload() == stored_payload(class, id, p@)
            }),
            r is Err ==> r->Err_0 == payload_error(class, id),
    {
        if class == CLASS_CFG {
            match Cfg::from_bytes(id, p) {
                Ok(c) => Ok(Ubx::Cfg(c)),
                Err(e) => Err(e),
            }
        } else if class == CLASS_ACK {
            match Ack::from_bytes(id, p) {
                Ok(a) => Ok(Ubx::Ack(a)),
                Err(e) => Err(e),
            }
        } else if class == CLASS_INF {
            Ok(Ubx::Inf(Inf::from_bytes(id, p)))
        } else if class == CLASS_NAV {
            match Nav::from_bytes(id, p) {
                Ok(m) => Ok(Ubx::Nav(m)),
                Err(e) => Err(e),
            }
        } else if class == CLASS_RXM {
            match Rxm::from_bytes(id, p) {
                Ok(m) => Ok(Ubx::Rxm(m)),
                Err(e) => Err(e),
            }
        } else {
            match Mon::from_bytes(id, p) {
                Ok(m) => Ok(Ubx::Mon(m)),
                Err(e) => Err(e),
            }
        }
    }
}

impl Ubx {
    /// Class of this message.
    pub fn class(&self) -> (r: u8)
        ensures
            r == self.spec_class(),
    {
        match self {
            Ubx::Cfg(_) => CLASS_CFG,
            Ubx::Nav(_) => CLASS_NAV,
            Ubx::Ack(_) => CLASS_ACK,
            Ubx::Mon(_) => CLASS_MON,
            Ubx::Rxm(_) => CLASS_RXM,
            Ubx::Inf(_) => CLASS_INF,
            Ubx::Unknown { class, .. } => *class,
        }
    }

    /// Message id of this message within its class.
    pub fn id(&self) -> (r: u8)
        ensures
            r == self.spec_id(),
    {
        match self {
            Ubx::Cfg(c) => c.id(),
            Ubx::Nav(m) => m.id(),
            Ubx::Ack(a) => a.id(),
            Ubx::Mon(m) => m.id(),
            Ubx::Rxm(m) => m.id(),
            Ubx::Inf(i) => i.id(),
            Ubx::Unknown { msg, .. } => *msg,
        }
    }

    /// Reads the message at the start of `b`, with the number of bytes it took.
    pub fn parse_read(b: &[u8]) -> (r: Result<(Ubx, usize), ParseError>)
        ensures
            r is Ok <==> ubx_accepts(b@),
            r is Err ==> r->Err_0 == ubx_error(b@),
            r is Ok ==> ({
                let (m, n) = r->Ok_0;
                &&& n == ubx_payload_len(b@) + 8
                &&& m.wf()
                &&& m.spec_class() == b@[2]
                &&& m.spec_id() == b@[3]
                &&& m.spec_payload() == stored_payload(b@[2], b@[3], ubx_payload(b@))
                &&& (m is Unknown <==> !known_class(b@[2]))
                &&& (m matches Ubx::Unknown { ck_a, ck_b, .. } ==> ck_a == b@[n - 2] && ck_b
                    == b@[n - 1])
                &&& (lossless(b@[2], b@[3]) ==> m.spec_encode()
                    == b@.subrange(0, n as int))
            }),
    {
        let f = match read_frame(b) {
            Ok(f) => f,
            Err(e) => return Err(e),
        };
        proof {
            lemma_frame_split(b@);
        }
        if !frame_checksum_ok(b) {
            return Err(ParseError::InvalidChecksum);
        }
        let n = f.payload.len();
        let class = f.class;
        if class == CLASS_CFG || class == CLASS_NAV || class == CLASS_ACK || class == CLASS_MON
            || class == CLASS_RXM || class == CLASS_INF {
            match Self::decode_payload(class, f.id, f.payload.as_slice()) {
                Ok(m) => Ok((m, n + 8)),
                Err(e) => Err(e),
            }
        } else {
            let m = Ubx::Unknown {
                class,
                msg: f.id,
                len: n as u16,
                payload: f.payload,
                ck_a: f.ck_a,
                ck_b: f.ck_b,
            };
            Ok((m, n + 8))
        }
    }

    /// Appends the frame of this message; the checksum of a typed message is computed anew.
    pub fn parse_write(&self, out: &mut Vec<u8>)
        requires
            self.wf(),
        ensures
            final(out)@ == old(out)@ + self.spec_encode(),
    {
        match self {
            Ubx::Unknown { class, msg, payload, ck_a, ck_b, .. } => {
                write_frame_with(*class, *msg, payload.as_slice(), *ck_a, *ck_b, out);
            },
            _ => {
                let mut p: Vec<u8> = Vec::new();
                match self {
                    Ubx::Cfg(c) => c.write_payload(&mut p),
                    Ubx::Nav(m) => m.write_payload(&mut p),
                    Ubx::Ack(a) => a.write_payload(&mut p),
                    Ubx::Mon(m) => m.write_payload(&mut p),
                    Ubx::Rxm(m) => m.write_payload(&mut p),
                    Ubx::Inf(i) => i.write_payload(&mut p),
                    Ubx::Unknown { .. } => {},
                }
                proof {
                    assert(p@ =~= self.spec_payload());
                }
                write_frame(self.class(), self.id(), p.as_slice(), out);
            },
        }
    }
}

/// The payload of a well-formed typed message reads back as itself.
proof fn lemma_payload_decodes(m: Ubx)
    requires
        m.wf(),
        !(m is Unknown),
    ensures
        m.spec_payload().len() <= 0xffff,
        payload_decodes(m.spec_class(), m.spec_id(), m.spec_payload()),
        stored_payload(m.spec_class(), m.spec_id(), m.spec_payload()) == m.spec_payload(),
{
    let p = m.spec_payload();
    match m {
        Ubx::Cfg(c) => {
            match c {
                Cfg::ValDel(v) => {
                    assert(p.subrange(4, p.len() as int) =~= crate::cfg::keys_bytes(v.keys@));
                    crate::cfg::lemma_keys_len(v.keys@);
                    assert(p.update(1, p[1] % 8) =~= p);
                },
                Cfg::Cfg(x) => {},
                Cfg::ValSet(v) => {
                    crate::cfg::lemma_values_decodable(v.values@);
                    assert(p.subrange(4, p.len() as int) =~= crate::cfg::values_bytes(v.values@));
                    assert(p.update(1, p[1] % 8) =~= p);
                },
                Cfg::ValGet(v) => {
                    match v {
                        ValGet::Request { keys, .. } => {
                            assert(p.subrange(4, p.len() as int) =~= crate::cfg::keys_bytes(keys@));
                            crate::cfg::lemma_keys_len(keys@);
                        },
                        ValGet::Response { values, .. } => {
                            crate::cfg::lemma_values_decodable(values@);
                            assert(p.subrange(4, p.len() as int) =~= crate::cfg::values_bytes(
                                values@,
                            ));
                        },
                    }
                },
                _ => {},
            }
        },
        _ => {},
    }
}

/// The frame written for a well-formed message, followed by anything.
proof fn lemma_encode_frame(m: Ubx, rest: Seq<u8>)
    requires
        m.wf(),
        m.spec_payload().len() <= 0xffff,
    ensures
        ({
            let b = m.spec_encode() + rest;
            &&& ubx_complete(b)
            &&& ubx_checksum_ok(b)
            &&& ubx_payload_len(b) + 8 == m.spec_encode().len()
            &&& b[2] == m.spec_class()
            &&& b[3] == m.spec_id()
            &&& ubx_payload(b) == m.spec_payload()
        }),
{
    let p = m.spec_payload();
    let class = m.spec_class();
    let id = m.spec_id();
    match m {
        Ubx::Unknown { class, msg, payload, ck_a, ck_b, .. } => {
            lemma_frame_fields(class, msg, payload@, ck_a, ck_b, rest);
            assert(ubx_frame_with(class, msg, payload@, ck_a, ck_b).len() == 8 + payload@.len());
        },
        _ => {
            let ck = fletcher(ubx_body(class, id, p));
            assert(m.spec_encode() == ubx_frame_with(class, id, p, ck.0, ck.1));
            lemma_frame_fields(class, id, p, ck.0, ck.1, rest);
        },
    }
}

/// What a read of the bytes of a well-formed message finds there: the same
/// class, id and payload, in a frame that the read accepts whole.
pub proof fn lemma_ubx_round_trip(m: Ubx, rest: Seq<u8>)
    requires
        m.wf(),
    ensures
        ({
            let b = m.spec_encode() + rest;
            &&& ubx_accepts(b)
            &&& ubx_payload_len(b) + 8 == m.spec_encode().len()
            &&& b[2] == m.spec_class()
            &&& b[3] == m.spec_id()
            &&& stored_payload(b[2], b[3], ubx_payload(b)) == m.spec_payload()
            &&& (m is Unknown <==> !known_class(b[2]))
        }),
{
    if !(m is Unknown) {
        lemma_payload_decodes(m);
    }
    lemma_encode_frame(m, rest);
}

/// Is `id` a named message of the known class `class`.
pub fn is_known_id(class: u8, id: u8) -> (r: bool)
    ensures
        r == known_id(class, id),
{
    if class == CLASS_CFG {
        id == CFG_PRT || id == CFG_CFG || id == CFG_ANT || id == CFG_TMODE3 || id == CFG_VALSET
            || id == CFG_VALGET || id == CFG_VALDEL
    } else if class == CLASS_NAV {
        crate::classes::fixed_len_of(class, id).is_some() || id == 0x35
    } else if class == CLASS_ACK {
        id == 0x00 || id == 0x01
    } else if class == CLASS_MON {
        id == 0x06 || id == 0x36
    } else if class == CLASS_RXM {
        id == 0x32
    } else if class == CLASS_INF {
        id <= 0x04
    } else {
        false
    }
}

/// Is `class` one of the classes with a variant of their own.
pub fn is_known_class(class: u8) -> (r: bool)
    ensures
        r == known_class(class),
{
    class == CLASS_CFG || class == CLASS_NAV || class == CLASS_ACK || class == CLASS_MON || class
        == CLASS_RXM || class == CLASS_INF
}

/// A poll: a frame with an empty payload that asks the receiver for a message.
#[derive(Debug, Clone, Copy, PartialEq, Eq, Structural)]
pub enum UbxPoll {
    Cfg(u8),
    Nav(u8),
    Ack(u8),
    Mon(u8),
    Rxm(u8),
    Inf(u8),
    Unknown { class: u8, msg: u8, ck_a: u8, ck_b: u8 },
}

/// `b` starts with a whole frame that reads as a poll.
pub open spec fn poll_accepts(b: Seq<u8>) -> bool {
    &&& ubx_complete(b)
    &&& ubx_payload_len(b) == 0
    &&& (known_class(b[2]) ==> known_id(b[2], b[3]))
    &&& ubx_checksum_ok(b)
}

/// The error a read of `b` as a poll reports when it fails.
pub open spec fn poll_error(b: Seq<u8>) -> ParseError {
    if ubx_header_bad(b) {
        ParseError::InvalidHeader
    } else if !ubx_complete(b) {
        ParseError::NotEnoughData
    } else if ubx_payload_len(b) != 0 || (known_class(b[2]) && !known_id(b[2], b[3])) {
        ParseError::Invalid
    } else {
        ParseError::InvalidChecksum
    }
}

impl UbxPoll {
    pub open spec fn spec_class(&self) -> u8 {
        match self {
            UbxPoll::Cfg(_) => CLASS_CFG,
            UbxPoll::Nav(_) => CLASS_NAV,
            UbxPoll::Ack(_) => CLASS_ACK,
            UbxPoll::Mon(_) => CLASS_MON,
            UbxPoll::Rxm(_) => CLASS_RXM,
            UbxPoll::Inf(_) => CLASS_INF,
            UbxPoll::Unknown { class, .. } => *class,
        }
    }

    pub open spec fn spec_id(&self) -> u8 {
        match self {
            UbxPoll::Cfg(id) => *id,
            UbxPoll::Nav(id) => *id,
            UbxPoll::Ack(id) => *id,
            UbxPoll::Mon(id) => *id,
            UbxPoll::Rxm(id) => *id,
            UbxPoll::Inf(id) => *id,
            UbxPoll::Unknown { msg, .. } => *msg,
        }
    }

    pub open spec fn wf(&self) -> bool {
        match self {
            UbxPoll::Unknown { class, msg, ck_a, ck_b } => !known_class(*class) && fletcher(
                ubx_body(*class, *msg, Seq::empty()),
            ) == (*ck_a, *ck_b),
            _ => known_id(self.spec_class(), self.spec_id()),
        }
    }

    /// The bytes that `parse_write` produces.
    pub open spec fn spec_encode(&self) -> Seq<u8> {
        match self {
            UbxPoll::Unknown { class, msg, ck_a, ck_b } => ubx_frame_with(
                *class,
                *msg,
                Seq::empty(),
                *ck_a,
                *ck_b,
            ),
            _ => ubx_frame(self.spec_class(), self.spec_id(), Seq::empty()),
        }
    }

    /// Class this poll addresses.
    pub fn class(&self) -> (r: u8)
        ensures
            r == self.spec_class(),
    {
        match self {
            UbxPoll::Cfg(_) => CLASS_CFG,
            UbxPoll::Nav(_) => CLASS_NAV,
            UbxPoll::Ack(_) => CLASS_ACK,
            UbxPoll::Mon(_) => CLASS_MON,
            UbxPoll::Rxm(_) => CLASS_RXM,
            UbxPoll::Inf(_) => CLASS_INF,
            UbxPoll::Unknown { class, .. } => *class,
        }
    }

    /// Message id this poll addresses.
    pub fn id(&self) -> (r: u8)
        ensures
            r == self.spec_id(),
    {
        match self {
            UbxPoll::Cfg(id) | UbxPoll::Nav(id) | UbxPoll::Ack(id) | UbxPoll::Mon(id)
            | UbxPoll::Rxm(id) | UbxPoll::Inf(id) => *id,
            UbxPoll::Unknown { msg, .. } => *msg,
        }
    }

    /// Reads the poll at the start of `b`.
    pub fn parse_read(b: &[u8]) -> (r: Result<(UbxPoll, usize), ParseError>)
        ensures
            r is Ok <==> poll_accepts(b@),
            r is Err ==> r->Err_0 == poll_error(b@),
            r is Ok ==> ({
                let (m, n) = r->Ok_0;
                &&& n == 8
                &&& m.wf()
                &&& m.spec_class() == b@[2]
                &&& m.spec_id() == b@[3]
                &&& m.spec_encode() == b@.subrange(0, 8)
            }),
    {
        let f = match read_frame(b) {
            Ok(f) => f,
            Err(e) => return Err(e),
        };
        proof {
            lemma_frame_split(b@);
        }
        if f.payload.len() != 0 {
            return Err(ParseError::Invalid);
        }
        proof {
            assert(ubx_payload(b@) =~= Seq::<u8>::empty());
        }
        let class = f.class;
        let id = f.id;
        if is_known_class(class) && !is_known_id(class, id) {
            return Err(ParseError::Invalid);
        }
        if !frame_checksum_ok(b) {
            return Err(ParseError::InvalidChecksum);
        }
        if !is_known_class(class) {
            return Ok((UbxPoll::Unknown { class, msg: id, ck_a: f.ck_a, ck_b: f.ck_b }, 8));
        }
        let m = if class == CLASS_CFG {
            UbxPoll::Cfg(id)
        } else if class == CLASS_NAV {
            UbxPoll::Nav(id)
        } else if class == CLASS_ACK {
            UbxPoll::Ack(id)
        } else if class == CLASS_MON {
            UbxPoll::Mon(id)
        } else if class == CLASS_RXM {
            UbxPoll::Rxm(id)
        } else {
            UbxPoll::Inf(id)
        };
        Ok((m, 8))
    }

    /// Appends the frame of this poll.
    pub fn parse_write(&self, out: &mut Vec<u8>)
        ensures
            final(out)@ == old(out)@ + self.spec_encode(),
    {
        let empty: Vec<u8> = Vec::new();
        match self {
            UbxPoll::Unknown { class, msg, ck_a, ck_b } => {
                write_frame_with(*class, *msg, empty.as_slice(), *ck_a, *ck_b, out);
            },
            _ => {
                write_frame(self.class(), self.id(), empty.as_slice(), out);
            },
        }
    }
}

/// A well-formed poll reads back from its bytes as itself.
pub proof fn lemma_poll_round_trip(m: UbxPoll, rest: Seq<u8>)
    requires
        m.wf(),
    ensures
        ({
            let b = m.spec_encode() + rest;
            &&& poll_accepts(b)
            &&& b[2] == m.spec_class()
            &&& b[3] == m.spec_id()
            &&& b.subrange(0, 8) == m.spec_encode()
        }),
{
    let class = m.spec_class();
    let id = m.spec_id();
    let e = Seq::<u8>::empty();
    match m {
        UbxPoll::Unknown { class, msg, ck_a, ck_b } => {
            lemma_frame_fields(class, msg, e, ck_a, ck_b, rest);
        },
        _ => {
            let ck = fletcher(ubx_body(class, id, e));
            assert(m.spec_encode() == ubx_frame_with(class, id, e, ck.0, ck.1));
            lemma_frame_fields(class, id, e, ck.0, ck.1, rest);
        },
    }
}

/// Checksum law: changing any one byte of the class, id or payload of a
/// frame whose checksum is right makes the read fail with `InvalidChecksum`.
/// (The sync and length bytes are not covered: a change there is reported as
/// a bad header or moves the frame's end.)
pub proof fn lemma_checksum_detects_change(b: Seq<u8>, i: int, x: u8)
    requires
        ubx_complete(b),
        ubx_checksum_ok(b),
        i == 2 || i == 3 || (6 <= i < 6 + ubx_payload_len(b)),
        x != b[i],
    ensures
        !ubx_accepts(b.update(i, x)),
        ubx_error(b.update(i, x)) == ParseError::InvalidChecksum,
{
    crate::ubx::lemma_checksum_changes(b, i, x);
}

} // verus!
