//! Payloads of the UBX classes that the hub interprets: ACK and INF.
use vstd::prelude::*;

use crate::parse::{u16_bytes, write_all, write_u16, ParseError};

verus! {

/// A message inside a class body: its id, its payload length (little-endian
/// `u16`) and its payload.
pub open spec fn class_record(id: u8, p: Seq<u8>) -> Seq<u8> {
    seq![id] + u16_bytes(p.len()) + p
}

/// Appends `id`, the length of `payload` and `payload`.
pub fn write_record(id: u8, payload: &[u8], out: &mut Vec<u8>)
    requires
        payload@.len() <= 0xffff,
    ensures
        final(out)@ == old(out)@ + class_record(id, payload@),
{
    out.push(id);
    write_u16(payload.len() as u16, out);
    write_all(payload, out);
    proof {
        assert(final(out)@ =~= old(out)@ + class_record(id, payload@));
    }
}

pub const ACK_ACK: u8 = 0x01;

pub const ACK_NAK: u8 = 0x00;

/// The (class, id) pair that an acknowledgement refers to.
#[derive(Debug, Clone, Copy, PartialEq, Eq, Structural)]
pub struct AckData {
    pub cls_id: u8,
    pub msg_id: u8,
}

/// Class ACK (0x05).
#[derive(Debug, Clone)]
pub enum Ack {
    Ack(AckData),
    Nak(AckData),
    Unknown { id: u8, payload: Vec<u8> },
}

impl Ack {
    pub open spec fn spec_id(&self) -> u8 {
        match self {
            Ack::Ack(_) => ACK_ACK,
            Ack::Nak(_) => ACK_NAK,
            Ack::Unknown { id, .. } => *id,
        }
    }

    pub open spec fn spec_payload(&self) -> Seq<u8> {
        match self {
            Ack::Ack(d) => seq![d.cls_id, d.msg_id],
            Ack::Nak(d) => seq![d.cls_id, d.msg_id],
            Ack::Unknown { payload, .. } => payload@,
        }
    }

    /// Unknown ids hold only what a read of an unknown id would produce.
    pub open spec fn wf(&self) -> bool {
        match self {
            Ack::Unknown { id, payload } => *id != ACK_ACK && *id != ACK_NAK && payload@.len()
                <= 0xffff,
            _ => true,
        }
    }

    /// A payload with this id can be read: acknowledgements carry exactly two bytes.
    pub open spec fn decodes(id: u8, p: Seq<u8>) -> bool {
        (id == ACK_ACK || id == ACK_NAK) ==> p.len() == 2
    }

    /// Message id of this value within class ACK.
    pub fn id(&self) -> (r: u8)
        ensures
            r == self.spec_id(),
    {
        match self {
            Ack::Ack(_) => ACK_ACK,
            Ack::Nak(_) => ACK_NAK,
            Ack::Unknown { id, .. } => *id,
        }
    }

    /// Reads the payload `p` of a message with id `id`.
    pub fn from_bytes(id: u8, p: &[u8]) -> (r: Result<Ack, ParseError>)
        requires
            p@.len() <= 0xffff,
        ensures
            r is Ok <==> Self::decodes(id, p@),
            r is Ok ==> r->Ok_0.wf() && r->Ok_0.spec_id() == id && r->Ok_0.spec_payload()
                == p@,
            r is Err ==> r->Err_0 == ParseError::InvalidLen,
    {
        if id == ACK_ACK || id == ACK_NAK {
            if p.len() != 2 {
                return Err(ParseError::InvalidLen);
            }
            let d = AckData { cls_id: p[0], msg_id: p[1] };
            proof {
                assert(seq![d.cls_id, d.msg_id] =~= p@);
            }
            if id == ACK_ACK {
                Ok(Ack::Ack(d))
            } else {
                Ok(Ack::Nak(d))
            }
        } else {
            let payload = vstd::slice::slice_to_vec(p);
            Ok(Ack::Unknown { id, payload })
        }
    }

    /// Appends the message as it stands in a class body: id, little-endian
    /// length, payload.
    pub fn write_bytes(&self, out: &mut Vec<u8>)
        requires
            self.spec_payload().len() <= 0xffff,
        ensures
            final(out)@ == old(out)@ + crate::classes::class_record(self.spec_id(), self.spec_payload()),
    {
        let mut p: Vec<u8> = Vec::new();
        self.write_payload(&mut p);
        proof {
            assert(p@ =~= self.spec_payload());
        }
        crate::classes::write_record(self.id(), p.as_slice(), out);
    }
    /// Appends the payload.
    pub fn write_payload(&self, out: &mut Vec<u8>)
        ensures
            final(out)@ == old(out)@ + self.spec_payload(),
    {
        match self {
            Ack::Ack(d) | Ack::Nak(d) => {
                out.push(d.cls_id);
                out.push(d.msg_id);
                proof {
                    assert(final(out)@ =~= old(out)@ + self.spec_payload());
                }
            },
            Ack::Unknown { payload, .. } => {
                write_all(payload.as_slice(), out);
            },
        }
    }
}

/// Class INF (0x04): text the receiver reports, kept as the bytes it sent.
#[derive(Debug, Clone)]
pub enum Inf {
    Error(Vec<u8>),
    Warning(Vec<u8>),
    Notice(Vec<u8>),
    Test(Vec<u8>),
    Debug(Vec<u8>),
    Unknown { id: u8, payload: Vec<u8> },
}

impl Inf {
    pub open spec fn spec_id(&self) -> u8 {
        match self {
            Inf::Error(_) => 0x00,
            Inf::Warning(_) => 0x01,
            Inf::Notice(_) => 0x02,
            Inf::Test(_) => 0x03,
            Inf::Debug(_) => 0x04,
            Inf::Unknown { id, .. } => *id,
        }
    }

    pub open spec fn spec_payload(&self) -> Seq<u8> {
        match self {
            Inf::Error(t) => t@,
            Inf::Warning(t) => t@,
            Inf::Notice(t) => t@,
            Inf::Test(t) => t@,
            Inf::Debug(t) => t@,
            Inf::Unknown { payload, .. } => payload@,
        }
    }

    pub open spec fn wf(&self) -> bool {
        &&& self.spec_payload().len() <= 0xffff
        &&& (self is Unknown ==> self.spec_id() > 0x04)
    }

    /// Message id of this value within class INF.
    pub fn id(&self) -> (r: u8)
        ensures
            r == self.spec_id(),
    {
        match self {
            Inf::Error(_) => 0x00,
            Inf::Warning(_) => 0x01,
            Inf::Notice(_) => 0x02,
            Inf::Test(_) => 0x03,
            Inf::Debug(_) => 0x04,
            Inf::Unknown { id, .. } => *id,
        }
    }

    /// Reads the payload `p` of a message with id `id`; every payload is accepted.
    pub fn from_bytes(id: u8, p: &[u8]) -> (r: Inf)
        requires
            p@.len() <= 0xffff,
        ensures
            r.wf(),
            r.spec_id() == id,
            r.spec_payload() == p@,
    {
        let t = vstd::slice::slice_to_vec(p);
        match id {
            0x00 => Inf::Error(t),
            0x01 => Inf::Warning(t),
            0x02 => Inf::Notice(t),
            0x03 => Inf::Test(t),
            0x04 => Inf::Debug(t),
            _ => Inf::Unknown { id, payload: t },
        }
    }

    /// The text (or, for an unknown id, the payload).
    pub fn text(&self) -> (r: &Vec<u8>)
        ensures
            r@ == self.spec_payload(),
    {
        match self {
            Inf::Error(t) | Inf::Warning(t) | Inf::Notice(t) | Inf::Test(t) | Inf::Debug(t) => t,
            Inf::Unknown { payload, .. } => payload,
        }
    }

    /// Appends the message as it stands in a class body: id, little-endian
    /// length, payload.
    pub fn write_bytes(&self, out: &mut Vec<u8>)
        requires
            self.spec_payload().len() <= 0xffff,
        ensures
            final(out)@ == old(out)@ + crate::classes::class_record(self.spec_id(), self.spec_payload()),
    {
        let mut p: Vec<u8> = Vec::new();
        self.write_payload(&mut p);
        proof {
            assert(p@ =~= self.spec_payload());
        }
        crate::classes::write_record(self.id(), p.as_slice(), out);
    }
    /// Appends the payload.
    pub fn write_payload(&self, out: &mut Vec<u8>)
        ensures
            final(out)@ == old(out)@ + self.spec_payload(),
    {
        write_all(self.text().as_slice(), out);
    }
}

/// A message of a class whose payload the hub carries without interpreting it.
#[derive(Debug, Clone)]
pub struct RawMsg {
    pub id: u8,
    pub payload: Vec<u8>,
}

/// Payload length that a known fixed-size message must have.
pub open spec fn fixed_len(class: u8, id: u8) -> Option<nat> {
    if class == 0x01 {
        if id == 0x22 {
            Some(20)
        } else if id == 0x04 {
            Some(18)
        } else if id == 0x61 {
            Some(4)
        } else if id == 0x13 {
            Some(28)
        } else if id == 0x14 {
            Some(36)
        } else if id == 0x09 {
            Some(20)
        } else if id == 0x01 {
            Some(20)
        } else if id == 0x02 {
            Some(28)
        } else if id == 0x07 {
            Some(92)
        } else if id == 0x3c {
            Some(64)
        } else if id == 0x3b {
            Some(40)
        } else if id == 0x20 {
            Some(16)
        } else if id == 0x26 {
            Some(24)
        } else if id == 0x11 {
            Some(20)
        } else {
            None
        }
    } else if class == 0x0a && id == 0x06 {
        Some(120)
    } else if class == 0x02 && id == 0x32 {
        Some(8)
    } else if class == 0x06 && id == 0x71 {
        Some(40)
    } else {
        None
    }
}

/// Looks up the payload length that a fixed-size message must have (0 when it has none).
pub fn fixed_len_of(class: u8, id: u8) -> (r: Option<u16>)
    ensures
        r is Some <==> fixed_len(class, id) is Some,
        r is Some ==> r->Some_0 as nat == fixed_len(class, id)->Some_0,
{
    if class == 0x01 {
        match id {
            0x22 => Some(20),
            0x04 => Some(18),
            0x61 => Some(4),
            0x13 => Some(28),
            0x14 => Some(36),
            0x09 => Some(20),
            0x01 => Some(20),
            0x02 => Some(28),
            0x07 => Some(92),
            0x3c => Some(64),
            0x3b => Some(40),
            0x20 => Some(16),
            0x26 => Some(24),
            0x11 => Some(20),
            _ => None,
        }
    } else if class == 0x0a && id == 0x06 {
        Some(120)
    } else if class == 0x02 && id == 0x32 {
        Some(8)
    } else if class == 0x06 && id == 0x71 {
        Some(40)
    } else {
        None
    }
}

impl RawMsg {
    /// Well formed as a message of `class`: a fixed-size id carries its size.
    pub open spec fn wf_in(&self, class: u8) -> bool {
        &&& self.payload@.len() <= 0xffff
        &&& (fixed_len(class, self.id) is Some ==> self.payload@.len() == fixed_len(
            class,
            self.id,
        )->Some_0)
    }

    /// Reads the payload `p` of a message of `class` with id `id`.
    pub fn from_bytes(class: u8, id: u8, p: &[u8]) -> (r: Result<RawMsg, ParseError>)
        requires
            p@.len() <= 0xffff,
        ensures
            r is Ok <==> (fixed_len(class, id) is Some ==> p@.len() == fixed_len(class, id)->Some_0),
            r is Ok ==> r->Ok_0.wf_in(class) && r->Ok_0.id == id && r->Ok_0.payload@ == p@,
            r is Err ==> r->Err_0 == ParseError::InvalidLen,
    {
        match fixed_len_of(class, id) {
            Some(n) => {
                if p.len() != n as usize {
                    return Err(ParseError::InvalidLen);
                }
            },
            None => {},
        }
        Ok(RawMsg { id, payload: vstd::slice::slice_to_vec(p) })
    }
}

} // verus!
