//! Classes NAV (0x01) and RXM (0x02): the known messages are typed; other
//! messages of these classes keep their payload.
use vstd::prelude::*;

use crate::classes::{fixed_len, RawMsg};
use crate::fields::{FixStatus, FixType};
use crate::parse::{take_u32, u32_bytes, write_all, write_u32, ParseError};
use crate::payloads::{
    Clock, Dop, Eoe, Hpposecef, Hpposllh, Odo, Posecef, Posllh, Pvt, RelPosNed, RxmRtcm, Satellite,
    Svin, TimeGps, TimeLs, Velecef,
};

verus! {

impl Pvt {
    /// Kind of fix.
    pub fn fix_type(&self) -> (r: FixType)
        ensures
            r.spec_code() == self.fix_type,
    {
        FixType::from_u8(self.fix_type)
    }

    /// The fix status byte, read.
    pub fn fix_status(&self) -> (r: Result<FixStatus, ParseError>)
        ensures
            r is Ok <==> ((self.flags / 4) % 8 <= 5 && self.flags / 64 <= 2),
            r is Ok ==> r->Ok_0.spec_to_u8() == self.flags,
    {
        FixStatus::from_u8(self.flags)
    }

    /// Validity flags, with unknown bits dropped.
    pub fn valid_flags(&self) -> (r: u8)
        ensures
            r == self.valid % 16,
    {
        self.valid % 16
    }
}

/// Concatenated bytes of a list of satellites.
pub open spec fn sats_bytes(ss: Seq<Satellite>) -> Seq<u8>
    decreases ss.len(),
{
    if ss.len() == 0 {
        Seq::empty()
    } else {
        sats_bytes(ss.drop_last()) + ss.last().spec_payload()
    }
}

/// A NAV-SAT payload: an 8-byte header, then as many 12-byte satellite
/// records as its sixth byte says.
pub open spec fn sat_decodes(p: Seq<u8>) -> bool {
    p.len() >= 8 && p.len() == 8 + 12 * (p[5] as nat)
}

/// NAV-SAT (0x01 0x35): the satellites in view.
#[derive(Debug, Clone)]
pub struct Sat {
    pub i_tow: u32,
    pub version: u8,
    pub num_svs: u8,
    pub res1: [u8; 2],
    pub sats: Vec<Satellite>,
}

impl Sat {
    pub open spec fn spec_payload(&self) -> Seq<u8> {
        u32_bytes(self.i_tow as nat) + seq![self.version, self.num_svs, self.res1@[0], self.res1@[1]]
            + sats_bytes(self.sats@)
    }

    pub open spec fn wf(&self) -> bool {
        &&& self.sats@.len() == self.num_svs as nat
        &&& forall|i: int| 0 <= i < self.sats@.len() ==> (#[trigger] self.sats@[i]).spec_payload().len() == 12
    }

    /// Reads a payload; the length must match the satellite count.
    pub fn from_bytes(p: &[u8]) -> (r: Result<Sat, ParseError>)
        ensures
            r is Ok <==> sat_decodes(p@),
            r is Ok ==> r->Ok_0.wf() && r->Ok_0.spec_payload() == p@,
            r is Err ==> r->Err_0 == ParseError::InvalidLen,
    {
        if p.len() < 8 || p.len() != 8 + 12 * (p[5] as usize) {
            return Err(ParseError::InvalidLen);
        }
        let n = p[5] as usize;
        let mut sats: Vec<Satellite> = Vec::new();
        let mut i: usize = 0;
        proof {
            assert(sats_bytes(sats@) =~= p@.subrange(8, 8));
        }
        while i < n
            invariant
                sat_decodes(p@),
                n == p@[5] as nat,
                i <= n,
                sats@.len() == i,
                sats_bytes(sats@) == p@.subrange(8, 8 + 12 * i),
                forall|k: int| 0 <= k < sats@.len() ==> (#[trigger] sats@[k]).spec_payload().len() == 12,
            decreases n - i,
        {
            let start = 8 + 12 * i;
            let s = Satellite::from_bytes(vstd::slice::slice_subrange(p, start, start + 12));
            let ghost old_sats = sats@;
            sats.push(s);
            proof {
                assert(sats@.drop_last() =~= old_sats);
                assert(p@.subrange(8, start as int) + p@.subrange(start as int, start + 12)
                    =~= p@.subrange(8, start + 12));
            }
            i += 1;
        }
        let i_tow = take_u32(p, 0);
        let r = Sat { i_tow, version: p[4], num_svs: p[5], res1: [p[6], p[7]], sats };
        proof {
            assert(r.spec_payload() =~= p@);
        }
        Ok(r)
    }

    /// Appends the payload.
    pub fn write_bytes(&self, out: &mut Vec<u8>)
        ensures
            final(out)@ == old(out)@ + self.spec_payload(),
    {
        let mut buf: Vec<u8> = Vec::new();
        write_u32(self.i_tow, &mut buf);
        buf.push(self.version);
        buf.push(self.num_svs);
        buf.push(self.res1[0]);
        buf.push(self.res1[1]);
        let ghost head = buf@;
        let mut i: usize = 0;
        while i < self.sats.len()
            invariant
                i <= self.sats@.len(),
                buf@ == head + sats_bytes(self.sats@.subrange(0, i as int)),
            decreases self.sats@.len() - i,
        {
            self.sats[i].write_bytes(&mut buf);
            proof {
                assert(self.sats@.subrange(0, i + 1).drop_last() =~= self.sats@.subrange(0, i as int));
            }
            i += 1;
        }
        proof {
            assert(self.sats@.subrange(0, self.sats@.len() as int) =~= self.sats@);
            assert(buf@ =~= self.spec_payload());
        }
        write_all(buf.as_slice(), out);
    }
}

/// Class NAV.
#[derive(Debug, Clone)]
pub enum Nav {
    Clock(Clock),
    Dop(Dop),
    Eoe(Eoe),
    Hpposecef(Hpposecef),
    Hpposllh(Hpposllh),
    Odo(Odo),
    Posecef(Posecef),
    Posllh(Posllh),
    Pvt(Pvt),
    RelPosNed(RelPosNed),
    Svin(Svin),
    TimeGps(TimeGps),
    TimeLs(TimeLs),
    Velecef(Velecef),
    Sat(Sat),
    Other(RawMsg),
}

impl Nav {
    pub open spec fn spec_id(&self) -> u8 {
        match self {
            Nav::Clock(_) => 0x22,
            Nav::Dop(_) => 0x04,
            Nav::Eoe(_) => 0x61,
            Nav::Hpposecef(_) => 0x13,
            Nav::Hpposllh(_) => 0x14,
            Nav::Odo(_) => 0x09,
            Nav::Posecef(_) => 0x01,
            Nav::Posllh(_) => 0x02,
            Nav::Pvt(_) => 0x07,
            Nav::RelPosNed(_) => 0x3c,
            Nav::Svin(_) => 0x3b,
            Nav::TimeGps(_) => 0x20,
            Nav::TimeLs(_) => 0x26,
            Nav::Velecef(_) => 0x11,
            Nav::Sat(_) => 0x35,
            Nav::Other(m) => m.id,
        }
    }

    pub open spec fn spec_payload(&self) -> Seq<u8> {
        match self {
            Nav::Clock(x) => x.spec_payload(),
            Nav::Dop(x) => x.spec_payload(),
            Nav::Eoe(x) => x.spec_payload(),
            Nav::Hpposecef(x) => x.spec_payload(),
            Nav::Hpposllh(x) => x.spec_payload(),
            Nav::Odo(x) => x.spec_payload(),
            Nav::Posecef(x) => x.spec_payload(),
            Nav::Posllh(x) => x.spec_payload(),
            Nav::Pvt(x) => x.spec_payload(),
            Nav::RelPosNed(x) => x.spec_payload(),
            Nav::Svin(x) => x.spec_payload(),
            Nav::TimeGps(x) => x.spec_payload(),
            Nav::TimeLs(x) => x.spec_payload(),
            Nav::Velecef(x) => x.spec_payload(),
            Nav::Sat(x) => x.spec_payload(),
            Nav::Other(m) => m.payload@,
        }
    }

    /// A typed message holds the payload length of its id; other ids keep theirs.
    pub open spec fn wf(&self) -> bool {
        match self {
            Nav::Clock(x) => x.spec_payload().len() == 20,
            Nav::Dop(x) => x.spec_payload().len() == 18,
            Nav::Eoe(x) => x.spec_payload().len() == 4,
            Nav::Hpposecef(x) => x.spec_payload().len() == 28,
            Nav::Hpposllh(x) => x.spec_payload().len() == 36,
            Nav::Odo(x) => x.spec_payload().len() == 20,
            Nav::Posecef(x) => x.spec_payload().len() == 20,
            Nav::Posllh(x) => x.spec_payload().len() == 28,
            Nav::Pvt(x) => x.spec_payload().len() == 92,
            Nav::RelPosNed(x) => x.spec_payload().len() == 64,
            Nav::Svin(x) => x.spec_payload().len() == 40,
            Nav::TimeGps(x) => x.spec_payload().len() == 16,
            Nav::TimeLs(x) => x.spec_payload().len() == 24,
            Nav::Velecef(x) => x.spec_payload().len() == 20,
            Nav::Sat(x) => x.wf() && sat_decodes(x.spec_payload()),
            Nav::Other(m) => !Nav::typed_id(m.id) && m.wf_in(0x01),
        }
    }

    /// Ids that have a typed variant.
    pub open spec fn typed_id(id: u8) -> bool {
        id == 0x22 || id == 0x04 || id == 0x61 || id == 0x13 || id == 0x14 || id == 0x09 || id == 0x01 || id == 0x02 || id == 0x07 || id == 0x3c || id == 0x3b || id == 0x20 || id == 0x26 || id == 0x11 || id == 0x35
    }

    /// A payload of this class with id `id` can be read.
    pub open spec fn decodes(id: u8, p: Seq<u8>) -> bool {
        &&& (fixed_len(0x01, id) is Some ==> p.len() == fixed_len(0x01, id)->Some_0)
        &&& (id == 0x35 ==> sat_decodes(p))
    }

    pub fn id(&self) -> (r: u8)
        ensures
            r == self.spec_id(),
    {
        match self {
            Nav::Clock(_) => 0x22,
            Nav::Dop(_) => 0x04,
            Nav::Eoe(_) => 0x61,
            Nav::Hpposecef(_) => 0x13,
            Nav::Hpposllh(_) => 0x14,
            Nav::Odo(_) => 0x09,
            Nav::Posecef(_) => 0x01,
            Nav::Posllh(_) => 0x02,
            Nav::Pvt(_) => 0x07,
            Nav::RelPosNed(_) => 0x3c,
            Nav::Svin(_) => 0x3b,
            Nav::TimeGps(_) => 0x20,
            Nav::TimeLs(_) => 0x26,
            Nav::Velecef(_) => 0x11,
            Nav::Sat(_) => 0x35,
            Nav::Other(m) => m.id,
        }
    }

    /// Reads the payload `p` of a message of this class with id `id`.
    pub fn from_bytes(id: u8, p: &[u8]) -> (r: Result<Nav, ParseError>)
        requires
            p@.len() <= 0xffff,
        ensures
            r is Ok <==> Self::decodes(id, p@),
            r is Ok ==> r->Ok_0.wf() && r->Ok_0.spec_id() == id && r->Ok_0.spec_payload() == p@,
            r is Err ==> r->Err_0 == ParseError::InvalidLen,
    {
        let m = match RawMsg::from_bytes(0x01, id, p) {
            Ok(m) => m,
            Err(e) => return Err(e),
        };
        match id {
            0x22 => Ok(Nav::Clock(Clock::from_bytes(p))),
            0x04 => Ok(Nav::Dop(Dop::from_bytes(p))),
            0x61 => Ok(Nav::Eoe(Eoe::from_bytes(p))),
            0x13 => Ok(Nav::Hpposecef(Hpposecef::from_bytes(p))),
            0x14 => Ok(Nav::Hpposllh(Hpposllh::from_bytes(p))),
            0x09 => Ok(Nav::Odo(Odo::from_bytes(p))),
            0x01 => Ok(Nav::Posecef(Posecef::from_bytes(p))),
            0x02 => Ok(Nav::Posllh(Posllh::from_bytes(p))),
            0x07 => Ok(Nav::Pvt(Pvt::from_bytes(p))),
            0x3c => Ok(Nav::RelPosNed(RelPosNed::from_bytes(p))),
            0x3b => Ok(Nav::Svin(Svin::from_bytes(p))),
            0x20 => Ok(Nav::TimeGps(TimeGps::from_bytes(p))),
            0x26 => Ok(Nav::TimeLs(TimeLs::from_bytes(p))),
            0x11 => Ok(Nav::Velecef(Velecef::from_bytes(p))),
            0x35 => match Sat::from_bytes(p) {
                Ok(x) => Ok(Nav::Sat(x)),
                Err(e) => Err(e),
            },
            _ => Ok(Nav::Other(m)),
        }
    }

    /// Appends the message as it stands in a class body: id, little-endian
    /// length, payload.
    pub fn write_bytes(&self, out: &mut Vec<u8>)
        requires
            self.spec_payload().len() <= 0xffff,
        ensures
            final(out)@ == old(out)@ + crate::classes::class_record(self.spec_id(), self.spec_payload()),
    {
        let mut p: Vec<u8> = Vec::new();
        self.write_payload(&mut p);
        proof {
            assert(p@ =~= self.spec_payload());
        }
        crate::classes::write_record(self.id(), p.as_slice(), out);
    }
    /// Appends the payload.
    pub fn write_payload(&self, out: &mut Vec<u8>)
        ensures
            final(out)@ == old(out)@ + self.spec_payload(),
    {
        match self {
            Nav::Clock(x) => x.write_bytes(out),
            Nav::Dop(x) => x.write_bytes(out),
            Nav::Eoe(x) => x.write_bytes(out),
            Nav::Hpposecef(x) => x.write_bytes(out),
            Nav::Hpposllh(x) => x.write_bytes(out),
            Nav::Odo(x) => x.write_bytes(out),
            Nav::Posecef(x) => x.write_bytes(out),
            Nav::Posllh(x) => x.write_bytes(out),
            Nav::Pvt(x) => x.write_bytes(out),
            Nav::RelPosNed(x) => x.write_bytes(out),
            Nav::Svin(x) => x.write_bytes(out),
            Nav::TimeGps(x) => x.write_bytes(out),
            Nav::TimeLs(x) => x.write_bytes(out),
            Nav::Velecef(x) => x.write_bytes(out),
            Nav::Sat(x) => x.write_bytes(out),
            Nav::Other(m) => write_all(m.payload.as_slice(), out),
        }
    }
}

/// Class RXM.
#[derive(Debug, Clone)]
pub enum Rxm {
    Rtcm(RxmRtcm),
    Other(RawMsg),
}

impl Rxm {
    pub open spec fn spec_id(&self) -> u8 {
        match self {
            Rxm::Rtcm(_) => 0x32,
            Rxm::Other(m) => m.id,
        }
    }

    pub open spec fn spec_payload(&self) -> Seq<u8> {
        match self {
            Rxm::Rtcm(x) => x.spec_payload(),
            Rxm::Other(m) => m.payload@,
        }
    }

    /// A typed message holds the payload length of its id; other ids keep theirs.
    pub open spec fn wf(&self) -> bool {
        match self {
            Rxm::Rtcm(x) => x.spec_payload().len() == 8,
            Rxm::Other(m) => !Rxm::typed_id(m.id) && m.wf_in(0x02),
        }
    }

    /// Ids that have a typed variant.
    pub open spec fn typed_id(id: u8) -> bool {
        id == 0x32
    }

    /// A payload of this class with id `id` can be read.
    pub open spec fn decodes(id: u8, p: Seq<u8>) -> bool {
        &&& (fixed_len(0x02, id) is Some ==> p.len() == fixed_len(0x02, id)->Some_0)
    }

    pub fn id(&self) -> (r: u8)
        ensures
            r == self.spec_id(),
    {
        match self {
            Rxm::Rtcm(_) => 0x32,
            Rxm::Other(m) => m.id,
        }
    }

    /// Reads the payload `p` of a message of this class with id `id`.
    pub fn from_bytes(id: u8, p: &[u8]) -> (r: Result<Rxm, ParseError>)
        requires
            p@.len() <= 0xffff,
        ensures
            r is Ok <==> Self::decodes(id, p@),
            r is Ok ==> r->Ok_0.wf() && r->Ok_0.spec_id() == id && r->Ok_0.spec_payload() == p@,
            r is Err ==> r->Err_0 == ParseError::InvalidLen,
    {
        let m = match RawMsg::from_bytes(0x02, id, p) {
            Ok(m) => m,
            Err(e) => return Err(e),
        };
        match id {
            0x32 => Ok(Rxm::Rtcm(RxmRtcm::from_bytes(p))),
            _ => Ok(Rxm::Other(m)),
        }
    }

    /// Appends the message as it stands in a class body: id, little-endian
    /// length, payload.
    pub fn write_bytes(&self, out: &mut Vec<u8>)
        requires
            self.spec_payload().len() <= 0xffff,
        ensures
            final(out)@ == old(out)@ + crate::classes::class_record(self.spec_id(), self.spec_payload()),
    {
        let mut p: Vec<u8> = Vec::new();
        self.write_payload(&mut p);
        proof {
            assert(p@ =~= self.spec_payload());
        }
        crate::classes::write_record(self.id(), p.as_slice(), out);
    }
    /// Appends the payload.
    pub fn write_payload(&self, out: &mut Vec<u8>)
        ensures
            final(out)@ == old(out)@ + self.spec_payload(),
    {
        match self {
            Rxm::Rtcm(x) => x.write_bytes(out),
            Rxm::Other(m) => write_all(m.payload.as_slice(), out),
        }
    }
}

} // verus!
