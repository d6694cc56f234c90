//! The union of all messages a hub carries, and the dispatch between codecs.
use vstd::prelude::*;

use crate::message::{
    lemma_poll_round_trip, lemma_ubx_round_trip, payload_decodes, poll_accepts, poll_error,
    stored_payload,
    ubx_accepts, ubx_error, known_class, Ubx, UbxPoll,
};
use crate::nmea::{ascii_upto, crlf_at, no_crlf_before, Nmea, NMEA_PREAMBLE};
use crate::parse::ParseError;
use crate::rtcm::{crc24q_ok, rtcm_complete, rtcm_payload_len, RtcmFrame, RTCM_PREAMBLE};
use crate::server::{Server, SERVER_PREFIX};
use crate::ubx::{ubx_payload, ubx_payload_len, ubx_prefix};

verus! {

/// Any message the hub understands.
#[derive(Debug, Clone)]
pub enum GpsMsg {
    Ubx(Ubx),
    UbxPoll(UbxPoll),
    Rtcm3(RtcmFrame),
    Nmea(Nmea),
    Server(Server),
}

pub open spec fn rtcm_prefix(b: Seq<u8>) -> bool {
    b.len() >= 1 && b[0] == RTCM_PREAMBLE
}

pub open spec fn nmea_prefix(b: Seq<u8>) -> bool {
    b.len() >= 1 && b[0] == NMEA_PREAMBLE
}

pub open spec fn server_prefix(b: Seq<u8>) -> bool {
    b.len() >= 1 && b[0] == SERVER_PREFIX
}

/// `b` starts like one of the four kinds of message.
pub open spec fn any_prefix(b: Seq<u8>) -> bool {
    ubx_prefix(b) || rtcm_prefix(b) || nmea_prefix(b) || server_prefix(b)
}

/// A UBX read that fails this way is tried again as a poll.
pub open spec fn retry_as_poll(e: ParseError) -> bool {
    e == ParseError::Invalid || e == ParseError::InvalidLen
}

pub open spec fn rtcm_usage(b: Seq<u8>) -> bool {
    b.len() >= 3 && rtcm_prefix(b) && b.len() >= rtcm_payload_len(b) + 6
}

pub open spec fn nmea_usage(b: Seq<u8>) -> bool {
    nmea_prefix(b) && !no_crlf_before(b, b.len() as int)
}

pub open spec fn server_usage(b: Seq<u8>) -> bool {
    b.len() >= 2 && server_prefix(b)
}

impl GpsMsg {
    pub open spec fn wf(&self) -> bool {
        match self {
            GpsMsg::Ubx(m) => m.wf(),
            GpsMsg::UbxPoll(m) => m.wf(),
            GpsMsg::Rtcm3(m) => m.wf(),
            GpsMsg::Nmea(m) => m.wf(),
            GpsMsg::Server(_) => true,
        }
    }

    /// The bytes that `parse_write` produces.
    pub open spec fn spec_encode(&self) -> Seq<u8> {
        match self {
            GpsMsg::Ubx(m) => m.spec_encode(),
            GpsMsg::UbxPoll(m) => m.spec_encode(),
            GpsMsg::Rtcm3(m) => m.data@,
            GpsMsg::Nmea(m) => m.sentence@,
            GpsMsg::Server(m) => m.spec_encode(),
        }
    }

    /// `b` starts like a UBX, RTCM, NMEA or control message.
    pub fn contains_prefix(b: &[u8]) -> (r: bool)
        ensures
            r == any_prefix(b@),
    {
        Ubx::contains_prefix(b) || RtcmFrame::contains_prefix(b) || Nmea::contains_prefix(b)
            || Server::contains_prefix(b)
    }

    /// Length of the first message in `b`, once all of it is there.
    pub fn message_usage(b: &[u8]) -> (r: Option<usize>)
        ensures
            r is Some <==> (crate::ubx::ubx_complete(b@) || rtcm_usage(b@) || nmea_usage(b@)
                || server_usage(b@)),
            crate::ubx::ubx_complete(b@) ==> r == Some((ubx_payload_len(b@) + 8) as usize),
            !crate::ubx::ubx_complete(b@) && rtcm_usage(b@) ==> r == Some(
                (rtcm_payload_len(b@) + 6) as usize,
            ),
            !crate::ubx::ubx_complete(b@) && !rtcm_usage(b@) && nmea_usage(b@) ==> r->Some_0 >= 2
                && crlf_at(b@, r->Some_0 - 2) && no_crlf_before(b@, r->Some_0 - 2),
            !crate::ubx::ubx_complete(b@) && !rtcm_usage(b@) && !nmea_usage(b@) && server_usage(
                b@,
            ) ==> r == Some(2usize),
    {
        match Ubx::message_usage(b) {
            Some(n) => return Some(n),
            None => {},
        }
        match RtcmFrame::message_usage(b) {
            Some(n) => return Some(n),
            None => {},
        }
        match Nmea::message_usage(b) {
            Some(n) => return Some(n),
            None => {},
        }
        Server::message_usage(b)
    }

    /// Reads a UBX message at the start of `b`, or a poll where the message
    /// reading fails on its payload.
    pub fn parse_gps_msg(b: &[u8]) -> (r: Result<(GpsMsg, usize), ParseError>)
        ensures
            ubx_accepts(b@) ==> r is Ok && r->Ok_0.0 is Ubx,
            !ubx_accepts(b@) && !retry_as_poll(ubx_error(b@)) ==> r == Err::<
                (GpsMsg, usize),
                ParseError,
            >(ubx_error(b@)),
            !ubx_accepts(b@) && retry_as_poll(ubx_error(b@)) ==> (r is Ok <==> poll_accepts(b@)),
            !ubx_accepts(b@) && retry_as_poll(ubx_error(b@)) && !poll_accepts(b@) ==> r == Err::<
                (GpsMsg, usize),
                ParseError,
            >(poll_error(b@)),
            !ubx_accepts(b@) && retry_as_poll(ubx_error(b@)) && r is Ok ==> r->Ok_0.0 is UbxPoll,
            r is Ok ==> r->Ok_0.0.wf() && r->Ok_0.1 <= b@.len(),
            r is Ok && crate::message::lossless(b@[2], b@[3]) ==> r->Ok_0.0.spec_encode() == b@.subrange(0, r->Ok_0.1 as int),
            r is Ok && r->Ok_0.0 is Ubx ==> ({
                let m = r->Ok_0.0->Ubx_0;
                &&& m.spec_class() == b@[2]
                &&& m.spec_id() == b@[3]
                &&& m.spec_payload() == stored_payload(b@[2], b@[3], ubx_payload(b@))
            }),
            r is Ok && r->Ok_0.0 is UbxPoll ==> r->Ok_0.0->UbxPoll_0.spec_class() == b@[2]
                && r->Ok_0.0->UbxPoll_0.spec_id() == b@[3] && r->Ok_0.1 == 8,
            r is Ok && r->Ok_0.0 is Ubx ==> r->Ok_0.1 == ubx_payload_len(b@) + 8 && (
            r->Ok_0.0->Ubx_0 is Unknown <==> !known_class(b@[2])),
    {
        match Ubx::parse_read(b) {
            Ok((m, n)) => Ok((GpsMsg::Ubx(m), n)),
            Err(e) => {
                if e == ParseError::Invalid || e == ParseError::InvalidLen {
                    match UbxPoll::parse_read(b) {
                        Ok((p, n)) => Ok((GpsMsg::UbxPoll(p), n)),
                        Err(e2) => Err(e2),
                    }
                } else {
                    Err(e)
                }
            },
        }
    }

    /// Reads the message at the start of `b` with the codec its first byte selects,
    /// trying UBX, then RTCM, then NMEA, then the control frame.
    pub fn parse_read(b: &[u8]) -> (r: Result<(GpsMsg, usize), ParseError>)
        ensures
            !any_prefix(b@) ==> r == Err::<(GpsMsg, usize), ParseError>(ParseError::Invalid),
            ubx_prefix(b@) ==> (r is Ok <==> (ubx_accepts(b@) || (retry_as_poll(ubx_error(b@))
                && poll_accepts(b@)))),
            ubx_prefix(b@) && ubx_accepts(b@) ==> r is Ok && r->Ok_0.0 is Ubx,
            ubx_prefix(b@) && r is Ok ==> (r->Ok_0.0 is Ubx || r->Ok_0.0 is UbxPoll),
            ubx_prefix(b@) && !ubx_accepts(b@) && !retry_as_poll(ubx_error(b@)) ==> r == Err::<
                (GpsMsg, usize),
                ParseError,
            >(ubx_error(b@)),
            ubx_prefix(b@) && !ubx_accepts(b@) && retry_as_poll(ubx_error(b@)) && !poll_accepts(b@)
                ==> r == Err::<(GpsMsg, usize), ParseError>(poll_error(b@)),
            !ubx_prefix(b@) && rtcm_prefix(b@) ==> (r is Ok <==> (rtcm_complete(b@) && crc24q_ok(
                b@.subrange(0, rtcm_payload_len(b@) + 6 as int),
            ))),
            !ubx_prefix(b@) && rtcm_prefix(b@) && r is Ok ==> r->Ok_0.0 is Rtcm3,
            !ubx_prefix(b@) && !rtcm_prefix(b@) && nmea_prefix(b@) ==> (r is Ok <==> exists|n: int|
                crlf_at(b@, n - 2) && no_crlf_before(b@, n - 2) && ascii_upto(b@, n)),
            !ubx_prefix(b@) && !rtcm_prefix(b@) && nmea_prefix(b@) && r is Ok ==> r->Ok_0.0 is Nmea,
            server_prefix(b@) ==> (r is Ok <==> (b@.len() >= 2 && b@[1] <= 1)),
            server_prefix(b@) && r is Ok ==> r->Ok_0.0 is Server,
            r is Ok ==> r->Ok_0.0.wf() && r->Ok_0.1 <= b@.len(),
            r is Ok && r->Ok_0.0 is Ubx ==> r->Ok_0.1 == ubx_payload_len(b@) + 8 && ({
                let m = r->Ok_0.0->Ubx_0;
                &&& m.spec_class() == b@[2]
                &&& m.spec_id() == b@[3]
                &&& m.spec_payload() == stored_payload(b@[2], b@[3], ubx_payload(b@))
                &&& (m is Unknown <==> !known_class(b@[2]))
            }),
            r is Ok && r->Ok_0.0 is UbxPoll ==> r->Ok_0.1 == 8,
            r is Ok && r->Ok_0.0 is Rtcm3 ==> r->Ok_0.1 == rtcm_payload_len(b@) + 6,
            r is Ok && r->Ok_0.0 is Nmea ==> r->Ok_0.1 >= 2 && crlf_at(b@, r->Ok_0.1 - 2)
                && no_crlf_before(b@, r->Ok_0.1 - 2),
            r is Ok && r->Ok_0.0 is Server ==> r->Ok_0.1 == 2,
            r is Ok && !(ubx_prefix(b@) && !crate::message::lossless(b@[2], b@[3])) ==> r->Ok_0.0.spec_encode()
                == b@.subrange(0, r->Ok_0.1 as int),
    {
        let _n = b.len();
        if Ubx::contains_prefix(b) {
            Self::parse_gps_msg(b)
        } else if RtcmFrame::contains_prefix(b) {
            match RtcmFrame::from_bytes(b) {
                Ok((m, n)) => Ok((GpsMsg::Rtcm3(m), n)),
                Err(e) => Err(e),
            }
        } else if Nmea::contains_prefix(b) {
            match Nmea::parse_read(b) {
                Ok((m, n)) => {
                    proof {
                        let k = n as int;
                        assert(crlf_at(b@, k - 2) && no_crlf_before(b@, k - 2) && ascii_upto(b@, k)) by {
                            let s = m.sentence@;
                            assert(s.len() == k);
                            assert(s[k - 2] == b@[k - 2] && s[k - 1] == b@[k - 1]);
                            assert forall|j: int| 0 <= j < k - 2 implies !crlf_at(b@, j) by {
                                assert(s[j] == b@[j] && s[j + 1] == b@[j + 1]);
                                assert(!crlf_at(s, j));
                            }
                            assert forall|j: int| 0 <= j < k implies b@[j] < 0x80 by {
                                assert(s.len() == k);
                                assert(s[j] == b@[j]);
                            }
                        }
                    }
                    Ok((GpsMsg::Nmea(m), n))
                },
                Err(e) => {
                    proof {
                        if e != ParseError::Invalid {
                            assert forall|k: int| !(crlf_at(b@, k - 2) && no_crlf_before(b@, k - 2)
                                && ascii_upto(b@, k)) by {
                                if crlf_at(b@, k - 2) {
                                    assert(!no_crlf_before(b@, b@.len() as int));
                                }
                            }
                        } else {
                            let w = choose|n: int| crlf_at(b@, n - 2) && no_crlf_before(b@, n - 2) && !ascii_upto(b@, n);
                            assert forall|k: int| !(crlf_at(b@, k - 2) && no_crlf_before(b@, k - 2)
                                && ascii_upto(b@, k)) by {
                                if crlf_at(b@, k - 2) && no_crlf_before(b@, k - 2) {
                                    if k < w {
                                        assert(!crlf_at(b@, k - 2));
                                    }
                                    if w < k {
                                        assert(!crlf_at(b@, w - 2));
                                    }
                                }
                            }
                        }
                    }
                    Err(e)
                },
            }
        } else if Server::contains_prefix(b) {
            match Server::parse_read(b) {
                Ok((m, n)) => Ok((GpsMsg::Server(m), n)),
                Err(e) => Err(e),
            }
        } else {
            Err(ParseError::Invalid)
        }
    }

    /// Appends the bytes of the message.
    pub fn parse_write(&self, out: &mut Vec<u8>)
        requires
            self.wf(),
        ensures
            final(out)@ == old(out)@ + self.spec_encode(),
    {
        match self {
            GpsMsg::Ubx(m) => m.parse_write(out),
            GpsMsg::UbxPoll(m) => m.parse_write(out),
            GpsMsg::Rtcm3(m) => m.parse_write(out),
            GpsMsg::Nmea(m) => m.parse_write(out),
            GpsMsg::Server(m) => m.parse_write(out),
        }
    }

    /// The bytes of the message in a new vector.
    pub fn write_bytes(&self) -> (r: Vec<u8>)
        requires
            self.wf(),
        ensures
            r@ == self.spec_encode(),
    {
        let mut out: Vec<u8> = Vec::new();
        self.parse_write(&mut out);
        proof {
            assert(out@ =~= self.spec_encode());
        }
        out
    }

    /// The control frame inside, or the message itself when it is something else.
    pub fn into_server(self) -> (r: Result<Server, GpsMsg>)
        ensures
            self is Server ==> r == Ok::<Server, GpsMsg>(self->Server_0),
            !(self is Server) ==> r == Err::<Server, GpsMsg>(self),
    {
        match self {
            GpsMsg::Server(x) => Ok(x),
            x => Err(x),
        }
    }
}

/// A poll that a read finds again as a poll: one of a known class whose
/// message, with an empty payload, would not read as a message.
pub open spec fn poll_reads_back(p: UbxPoll) -> bool {
    known_class(p.spec_class()) && !payload_decodes(p.spec_class(), p.spec_id(), Seq::empty())
}

/// What `GpsMsg::parse_read` finds at the start of `b`, stated over the
/// conditions its contract uses: the codec that `m` belongs to accepts `b`,
/// and the fields it reads are those of `m`.
pub open spec fn reads_back(m: GpsMsg, b: Seq<u8>) -> bool {
    match m {
        GpsMsg::Ubx(u) => {
            &&& ubx_prefix(b)
            &&& ubx_accepts(b)
            &&& ubx_payload_len(b) + 8 == u.spec_encode().len()
            &&& b[2] == u.spec_class()
            &&& b[3] == u.spec_id()
            &&& stored_payload(b[2], b[3], ubx_payload(b)) == u.spec_payload()
            &&& (u is Unknown <==> !known_class(b[2]))
        },
        GpsMsg::UbxPoll(p) => {
            &&& ubx_prefix(b)
            &&& !ubx_accepts(b)
            &&& retry_as_poll(ubx_error(b))
            &&& poll_accepts(b)
            &&& b.subrange(0, 8) == p.spec_encode()
        },
        GpsMsg::Rtcm3(f) => {
            &&& !ubx_prefix(b)
            &&& rtcm_prefix(b)
            &&& rtcm_complete(b)
            &&& crc24q_ok(b.subrange(0, rtcm_payload_len(b) + 6 as int))
            &&& b.subrange(0, rtcm_payload_len(b) + 6 as int) == f.data@
        },
        GpsMsg::Nmea(s) => {
            let n = s.sentence@.len() as int;
            &&& !ubx_prefix(b)
            &&& !rtcm_prefix(b)
            &&& nmea_prefix(b)
            &&& crlf_at(b, n - 2)
            &&& no_crlf_before(b, n - 2)
            &&& ascii_upto(b, n)
            &&& b.subrange(0, n) == s.sentence@
        },
        GpsMsg::Server(s) => {
            &&& server_prefix(b)
            &&& b.len() >= 2
            &&& b[1] <= 1
            &&& b.subrange(0, 2) == s.spec_encode()
        },
    }
}

/// Round trip: the bytes written for a well-formed message, followed by
/// anything, read back as that message (same variant, same fields, same
/// length). Polls are the exception where the message of the same id with an
/// empty payload is itself readable; those are left out.
pub proof fn lemma_gps_round_trip(m: GpsMsg, rest: Seq<u8>)
    requires
        m.wf(),
        m is UbxPoll ==> poll_reads_back(m->UbxPoll_0),
    ensures
        reads_back(m, m.spec_encode() + rest),
{
    let b = m.spec_encode() + rest;
    match m {
        GpsMsg::Ubx(u) => {
            lemma_ubx_round_trip(u, rest);
        },
        GpsMsg::UbxPoll(p) => {
            lemma_poll_round_trip(p, rest);
            assert(ubx_payload(b) =~= Seq::<u8>::empty());
        },
        GpsMsg::Rtcm3(f) => {
            let d = f.data@;
            assert(b[0] == d[0] && b[1] == d[1] && b[2] == d[2]);
            assert(b.subrange(0, rtcm_payload_len(b) + 6 as int) =~= d);
        },
        GpsMsg::Nmea(s) => {
            let d = s.sentence@;
            let n = d.len() as int;
            assert(b.subrange(0, n) =~= d);
            assert forall|j: int| 0 <= j < n implies b[j] == d[j] by {}
            assert(crlf_at(d, n - 2));
            assert forall|j: int| 0 <= j < n - 2 implies !crlf_at(b, j) by {
                assert(!crlf_at(d, j));
            }
        },
        GpsMsg::Server(s) => {
            assert(b.subrange(0, 2) =~= s.spec_encode());
        },
    }
}

/// Round trip as equality of values, for the kinds whose values hold no
/// vectors: a control frame, and a poll, are fixed by their bytes. With
/// `GpsMsg::parse_read`, whose result writes the bytes it was read from, the
/// value read back is the one written.
pub proof fn lemma_encoding_determines(m1: GpsMsg, m2: GpsMsg)
    requires
        m1.wf(),
        m2.wf(),
        (m1 is Server && m2 is Server) || (m1 is UbxPoll && m2 is UbxPoll),
        m1.spec_encode() == m2.spec_encode(),
    ensures
        m1 == m2,
{
    let e = m1.spec_encode();
    match (m1, m2) {
        (GpsMsg::Server(a), GpsMsg::Server(b)) => {
            assert(e[1] == a.msg.spec_code() && e[1] == b.msg.spec_code());
        },
        (GpsMsg::UbxPoll(a), GpsMsg::UbxPoll(b)) => {
            crate::message::lemma_poll_round_trip(a, Seq::empty());
            crate::message::lemma_poll_round_trip(b, Seq::empty());
            assert(a.spec_encode() + Seq::<u8>::empty() =~= e);
            assert(b.spec_encode() + Seq::<u8>::empty() =~= e);
            assert(a.spec_class() == b.spec_class() && a.spec_id() == b.spec_id());
            match (a, b) {
                (
                    UbxPoll::Unknown { class: c1, msg: i1, ck_a: x1, ck_b: y1 },
                    UbxPoll::Unknown { class: c2, msg: i2, ck_a: x2, ck_b: y2 },
                ) => {
                    assert(e[6] == x1 && e[6] == x2 && e[7] == y1 && e[7] == y2);
                },
                _ => {},
            }
        },
        _ => {},
    }
}

} // verus!
