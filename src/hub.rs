//! Framing of the receiver's byte stream in the hub: skip to the next known
//! message prefix, then cut whole messages off the accumulated bytes.
use vstd::prelude::*;

use crate::msg::{any_prefix, lemma_gps_round_trip, nmea_usage, rtcm_usage, server_usage, GpsMsg};
use crate::nmea::{crlf_at, no_crlf_before};
use crate::rtcm::rtcm_payload_len;
use crate::ubx::{ubx_complete, ubx_payload_len};

verus! {

/// `s` starts like a message, or is a lone first UBX sync byte whose second
/// byte has not arrived yet.
pub open spec fn starts_message(s: Seq<u8>) -> bool {
    any_prefix(s) || (s.len() == 1 && s[0] == crate::ubx::UBX_SYNC1)
}

/// Index of the first position at or after `i` where a message may start,
/// or the length of `b` when there is none.
pub open spec fn first_prefix_from(b: Seq<u8>, i: int) -> int
    decreases b.len() - i,
{
    if i >= b.len() {
        b.len() as int
    } else if starts_message(b.subrange(i, b.len() as int)) {
        i
    } else {
        first_prefix_from(b, i + 1)
    }
}

/// The accumulator after skipping bytes that start no message. Fewer than two
/// bytes are left alone, and so is a first UBX sync byte at the end, since
/// the rest of a prefix may still be arriving.
pub open spec fn resync(b: Seq<u8>) -> Seq<u8> {
    if b.len() < 2 {
        b
    } else {
        b.subrange(first_prefix_from(b, 0), b.len() as int)
    }
}

/// Index of the first `\r\n` at or after `i`, or the length of `b`.
pub open spec fn first_crlf_from(b: Seq<u8>, i: int) -> int
    decreases b.len() - i,
{
    if i >= b.len() {
        b.len() as int
    } else if crlf_at(b, i) {
        i
    } else {
        first_crlf_from(b, i + 1)
    }
}

/// Length of the first message in `b` as `GpsMsg::message_usage` finds it.
pub open spec fn frame_len(b: Seq<u8>) -> Option<nat> {
    if ubx_complete(b) {
        Some(ubx_payload_len(b) + 8)
    } else if rtcm_usage(b) {
        Some(rtcm_payload_len(b) + 6)
    } else if nmea_usage(b) {
        Some((first_crlf_from(b, 0) + 2) as nat)
    } else if server_usage(b) {
        Some(2)
    } else {
        None
    }
}

/// The messages the hub cuts from `b`, in order, and what is left after them.
pub open spec fn hub_frames(b: Seq<u8>) -> (Seq<Seq<u8>>, Seq<u8>)
    decreases b.len(),
{
    let s = resync(b);
    match frame_len(s) {
        Some(n) => if 0 < n <= s.len() && s.len() <= b.len() {
            let rest = hub_frames(s.subrange(n as int, s.len() as int));
            (seq![s.subrange(0, n as int)] + rest.0, rest.1)
        } else {
            (Seq::empty(), s)
        },
        None => (Seq::empty(), s),
    }
}

pub proof fn lemma_first_prefix_from(b: Seq<u8>, i: int)
    requires
        0 <= i <= b.len(),
    ensures
        i <= first_prefix_from(b, i) <= b.len(),
        forall|j: int|
            i <= j < first_prefix_from(b, i) ==> !starts_message(
                #[trigger] b.subrange(j, b.len() as int),
            ),
        first_prefix_from(b, i) < b.len() ==> starts_message(
            b.subrange(first_prefix_from(b, i), b.len() as int),
        ),
    decreases b.len() - i,
{
    if i < b.len() && !starts_message(b.subrange(i, b.len() as int)) {
        lemma_first_prefix_from(b, i + 1);
    }
}

pub proof fn lemma_first_crlf_from(b: Seq<u8>, i: int)
    requires
        0 <= i <= b.len(),
        no_crlf_before(b, i),
    ensures
        i <= first_crlf_from(b, i) <= b.len(),
        no_crlf_before(b, first_crlf_from(b, i)),
        first_crlf_from(b, i) < b.len() ==> crlf_at(b, first_crlf_from(b, i)),
    decreases b.len() - i,
{
    if i < b.len() && !crlf_at(b, i) {
        lemma_first_crlf_from(b, i + 1);
    }
}

/// The first `\r\n` is the one that no other precedes.
pub proof fn lemma_first_crlf_is(b: Seq<u8>, k: int)
    requires
        crlf_at(b, k),
        no_crlf_before(b, k),
    ensures
        first_crlf_from(b, 0) == k,
{
    lemma_first_crlf_from(b, 0);
    let f = first_crlf_from(b, 0);
    if f < k {
        assert(!crlf_at(b, f));
    }
    if f > k {
        assert(!crlf_at(b, k));
    }
}

/// The length `GpsMsg::message_usage` reports is `frame_len`.
pub fn message_len(b: &[u8]) -> (r: Option<usize>)
    ensures
        r is Some <==> frame_len(b@) is Some,
        r is Some ==> r->Some_0 as nat == frame_len(b@)->Some_0,
{
    let r = GpsMsg::message_usage(b);
    proof {
        if !ubx_complete(b@) && !rtcm_usage(b@) && nmea_usage(b@) {
            lemma_first_crlf_is(b@, r->Some_0 - 2);
        }
    }
    r
}

/// Drops the bytes before the first known prefix; with none, drops them all
/// but a first UBX sync byte at the end. Fewer than two bytes are kept as they are.
pub fn find_message(b: &mut Vec<u8>)
    ensures
        final(b)@ == resync(old(b)@),
{
    if b.len() < 2 {
        return;
    }
    let ghost o = b@;
    let mut idx: usize = 0;
    while idx < b.len()
        invariant
            b@ == o,
            o == old(b)@,
            o.len() >= 2,
            idx <= o.len(),
            first_prefix_from(o, 0) == first_prefix_from(o, idx as int),
        decreases o.len() - idx,
    {
        let found = GpsMsg::contains_prefix(vstd::slice::slice_subrange(b.as_slice(), idx, b.len()))
            || (idx == b.len() - 1 && b[idx] == crate::ubx::UBX_SYNC1);
        if found {
            let rest = b.split_off(idx);
            *b = rest;
            proof {
                assert(first_prefix_from(o, idx as int) == idx);
                assert(b@ =~= o.subrange(idx as int, o.len() as int));
            }
            return;
        }
        idx += 1;
    }
    b.clear();
    proof {
        assert(b@ =~= o.subrange(o.len() as int, o.len() as int));
    }
}

/// Where `frame_len` finds a message, it lies within the bytes.
pub proof fn lemma_frame_len_bounds(s: Seq<u8>)
    requires
        frame_len(s) is Some,
    ensures
        2 <= frame_len(s)->Some_0 <= s.len(),
{
    if !ubx_complete(s) && !rtcm_usage(s) && nmea_usage(s) {
        lemma_first_crlf_from(s, 0);
    }
}

/// `resync` keeps a suffix.
pub proof fn lemma_resync_suffix(b: Seq<u8>)
    ensures
        resync(b).len() <= b.len(),
{
    if b.len() >= 2 {
        lemma_first_prefix_from(b, 0);
    }
}

/// Cuts every whole message off the accumulator, resynchronising before each,
/// and returns them in order.
pub fn take_frames(accum: &mut Vec<u8>) -> (r: Vec<Vec<u8>>)
    ensures
        r.deep_view() == hub_frames(old(accum)@).0,
        final(accum)@ == hub_frames(old(accum)@).1,
{
    let mut out: Vec<Vec<u8>> = Vec::new();
    let ghost orig = accum@;
    let ghost mut pre = accum@;
    find_message(accum);
    proof {
        assert(out.deep_view() + hub_frames(pre).0 =~= hub_frames(orig).0);
    }
    loop
        invariant
            orig == old(accum)@,
            accum@ == resync(pre),
            hub_frames(orig).0 == out.deep_view() + hub_frames(pre).0,
            hub_frames(orig).1 == hub_frames(pre).1,
        decreases accum@.len(),
    {
        let ghost s = accum@;
        proof {
            lemma_resync_suffix(pre);
        }
        match message_len(accum.as_slice()) {
            Some(n) => {
                proof {
                    lemma_frame_len_bounds(s);
                }
                let mut frame = accum.split_off(n);
                std::mem::swap(&mut frame, accum);
                let ghost old_out = out.deep_view();
                proof {
                    assert(frame.deep_view() =~= frame@);
                    assert(frame@ =~= s.subrange(0, n as int));
                }
                out.push(frame);
                proof {
                    assert(out.deep_view() =~= old_out.push(s.subrange(0, n as int)));
                    pre = s.subrange(n as int, s.len() as int);
                    assert(hub_frames(orig).0 =~= out.deep_view() + hub_frames(pre).0);
                    lemma_resync_suffix(pre);
                }
                find_message(accum);
            },
            None => {
                proof {
                    assert(frame_len(resync(pre)) is None);
                    assert(hub_frames(pre) == (Seq::<Seq<u8>>::empty(), s));
                    assert(hub_frames(pre).0 =~= Seq::<Seq<u8>>::empty());
                    assert(out.deep_view() =~= hub_frames(orig).0);
                }
                return out;
            },
        }
    }
}

/// The bytes of a well-formed message, followed by anything, start with a
/// known prefix, and the hub cuts exactly those bytes as one message.
pub proof fn lemma_frame_len_of_message(m: GpsMsg, rest: Seq<u8>)
    requires
        m.wf(),
    ensures
        any_prefix(m.spec_encode() + rest),
        frame_len(m.spec_encode() + rest) == Some(m.spec_encode().len()),
{
    let b = m.spec_encode() + rest;
    match m {
        GpsMsg::UbxPoll(p) => {
            crate::message::lemma_poll_round_trip(p, rest);
        },
        GpsMsg::Nmea(x) => {
            lemma_gps_round_trip(m, rest);
            let n = x.sentence@.len() as int;
            assert(b[n - 2] == x.sentence@[n - 2]);
            lemma_first_crlf_is(b, n - 2);
        },
        _ => {
            lemma_gps_round_trip(m, rest);
        },
    }
}

/// Garbage runs and message bytes, one after another.
pub open spec fn interleave(gs: Seq<Seq<u8>>, es: Seq<Seq<u8>>) -> Seq<u8>
    decreases gs.len(),
{
    if gs.len() == 0 || es.len() == 0 {
        Seq::empty()
    } else {
        gs[0] + es[0] + interleave(gs.drop_first(), es.drop_first())
    }
}

/// No byte of `g` starts a known prefix, even together with the byte after it in `g + e`.
pub open spec fn clean_before(g: Seq<u8>, e: Seq<u8>) -> bool {
    forall|j: int| 0 <= j < g.len() ==> !any_prefix(#[trigger] (g + e).subrange(j, (g + e).len() as int))
}

/// The encodings of `ms`.
pub open spec fn encodings(ms: Seq<GpsMsg>) -> Seq<Seq<u8>> {
    ms.map_values(|m: GpsMsg| m.spec_encode())
}

/// A known prefix is decided by the first two bytes.
proof fn lemma_prefix_by_two(x: Seq<u8>, y: Seq<u8>)
    requires
        x.len() >= 2,
        y.len() >= 2,
        x[0] == y[0],
        x[1] == y[1],
    ensures
        any_prefix(x) == any_prefix(y),
{
}

/// The first prefix in `b` is at `k` when none comes before and one starts there.
proof fn lemma_first_prefix_is(b: Seq<u8>, k: int)
    requires
        0 <= k < b.len(),
        forall|j: int| 0 <= j < k ==> !starts_message(#[trigger] b.subrange(j, b.len() as int)),
        starts_message(b.subrange(k, b.len() as int)),
    ensures
        first_prefix_from(b, 0) == k,
{
    lemma_first_prefix_from(b, 0);
    let f = first_prefix_from(b, 0);
    if f > k {
        assert(!starts_message(b.subrange(k, b.len() as int)));
    }
}

/// Framing resync: for a stream of well-formed messages, each preceded by a
/// run of bytes in which no known prefix starts, the hub cuts exactly the
/// messages, in order, and keeps nothing.
pub proof fn lemma_resync_stream(gs: Seq<Seq<u8>>, ms: Seq<GpsMsg>)
    requires
        gs.len() == ms.len(),
        forall|i: int| 0 <= i < ms.len() ==> (#[trigger] ms[i]).wf(),
        forall|i: int| 0 <= i < ms.len() ==> clean_before(#[trigger] gs[i], ms[i].spec_encode()),
    ensures
        hub_frames(interleave(gs, encodings(ms))).0 == encodings(ms),
        hub_frames(interleave(gs, encodings(ms))).1 == Seq::<u8>::empty(),
    decreases gs.len(),
{
    let es = encodings(ms);
    let b = interleave(gs, es);
    if gs.len() == 0 {
        assert(b =~= Seq::<u8>::empty());
        assert(es =~= Seq::<Seq<u8>>::empty());
    } else {
        let g = gs[0];
        let m = ms[0];
        let e = m.spec_encode();
        assert(es[0] == e);
        assert(es.drop_first() =~= encodings(ms.drop_first()));
        let tail = interleave(gs.drop_first(), es.drop_first());
        assert(b =~= g + (e + tail));
        assert(m.wf());
        lemma_frame_len_of_message(m, tail);
        lemma_frame_len_of_message(m, Seq::empty());
        assert(e + Seq::<u8>::empty() =~= e);
        assert forall|j: int| 0 <= j < g.len() implies !starts_message(
            #[trigger] b.subrange(j, b.len() as int),
        ) by {
            assert(clean_before(g, e));
            let x = b.subrange(j, b.len() as int);
            let y = (g + e).subrange(j, (g + e).len() as int);
            assert(!any_prefix(y));
            lemma_prefix_by_two(x, y);
        }
        assert(b.subrange(g.len() as int, b.len() as int) =~= e + tail);
        lemma_first_prefix_is(b, g.len() as int);
        assert(resync(b) =~= e + tail);
        let s = e + tail;
        assert(s.subrange(0, e.len() as int) =~= e);
        assert(s.subrange(e.len() as int, s.len() as int) =~= tail);
        assert forall|i: int| 0 <= i < ms.drop_first().len() implies (
        #[trigger] ms.drop_first()[i]).wf() && clean_before(gs.drop_first()[i], ms.drop_first()[i].spec_encode()) by {
            assert(ms.drop_first()[i] == ms[i + 1]);
            assert(gs.drop_first()[i] == gs[i + 1]);
        }
        lemma_resync_stream(gs.drop_first(), ms.drop_first());
        assert(hub_frames(b).0 =~= es);
    }
}

/// What the hub does with a payload from a peer.
#[derive(Debug, Clone, Copy, PartialEq, Eq, Structural)]
pub enum HubAction {
    /// Leave the loop with success.
    Quit,
    /// Close the serial port, wait, and open it again with the same settings.
    ResetPort,
    /// Write the payload to the serial port unchanged.
    WriteSerial,
}

/// Decides what a peer payload asks for: a control frame is obeyed, anything
/// else goes to the receiver verbatim.
pub fn handle_incoming(payload: &[u8]) -> (r: HubAction)
    ensures
        (payload@.len() >= 2 && payload@[0] == crate::server::SERVER_PREFIX && payload@[1] == 1)
            ==> r == HubAction::Quit,
        (payload@.len() >= 2 && payload@[0] == crate::server::SERVER_PREFIX && payload@[1] == 0)
            ==> r == HubAction::ResetPort,
        !(payload@.len() >= 2 && payload@[0] == crate::server::SERVER_PREFIX && payload@[1] <= 1)
            ==> r == HubAction::WriteSerial,
{
    match crate::server::Server::parse_read(payload) {
        Ok((x, _)) => match x.msg {
            crate::server::ServerMsg::Quit => HubAction::Quit,
            crate::server::ServerMsg::ResetPort => HubAction::ResetPort,
        },
        Err(_) => HubAction::WriteSerial,
    }
}

/// Facts about the bytes of a well-formed message on their own.
proof fn lemma_message_bytes(m: GpsMsg)
    requires
        m.wf(),
    ensures
        ({
            let e = m.spec_encode();
            &&& any_prefix(e)
            &&& e.len() >= 2
            &&& (m is Ubx || m is UbxPoll) ==> crate::ubx::ubx_prefix(e) && ubx_payload_len(e) + 8
                == e.len()
            &&& m is Rtcm3 ==> e[0] == crate::rtcm::RTCM_PREAMBLE && e.len() == rtcm_payload_len(e)
                + 6
            &&& m is Nmea ==> e[0] == crate::nmea::NMEA_PREAMBLE && no_crlf_before(e, e.len() - 2)
            &&& m is Server ==> e[0] == crate::server::SERVER_PREFIX && e.len() == 2
        }),
{
    let e = m.spec_encode();
    assert(e + Seq::<u8>::empty() =~= e);
    lemma_frame_len_of_message(m, Seq::empty());
    lemma_frame_len_bounds(e);
    match m {
        GpsMsg::Ubx(u) => {
            crate::message::lemma_ubx_round_trip(u, Seq::empty());
        },
        GpsMsg::UbxPoll(p) => {
            crate::message::lemma_poll_round_trip(p, Seq::empty());
        },
        GpsMsg::Nmea(x) => {
            let d = x.sentence@;
            assert forall|j: int| 0 <= j < d.len() - 2 implies !crlf_at(e, j) by {
                assert(!crlf_at(d, j));
            }
        },
        _ => {},
    }
}

/// A proper, non-empty start of the bytes of a well-formed message is not yet
/// a whole message.
pub proof fn lemma_partial_message(m: GpsMsg, n: int)
    requires
        m.wf(),
        1 <= n < m.spec_encode().len(),
    ensures
        frame_len(m.spec_encode().subrange(0, n)) is None,
{
    let e = m.spec_encode();
    let s = e.subrange(0, n);
    lemma_message_bytes(m);
    assert(s[0] == e[0]);
    if n >= 2 {
        assert(s[1] == e[1]);
    }
    if n >= 3 {
        assert(s[2] == e[2]);
    }
    if n >= 6 {
        assert(s[4] == e[4] && s[5] == e[5]);
    }
    if m is Nmea {
        assert forall|j: int| 0 <= j < n implies !crlf_at(s, j) by {
            if crlf_at(s, j) {
                assert(s[j] == e[j] && s[j + 1] == e[j + 1]);
                assert(crlf_at(e, j));
            }
        }
    }
}

/// Fewer than two bytes never make a whole message.
proof fn lemma_short_no_frame(s: Seq<u8>)
    requires
        s.len() < 2,
    ensures
        frame_len(s) is None,
{
    if !no_crlf_before(s, s.len() as int) {
        let j = choose|j: int| 0 <= j < s.len() && crlf_at(s, j);
    }
}

/// A suffix of a run with no message start is still such a run.
proof fn lemma_clean_suffix(g: Seq<u8>, e: Seq<u8>, i: int)
    requires
        clean_before(g, e),
        0 <= i <= g.len(),
    ensures
        clean_before(g.subrange(i, g.len() as int), e),
{
    let h = g.subrange(i, g.len() as int);
    assert forall|j: int| 0 <= j < h.len() implies !any_prefix(
        #[trigger] (h + e).subrange(j, (h + e).len() as int),
    ) by {
        assert((h + e).subrange(j, (h + e).len() as int) =~= (g + e).subrange(
            i + j,
            (g + e).len() as int,
        ));
    }
}

/// On a start `g[0..k]` of a garbage run the hub cuts nothing and keeps
/// `g[i..k]`: nothing, or a last first-sync byte, or all of it when short.
proof fn lemma_garbage_start(g: Seq<u8>, e: Seq<u8>, k: int) -> (i: int)
    requires
        clean_before(g, e),
        e.len() >= 2,
        0 <= k <= g.len(),
    ensures
        0 <= i <= k,
        hub_frames(g.subrange(0, k)) == (Seq::<Seq<u8>>::empty(), g.subrange(i, k)),
{
    let p = g.subrange(0, k);
    if k < 2 {
        lemma_short_no_frame(p);
        assert(g.subrange(0, k) =~= p);
        return 0;
    }
    assert forall|j: int| 0 <= j < k - 1 implies !starts_message(
        #[trigger] p.subrange(j, p.len() as int),
    ) by {
        lemma_prefix_by_two(p.subrange(j, p.len() as int), (g + e).subrange(j, (g + e).len() as int));
    }
    let last = p.subrange(k - 1, k);
    assert(!any_prefix(last)) by {
        let y = (g + e).subrange(k - 1, (g + e).len() as int);
        assert(y[0] == last[0]);
        assert(!any_prefix(y));
    }
    lemma_first_prefix_from(p, 0);
    let i: int;
    if g[k - 1] == crate::ubx::UBX_SYNC1 {
        assert(starts_message(p.subrange(k - 1, p.len() as int)));
        lemma_first_prefix_is(p, k - 1);
        i = k - 1;
        lemma_short_no_frame(p.subrange(k - 1, k));
    } else {
        assert(!starts_message(p.subrange(k - 1, p.len() as int)));
        let f = first_prefix_from(p, 0);
        if f < k {
            assert(starts_message(p.subrange(f, p.len() as int)));
        }
        i = k;
        lemma_short_no_frame(p.subrange(k, k));
    }
    assert(resync(p) =~= g.subrange(i, k));
    i
}

/// On `g` and a proper start of a message after it, the hub cuts nothing and
/// keeps the start of the message.
proof fn lemma_message_start(g: Seq<u8>, m: GpsMsg, n: int)
    requires
        m.wf(),
        clean_before(g, m.spec_encode()),
        1 <= n < m.spec_encode().len(),
    ensures
        hub_frames(g + m.spec_encode().subrange(0, n)) == (
            Seq::<Seq<u8>>::empty(),
            m.spec_encode().subrange(0, n),
        ),
{
    let e = m.spec_encode();
    let p = g + e.subrange(0, n);
    lemma_message_bytes(m);
    lemma_partial_message(m, n);
    if p.len() < 2 {
        assert(g.len() == 0);
        assert(p =~= e.subrange(0, n));
        return;
    }
    assert forall|j: int| 0 <= j < g.len() implies !starts_message(
        #[trigger] p.subrange(j, p.len() as int),
    ) by {
        lemma_prefix_by_two(p.subrange(j, p.len() as int), (g + e).subrange(j, (g + e).len() as int));
    }
    let s0 = p.subrange(g.len() as int, p.len() as int);
    assert(s0 =~= e.subrange(0, n));
    if n >= 2 {
        lemma_prefix_by_two(s0, e);
    } else {
        assert(s0[0] == e[0]);
    }
    assert(starts_message(s0));
    lemma_first_prefix_is(p, g.len() as int);
    assert(resync(p) =~= e.subrange(0, n));
}

/// On `g`, a whole message and anything after it, the hub cuts the message
/// and goes on with what follows.
proof fn lemma_message_whole(g: Seq<u8>, m: GpsMsg, rest: Seq<u8>)
    requires
        m.wf(),
        clean_before(g, m.spec_encode()),
    ensures
        hub_frames(g + m.spec_encode() + rest) == (
            seq![m.spec_encode()] + hub_frames(rest).0,
            hub_frames(rest).1,
        ),
{
    let e = m.spec_encode();
    let b = g + e + rest;
    lemma_message_bytes(m);
    lemma_frame_len_of_message(m, rest);
    assert forall|j: int| 0 <= j < g.len() implies !starts_message(
        #[trigger] b.subrange(j, b.len() as int),
    ) by {
        lemma_prefix_by_two(b.subrange(j, b.len() as int), (g + e).subrange(j, (g + e).len() as int));
    }
    assert(b.subrange(g.len() as int, b.len() as int) =~= e + rest);
    lemma_first_prefix_is(b, g.len() as int);
    assert(resync(b) =~= e + rest);
    let s = e + rest;
    assert(s.subrange(0, e.len() as int) =~= e);
    assert(s.subrange(e.len() as int, s.len() as int) =~= rest);
    lemma_frame_len_bounds(s);
}

/// The streams the framing law speaks of: well-formed messages, each after a
/// run of bytes in which no message starts.
pub open spec fn clean_stream(gs: Seq<Seq<u8>>, ms: Seq<GpsMsg>) -> bool {
    &&& gs.len() == ms.len()
    &&& forall|i: int| 0 <= i < ms.len() ==> (#[trigger] ms[i]).wf()
    &&& forall|i: int| 0 <= i < ms.len() ==> clean_before(#[trigger] gs[i], ms[i].spec_encode())
}

proof fn lemma_clean_stream_tail(gs: Seq<Seq<u8>>, ms: Seq<GpsMsg>)
    requires
        clean_stream(gs, ms),
        ms.len() > 0,
    ensures
        clean_stream(gs.drop_first(), ms.drop_first()),
        ms[0].wf(),
        clean_before(gs[0], ms[0].spec_encode()),
        interleave(gs, encodings(ms)) == gs[0] + ms[0].spec_encode() + interleave(
            gs.drop_first(),
            encodings(ms.drop_first()),
        ),
        encodings(ms) == seq![ms[0].spec_encode()] + encodings(ms.drop_first()),
{
    let es = encodings(ms);
    assert(es.drop_first() =~= encodings(ms.drop_first()));
    assert(es[0] == ms[0].spec_encode());
    assert forall|i: int| 0 <= i < ms.drop_first().len() implies (
    #[trigger] ms.drop_first()[i]).wf() && clean_before(
        gs.drop_first()[i],
        ms.drop_first()[i].spec_encode(),
    ) by {
        assert(ms.drop_first()[i] == ms[i + 1]);
        assert(gs.drop_first()[i] == gs[i + 1]);
    }
    assert(interleave(gs, es) =~= gs[0] + ms[0].spec_encode() + interleave(
        gs.drop_first(),
        es.drop_first(),
    ));
    assert(es =~= seq![ms[0].spec_encode()] + encodings(ms.drop_first()));
}

/// What the hub does with the start `t[0..k]` of a clean stream `t`: it cuts
/// whole messages, in order, and what it keeps, followed by the rest of `t`,
/// is again a clean stream of the messages not yet cut. Returns that stream's
/// garbage runs and messages.
pub proof fn lemma_prefix_frames(gs: Seq<Seq<u8>>, ms: Seq<GpsMsg>, k: int) -> (r: (
    Seq<Seq<u8>>,
    Seq<GpsMsg>,
))
    requires
        clean_stream(gs, ms),
        0 <= k <= interleave(gs, encodings(ms)).len(),
    ensures
        ({
            let t = interleave(gs, encodings(ms));
            let h = hub_frames(t.subrange(0, k));
            &&& clean_stream(r.0, r.1)
            &&& h.0 + encodings(r.1) == encodings(ms)
            &&& h.1 + t.subrange(k, t.len() as int) == interleave(r.0, encodings(r.1))
            &&& k == t.len() ==> r.1.len() == 0
        }),
    decreases ms.len(),
{
    let t = interleave(gs, encodings(ms));
    let p = t.subrange(0, k);
    if ms.len() == 0 {
        assert(t =~= Seq::<u8>::empty());
        assert(p =~= Seq::<u8>::empty());
        lemma_short_no_frame(p);
        assert(encodings(ms) =~= Seq::<Seq<u8>>::empty());
        assert(t.subrange(k, t.len() as int) =~= Seq::<u8>::empty());
        return (gs, ms);
    }
    lemma_clean_stream_tail(gs, ms);
    let g = gs[0];
    let m = ms[0];
    let e = m.spec_encode();
    let t1 = interleave(gs.drop_first(), encodings(ms.drop_first()));
    lemma_message_bytes(m);
    assert(t == g + e + t1);
    if k <= g.len() {
        assert(p =~= g.subrange(0, k));
        let i = lemma_garbage_start(g, e, k);
        let gs2 = seq![g.subrange(i, g.len() as int)] + gs.drop_first();
        lemma_clean_suffix(g, e, i);
        assert(gs2.drop_first() =~= gs.drop_first());
        assert(clean_stream(gs2, ms)) by {
            assert forall|j: int| 0 <= j < ms.len() implies clean_before(
                #[trigger] gs2[j],
                ms[j].spec_encode(),
            ) by {
                if j > 0 {
                    assert(gs2[j] == gs[j]);
                }
            }
        }
        lemma_clean_stream_tail(gs2, ms);
        assert(g.subrange(i, k) + t.subrange(k, t.len() as int) =~= g.subrange(i, g.len() as int)
            + e + t1);
        assert(Seq::<Seq<u8>>::empty() + encodings(ms) =~= encodings(ms));
        (gs2, ms)
    } else if k < g.len() + e.len() {
        let n = k - g.len();
        assert(p =~= g + e.subrange(0, n));
        lemma_message_start(g, m, n);
        let gs2 = seq![Seq::<u8>::empty()] + gs.drop_first();
        assert(gs2.drop_first() =~= gs.drop_first());
        assert(clean_stream(gs2, ms)) by {
            assert forall|j: int| 0 <= j < ms.len() implies clean_before(
                #[trigger] gs2[j],
                ms[j].spec_encode(),
            ) by {
                if j > 0 {
                    assert(gs2[j] == gs[j]);
                }
            }
        }
        lemma_clean_stream_tail(gs2, ms);
        assert(e.subrange(0, n) + t.subrange(k, t.len() as int) =~= Seq::<u8>::empty() + e + t1);
        assert(Seq::<Seq<u8>>::empty() + encodings(ms) =~= encodings(ms));
        (gs2, ms)
    } else {
        let k1 = k - g.len() - e.len();
        let q = t1.subrange(0, k1);
        assert(p =~= g + e + q);
        lemma_message_whole(g, m, q);
        let r = lemma_prefix_frames(gs.drop_first(), ms.drop_first(), k1);
        assert(t.subrange(k, t.len() as int) =~= t1.subrange(k1, t1.len() as int));
        let h1 = hub_frames(q);
        assert(seq![e] + h1.0 + encodings(r.1) =~= seq![e] + (h1.0 + encodings(r.1)));
        r
    }
}

/// The bytes of `cs`, one chunk after another.
pub open spec fn concat_chunks(cs: Seq<Seq<u8>>) -> Seq<u8>
    decreases cs.len(),
{
    if cs.len() == 0 {
        Seq::empty()
    } else {
        cs[0] + concat_chunks(cs.drop_first())
    }
}

/// The messages the hub cuts when the chunks `cs` arrive one by one, each
/// appended to what it kept before (`acc` at first).
pub open spec fn frames_fed(acc: Seq<u8>, cs: Seq<Seq<u8>>) -> Seq<Seq<u8>>
    decreases cs.len(),
{
    if cs.len() == 0 {
        Seq::empty()
    } else {
        let h = hub_frames(acc + cs[0]);
        h.0 + frames_fed(h.1, cs.drop_first())
    }
}

proof fn lemma_fed(gs: Seq<Seq<u8>>, ms: Seq<GpsMsg>, acc: Seq<u8>, cs: Seq<Seq<u8>>)
    requires
        clean_stream(gs, ms),
        acc + concat_chunks(cs) == interleave(gs, encodings(ms)),
        cs.len() == 0 ==> ms.len() == 0,
    ensures
        frames_fed(acc, cs) == encodings(ms),
    decreases cs.len(),
{
    if cs.len() == 0 {
        assert(encodings(ms) =~= Seq::<Seq<u8>>::empty());
    } else {
        let t = interleave(gs, encodings(ms));
        let k = acc.len() + cs[0].len();
        assert(t =~= (acc + cs[0]) + concat_chunks(cs.drop_first()));
        assert(t.subrange(0, k as int) =~= acc + cs[0]);
        assert(t.subrange(k as int, t.len() as int) =~= concat_chunks(cs.drop_first()));
        let r = lemma_prefix_frames(gs, ms, k as int);
        let h = hub_frames(acc + cs[0]);
        if cs.drop_first().len() == 0 {
            assert(concat_chunks(cs.drop_first()) =~= Seq::<u8>::empty());
        }
        lemma_fed(r.0, r.1, h.1, cs.drop_first());
    }
}

/// Framing resync, whatever the chunking: when a clean stream (well-formed
/// messages, each after a run of bytes in which no message starts) reaches
/// the hub in any chunks, each appended to what it kept and cut by
/// `take_frames`, the hub cuts exactly the messages, in order.
pub proof fn lemma_resync_chunks(gs: Seq<Seq<u8>>, ms: Seq<GpsMsg>, cs: Seq<Seq<u8>>)
    requires
        clean_stream(gs, ms),
        concat_chunks(cs) == interleave(gs, encodings(ms)),
    ensures
        frames_fed(Seq::empty(), cs) == encodings(ms),
{
    if cs.len() == 0 && ms.len() > 0 {
        lemma_clean_stream_tail(gs, ms);
        lemma_message_bytes(ms[0]);
    }
    assert(Seq::<u8>::empty() + concat_chunks(cs) =~= concat_chunks(cs));
    lemma_fed(gs, ms, Seq::empty(), cs);
}

} // verus!
