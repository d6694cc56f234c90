//! The RTCM stream an NTRIP caster sends: skip to the next preamble, then
//! cut whole frames off the accumulated body bytes.
use vstd::prelude::*;

use crate::rtcm::{rtcm_payload_len, RtcmFrame, RTCM_PREAMBLE};

verus! {

/// The content type a caster must announce for its RTCM stream.
pub open spec fn gnss_data() -> Seq<u8> {
    seq![0x67u8, 0x6e, 0x73, 0x73, 0x2f, 0x64, 0x61, 0x74, 0x61]
}

/// Whether the response's content type is `gnss/data`.
pub fn content_type_ok(ct: &[u8]) -> (r: bool)
    ensures
        r == (ct@ == gnss_data()),
{
    let want: [u8; 9] = [0x67, 0x6e, 0x73, 0x73, 0x2f, 0x64, 0x61, 0x74, 0x61];
    proof {
        assert(want@ =~= gnss_data());
    }
    if ct.len() != 9 {
        return false;
    }
    let mut i: usize = 0;
    while i < 9
        invariant
            i <= 9,
            ct@.len() == 9,
            want@ == gnss_data(),
            forall|j: int| 0 <= j < i ==> ct@[j] == want@[j],
        decreases 9 - i,
    {
        if ct[i] != want[i] {
            return false;
        }
        i += 1;
    }
    proof {
        assert(ct@ =~= gnss_data());
    }
    true
}

/// Index of the first preamble at or after `i`, or the length of `b`.
pub open spec fn first_preamble_from(b: Seq<u8>, i: int) -> int
    decreases b.len() - i,
{
    if i >= b.len() {
        b.len() as int
    } else if b[i] == RTCM_PREAMBLE {
        i
    } else {
        first_preamble_from(b, i + 1)
    }
}

/// The body bytes after skipping to the first preamble; up to two bytes are
/// left alone.
pub open spec fn rtcm_resync(b: Seq<u8>) -> Seq<u8> {
    if b.len() <= 2 {
        b
    } else {
        b.subrange(first_preamble_from(b, 0), b.len() as int)
    }
}

/// Length of the whole frame at the start of `b`, once all of it is there.
pub open spec fn rtcm_frame_len(b: Seq<u8>) -> Option<nat> {
    if b.len() >= 3 && b[0] == RTCM_PREAMBLE && b.len() >= rtcm_payload_len(b) + 6 {
        Some(rtcm_payload_len(b) + 6)
    } else {
        None
    }
}

/// The frames cut from `b`, in order, and the bytes left.
pub open spec fn rtcm_frames(b: Seq<u8>) -> (Seq<Seq<u8>>, Seq<u8>)
    decreases b.len(),
{
    let s = rtcm_resync(b);
    match rtcm_frame_len(s) {
        Some(n) => if 0 < n <= s.len() && s.len() <= b.len() {
            let rest = rtcm_frames(s.subrange(n as int, s.len() as int));
            (seq![s.subrange(0, n as int)] + rest.0, rest.1)
        } else {
            (Seq::empty(), s)
        },
        None => (Seq::empty(), s),
    }
}

pub proof fn lemma_first_preamble_from(b: Seq<u8>, i: int)
    requires
        0 <= i <= b.len(),
    ensures
        i <= first_preamble_from(b, i) <= b.len(),
        forall|j: int| i <= j < first_preamble_from(b, i) ==> b[j] != RTCM_PREAMBLE,
        first_preamble_from(b, i) < b.len() ==> b[first_preamble_from(b, i)] == RTCM_PREAMBLE,
    decreases b.len() - i,
{
    if i < b.len() && b[i] != RTCM_PREAMBLE {
        lemma_first_preamble_from(b, i + 1);
    }
}

/// Drops the bytes before the first preamble; returns how many were dropped.
pub fn skip_to_preamble(b: &mut Vec<u8>) -> (r: usize)
    ensures
        final(b)@ == rtcm_resync(old(b)@),
        r == old(b)@.len() - final(b)@.len(),
{
    if b.len() <= 2 {
        return 0;
    }
    let ghost o = b@;
    let mut idx: usize = 0;
    while idx < b.len() && b[idx] != RTCM_PREAMBLE
        invariant
            b@ == o,
            o == old(b)@,
            o.len() > 2,
            idx <= o.len(),
            first_preamble_from(o, 0) == first_preamble_from(o, idx as int),
        decreases o.len() - idx,
    {
        idx += 1;
    }
    let rest = b.split_off(idx);
    *b = rest;
    proof {
        assert(first_preamble_from(o, idx as int) == idx);
        assert(b@ =~= o.subrange(idx as int, o.len() as int));
    }
    idx
}

/// Cuts every whole frame off the body bytes, skipping to a preamble before each.
pub fn take_rtcm_frames(buffer: &mut Vec<u8>) -> (r: Vec<Vec<u8>>)
    ensures
        r.deep_view() == rtcm_frames(old(buffer)@).0,
        final(buffer)@ == rtcm_frames(old(buffer)@).1,
{
    let mut out: Vec<Vec<u8>> = Vec::new();
    let ghost orig = buffer@;
    let ghost mut pre = buffer@;
    skip_to_preamble(buffer);
    proof {
        assert(out.deep_view() + rtcm_frames(pre).0 =~= rtcm_frames(orig).0);
    }
    loop
        invariant
            orig == old(buffer)@,
            buffer@ == rtcm_resync(pre),
            rtcm_frames(orig).0 == out.deep_view() + rtcm_frames(pre).0,
            rtcm_frames(orig).1 == rtcm_frames(pre).1,
        decreases buffer@.len(),
    {
        let ghost s = buffer@;
        proof {
            if pre.len() > 2 {
                lemma_first_preamble_from(pre, 0);
            }
        }
        match RtcmFrame::message_usage(buffer.as_slice()) {
            Some(n) => {
                let mut frame = buffer.split_off(n);
                std::mem::swap(&mut frame, buffer);
                let ghost old_out = out.deep_view();
                proof {
                    assert(frame.deep_view() =~= frame@);
                    assert(frame@ =~= s.subrange(0, n as int));
                }
                out.push(frame);
                proof {
                    assert(out.deep_view() =~= old_out.push(s.subrange(0, n as int)));
                    pre = s.subrange(n as int, s.len() as int);
                    assert(rtcm_frames(orig).0 =~= out.deep_view() + rtcm_frames(pre).0);
                }
                skip_to_preamble(buffer);
            },
            None => {
                proof {
                    assert(rtcm_frames(pre) == (Seq::<Seq<u8>>::empty(), s));
                    assert(out.deep_view() =~= rtcm_frames(orig).0);
                }
                return out;
            },
        }
    }
}

/// Runs of bytes, each followed by the bytes of a frame.
pub open spec fn rtcm_interleave(gs: Seq<Seq<u8>>, fs: Seq<RtcmFrame>) -> Seq<u8>
    decreases gs.len(),
{
    if gs.len() == 0 || fs.len() == 0 {
        Seq::empty()
    } else {
        gs[0] + fs[0].data@ + rtcm_interleave(gs.drop_first(), fs.drop_first())
    }
}

/// The bytes of each frame.
pub open spec fn frame_bytes(fs: Seq<RtcmFrame>) -> Seq<Seq<u8>> {
    fs.map_values(|f: RtcmFrame| f.data@)
}

/// The index of the first preamble is `k` when none comes before and one is there.
proof fn lemma_first_preamble_is(b: Seq<u8>, k: int)
    requires
        0 <= k < b.len(),
        forall|j: int| 0 <= j < k ==> b[j] != RTCM_PREAMBLE,
        b[k] == RTCM_PREAMBLE,
    ensures
        first_preamble_from(b, 0) == k,
{
    lemma_first_preamble_from(b, 0);
    let f = first_preamble_from(b, 0);
    if f > k {
        assert(b[k] != RTCM_PREAMBLE);
    }
}

/// Skipping in the NTRIP body: when frames whose CRC checks arrive, each
/// after a run of bytes without the preamble `D3`, the frames are cut out
/// exactly, in order, and nothing is kept.
pub proof fn lemma_rtcm_skip(gs: Seq<Seq<u8>>, fs: Seq<RtcmFrame>)
    requires
        gs.len() == fs.len(),
        forall|i: int| 0 <= i < fs.len() ==> (#[trigger] fs[i]).wf(),
        forall|i: int, j: int|
            0 <= i < gs.len() && 0 <= j < gs[i].len() ==> (#[trigger] gs[i][j]) != RTCM_PREAMBLE,
    ensures
        rtcm_frames(rtcm_interleave(gs, fs)).0 == frame_bytes(fs),
        rtcm_frames(rtcm_interleave(gs, fs)).1 == Seq::<u8>::empty(),
    decreases gs.len(),
{
    let b = rtcm_interleave(gs, fs);
    if gs.len() == 0 {
        assert(b =~= Seq::<u8>::empty());
        assert(frame_bytes(fs) =~= Seq::<Seq<u8>>::empty());
    } else {
        let g = gs[0];
        let f = fs[0];
        let d = f.data@;
        assert(f.wf());
        let tail = rtcm_interleave(gs.drop_first(), fs.drop_first());
        assert(b =~= g + (d + tail));
        assert forall|j: int| 0 <= j < g.len() implies b[j] != RTCM_PREAMBLE by {
            assert(b[j] == gs[0][j]);
        }
        assert(b[g.len() as int] == d[0]);
        lemma_first_preamble_is(b, g.len() as int);
        let s = d + tail;
        assert(rtcm_resync(b) =~= s);
        assert(s[1] == d[1] && s[2] == d[2] && s[0] == d[0]);
        assert(rtcm_frame_len(s) == Some(d.len()));
        assert(s.subrange(0, d.len() as int) =~= d);
        assert(s.subrange(d.len() as int, s.len() as int) =~= tail);
        assert forall|i: int| 0 <= i < fs.drop_first().len() implies (
        #[trigger] fs.drop_first()[i]).wf() by {
            assert(fs.drop_first()[i] == fs[i + 1]);
        }
        assert forall|i: int, j: int|
            0 <= i < gs.drop_first().len() && 0 <= j < gs.drop_first()[i].len() implies (
            #[trigger] gs.drop_first()[i][j]) != RTCM_PREAMBLE by {
            assert(gs.drop_first()[i] == gs[i + 1]);
        }
        lemma_rtcm_skip(gs.drop_first(), fs.drop_first());
        assert(frame_bytes(fs) =~= seq![d] + frame_bytes(fs.drop_first()));
    }
}

} // verus!
