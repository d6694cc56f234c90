//! RTCM3 framing: preamble `D3`, a 10-bit payload length, the payload and a
//! CRC-24Q over everything before it.
use vstd::prelude::*;

use crate::parse::{write_all, ParseError};

verus! {

pub const RTCM_PREAMBLE: u8 = 0xd3;

/// Entry `i` of the nibble-wise CRC-24Q table (polynomial 0x864CFB).
pub open spec fn crc_tab(i: u32) -> u32 {
    if i == 0 { 0x00000000 }
    else if i == 1 { 0x01864CFB }
    else if i == 2 { 0x038AD50D }
    else if i == 3 { 0x020C99F6 }
    else if i == 4 { 0x0793E6E1 }
    else if i == 5 { 0x0615AA1A }
    else if i == 6 { 0x041933EC }
    else if i == 7 { 0x059F7F17 }
    else if i == 8 { 0x0FA18139 }
    else if i == 9 { 0x0E27CDC2 }
    else if i == 10 { 0x0C2B5434 }
    else if i == 11 { 0x0DAD18CF }
    else if i == 12 { 0x083267D8 }
    else if i == 13 { 0x09B42B23 }
    else if i == 14 { 0x0BB8B2D5 }
    else { 0x0A3EFE2E }
}

fn crc_tab_at(i: u32) -> (r: u32)
    requires
        i < 16,
    ensures
        r == crc_tab(i),
{
    match i {
        0 => 0x00000000,
        1 => 0x01864CFB,
        2 => 0x038AD50D,
        3 => 0x020C99F6,
        4 => 0x0793E6E1,
        5 => 0x0615AA1A,
        6 => 0x041933EC,
        7 => 0x059F7F17,
        8 => 0x0FA18139,
        9 => 0x0E27CDC2,
        10 => 0x0C2B5434,
        11 => 0x0DAD18CF,
        12 => 0x083267D8,
        13 => 0x09B42B23,
        14 => 0x0BB8B2D5,
        _ => 0x0A3EFE2E,
    }
}

/// One nibble of the CRC register update.
pub open spec fn crc_nibble(crc: u32) -> u32 {
    (crc << 4u32) ^ crc_tab((crc >> 20u32) & 0x0f)
}

/// The CRC register after feeding byte `b`.
pub open spec fn crc_step(crc: u32, b: u8) -> u32 {
    crc_nibble(crc_nibble(crc ^ ((b as u32) << 16u32)))
}

/// The register of the nibble-table computation after feeding all of `d`;
/// only its low 24 bits count (see `lemma_crc24q_table`).
pub open spec fn crc24q(d: Seq<u8>) -> u32
    decreases d.len(),
{
    if d.len() == 0 {
        0
    } else {
        crc_step(crc24q(d.drop_last()), d.last())
    }
}

/// A frame that ends with its own CRC leaves a zero remainder.
pub open spec fn crc24q_ok(d: Seq<u8>) -> bool {
    crc24q_bits(d) == 0
}

/// The CRC-24Q generator polynomial x^24 + 0x864CFB, without its top bit.
pub const CRC24Q_POLY: u32 = 0x864CFB;

/// One step of long division by the polynomial on the 24-bit register.
pub open spec fn crc_bit(c: u32) -> u32 {
    if c & 0x800000u32 != 0 {
        ((c << 1u32) ^ CRC24Q_POLY) & 0xffffffu32
    } else {
        (c << 1u32) & 0xffffffu32
    }
}

/// Eight division steps.
pub open spec fn crc_byte_bits(c: u32) -> u32 {
    crc_bit(crc_bit(crc_bit(crc_bit(crc_bit(crc_bit(crc_bit(crc_bit(c))))))))
}

/// CRC-24Q as defined bit by bit: each byte goes into the top of the 24-bit
/// register, then eight division steps follow.
pub open spec fn crc24q_bits(d: Seq<u8>) -> u32
    decreases d.len(),
{
    if d.len() == 0 {
        0
    } else {
        crc_byte_bits(crc24q_bits(d.drop_last()) ^ ((d.last() as u32) << 16u32))
    }
}

/// The table holds the remainders of the 16 nibbles: a nibble step is four
/// division steps.
pub proof fn lemma_crc_nibble(x: u32)
    ensures
        crc_nibble(x) & 0xffffffu32 == crc_bit(crc_bit(crc_bit(crc_bit(x & 0xffffffu32)))),
{
    assert(((x << 4u32) ^ crc_tab((x >> 20u32) & 0x0fu32)) & 0xffffffu32 == crc_bit(
        crc_bit(crc_bit(crc_bit(x & 0xffffffu32))),
    )) by (bit_vector);
}

/// The table-driven register agrees with the bit-by-bit definition in its low 24 bits.
pub proof fn lemma_crc24q_table(d: Seq<u8>)
    ensures
        crc24q(d) & 0xffffffu32 == crc24q_bits(d),
    decreases d.len(),
{
    if d.len() > 0 {
        lemma_crc24q_table(d.drop_last());
        let c = crc24q(d.drop_last());
        let b = d.last();
        let x = c ^ ((b as u32) << 16u32);
        let cb = crc24q_bits(d.drop_last());
        assert(x & 0xffffffu32 == cb ^ ((b as u32) << 16u32)) by (bit_vector)
            requires
                x == c ^ ((b as u32) << 16u32),
                c & 0xffffffu32 == cb,
        ;
        lemma_crc_nibble(x);
        let y = crc_nibble(x);
        lemma_crc_nibble(y);
        let z = x & 0xffffffu32;
        let w = y & 0xffffffu32;
        assert(w == crc_bit(crc_bit(crc_bit(crc_bit(z)))));
        assert(crc_nibble(y) & 0xffffffu32 == crc_bit(crc_bit(crc_bit(crc_bit(w)))));
        assert(crc24q(d) == crc_nibble(y));
        assert(crc24q_bits(d) == crc_byte_bits(z));
    } else {
        assert(0u32 & 0xffffffu32 == 0u32) by (bit_vector);
    }
}

/// Byte-wise exclusive or of two sequences of equal length.
pub open spec fn xor_bytes(a: Seq<u8>, b: Seq<u8>) -> Seq<u8> {
    Seq::new(a.len(), |i: int| a[i] ^ b[i])
}

/// A division step is linear, keeps a 24-bit register within 24 bits, and
/// maps a non-zero register to a non-zero one (the polynomial has a constant term).
proof fn lemma_crc_bit(a: u32, b: u32)
    ensures
        crc_bit(a ^ b) == crc_bit(a) ^ crc_bit(b),
        crc_bit(a) & 0xffffffu32 == crc_bit(a),
        a & 0xffffffu32 != 0 ==> crc_bit(a) != 0,
        crc_bit(0) == 0,
{
    assert(crc_bit(a ^ b) == crc_bit(a) ^ crc_bit(b)) by (bit_vector);
    assert(crc_bit(a) & 0xffffffu32 == crc_bit(a)) by (bit_vector);
    assert(a & 0xffffffu32 != 0 ==> crc_bit(a) != 0) by (bit_vector);
    assert(crc_bit(0) == 0) by (bit_vector);
}

proof fn lemma_crc_byte_bits(a: u32, b: u32)
    ensures
        crc_byte_bits(a ^ b) == crc_byte_bits(a) ^ crc_byte_bits(b),
        crc_byte_bits(a) & 0xffffffu32 == crc_byte_bits(a),
        a & 0xffffffu32 != 0 ==> crc_byte_bits(a) != 0,
        crc_byte_bits(0) == 0,
{
    lemma_crc_bit(a, b);
    assert(crc_bit(a ^ b) == crc_bit(a) ^ crc_bit(b));
    let a1 = crc_bit(a);
    let b1 = crc_bit(b);
    lemma_crc_bit(a1, b1);
    let a2 = crc_bit(a1);
    let b2 = crc_bit(b1);
    lemma_crc_bit(a2, b2);
    let a3 = crc_bit(a2);
    let b3 = crc_bit(b2);
    lemma_crc_bit(a3, b3);
    let a4 = crc_bit(a3);
    let b4 = crc_bit(b3);
    lemma_crc_bit(a4, b4);
    let a5 = crc_bit(a4);
    let b5 = crc_bit(b4);
    lemma_crc_bit(a5, b5);
    let a6 = crc_bit(a5);
    let b6 = crc_bit(b5);
    lemma_crc_bit(a6, b6);
    let a7 = crc_bit(a6);
    let b7 = crc_bit(b6);
    lemma_crc_bit(a7, b7);
    if a & 0xffffffu32 != 0 {
        assert(a1 != 0);
        lemma_crc_bit(a1, 0);
        assert(a1 & 0xffffffu32 != 0);
        lemma_crc_bit(a2, 0);
        lemma_crc_bit(a3, 0);
        lemma_crc_bit(a4, 0);
        lemma_crc_bit(a5, 0);
        lemma_crc_bit(a6, 0);
        lemma_crc_bit(a7, 0);
    }
}

/// The register always holds 24 bits.
proof fn lemma_crc24q_bits_width(d: Seq<u8>)
    ensures
        crc24q_bits(d) & 0xffffffu32 == crc24q_bits(d),
    decreases d.len(),
{
    if d.len() == 0 {
        assert(0u32 & 0xffffffu32 == 0u32) by (bit_vector);
    } else {
        lemma_crc_byte_bits(crc24q_bits(d.drop_last()) ^ ((d.last() as u32) << 16u32), 0);
    }
}

/// CRC-24Q is linear: the CRC of a byte-wise xor is the xor of the CRCs.
proof fn lemma_crc24q_linear(a: Seq<u8>, b: Seq<u8>)
    requires
        a.len() == b.len(),
    ensures
        crc24q_bits(xor_bytes(a, b)) == crc24q_bits(a) ^ crc24q_bits(b),
    decreases a.len(),
{
    let x = xor_bytes(a, b);
    if a.len() > 0 {
        assert(x.drop_last() =~= xor_bytes(a.drop_last(), b.drop_last()));
        lemma_crc24q_linear(a.drop_last(), b.drop_last());
        let ca = crc24q_bits(a.drop_last());
        let cb = crc24q_bits(b.drop_last());
        let la = a.last();
        let lb = b.last();
        assert(x.last() == la ^ lb);
        let u = ca ^ ((la as u32) << 16u32);
        let v = cb ^ ((lb as u32) << 16u32);
        assert((ca ^ cb) ^ (((la ^ lb) as u32) << 16u32) == u ^ v) by (bit_vector)
            requires
                u == ca ^ ((la as u32) << 16u32),
                v == cb ^ ((lb as u32) << 16u32),
        ;
        lemma_crc_byte_bits(u, v);
    } else {
        assert(0u32 ^ 0u32 == 0u32) by (bit_vector);
    }
}

/// A sequence that is zero but for one non-zero byte leaves a non-zero remainder.
proof fn lemma_crc24q_single(e: Seq<u8>, i: int)
    requires
        0 <= i < e.len(),
        e[i] != 0,
        forall|j: int| 0 <= j < e.len() && j != i ==> e[j] == 0,
    ensures
        crc24q_bits(e) != 0,
    decreases e.len(),
{
    let c = crc24q_bits(e.drop_last());
    let l = e.last();
    lemma_crc24q_bits_width(e.drop_last());
    if i == e.len() - 1 {
        lemma_crc24q_zero(e.drop_last());
        let u = c ^ ((l as u32) << 16u32);
        assert(u & 0xffffffu32 != 0) by (bit_vector)
            requires
                c == 0u32,
                u == c ^ ((l as u32) << 16u32),
                l != 0u8,
        ;
        lemma_crc_byte_bits(u, 0);
    } else {
        lemma_crc24q_single(e.drop_last(), i);
        assert(l == 0);
        let u = c ^ ((l as u32) << 16u32);
        assert(u & 0xffffffu32 != 0) by (bit_vector)
            requires
                c != 0u32,
                c & 0xffffffu32 == c,
                u == c ^ ((l as u32) << 16u32),
                l == 0u8,
        ;
        lemma_crc_byte_bits(u, 0);
    }
}

/// All-zero bytes leave a zero register.
proof fn lemma_crc24q_zero(e: Seq<u8>)
    requires
        forall|j: int| 0 <= j < e.len() ==> e[j] == 0,
    ensures
        crc24q_bits(e) == 0,
    decreases e.len(),
{
    if e.len() > 0 {
        lemma_crc24q_zero(e.drop_last());
        assert(0u32 ^ ((0u8 as u32) << 16u32) == 0u32) by (bit_vector);
        lemma_crc_byte_bits(0, 0);
    }
}

/// CRC law: changing any one byte of bytes whose CRC-24Q remainder is zero
/// makes the remainder non-zero.
pub proof fn lemma_crc_detects_change(d: Seq<u8>, i: int, x: u8)
    requires
        crc24q_ok(d),
        0 <= i < d.len(),
        x != d[i],
    ensures
        !crc24q_ok(d.update(i, x)),
{
    let e = Seq::new(d.len(), |j: int| if j == i { d[i] ^ x } else { 0u8 });
    assert(d.update(i, x) =~= xor_bytes(d, e)) by {
        assert forall|j: int| 0 <= j < d.len() implies d.update(i, x)[j] == xor_bytes(d, e)[j] by {
            let a = d[j];
            if j == i {
                assert(a ^ (a ^ x) == x) by (bit_vector);
            } else {
                assert(a ^ 0u8 == a) by (bit_vector);
            }
        }
    }
    lemma_crc24q_linear(d, e);
    let di = d[i];
    assert(di ^ x != 0) by (bit_vector)
        requires
            x != di,
    ;
    lemma_crc24q_single(e, i);
    let c = crc24q_bits(e);
    assert(0u32 ^ c == c) by (bit_vector);
}

/// True iff the CRC-24Q remainder of `d[0..end]` is zero.
pub fn crc24q_check(d: &[u8], end: usize) -> (r: bool)
    requires
        end <= d@.len(),
    ensures
        r == crc24q_ok(d@.subrange(0, end as int)),
{
    let mut crc: u32 = 0;
    let mut i: usize = 0;
    proof {
        assert(d@.subrange(0, 0) =~= Seq::<u8>::empty());
    }
    while i < end
        invariant
            i <= end <= d@.len(),
            crc == crc24q(d@.subrange(0, i as int)),
        decreases end - i,
    {
        let b = d[i];
        crc = crc ^ ((b as u32) << 16u32);
        assert(((crc >> 20u32) & 0x0fu32) < 16u32) by (bit_vector);
        let t1 = crc_tab_at((crc >> 20u32) & 0x0f);
        crc = (crc << 4u32) ^ t1;
        assert(((crc >> 20u32) & 0x0fu32) < 16u32) by (bit_vector);
        let t2 = crc_tab_at((crc >> 20u32) & 0x0f);
        crc = (crc << 4u32) ^ t2;
        proof {
            assert(d@.subrange(0, i + 1).drop_last() =~= d@.subrange(0, i as int));
        }
        i += 1;
    }
    proof {
        lemma_crc24q_table(d@.subrange(0, end as int));
    }
    crc & 0xff_ffff == 0
}

/// Payload length announced in bytes 1 and 2 of a frame.
pub open spec fn rtcm_payload_len(b: Seq<u8>) -> nat {
    (b[1] % 4) as nat * 256 + b[2] as nat
}

/// Message type: the high 12 bits of bytes 3 and 4.
pub open spec fn rtcm_kind(b: Seq<u8>) -> u16 {
    (b[3] as nat * 16 + b[4] as nat / 16) as u16
}

/// `b` holds a whole frame.
pub open spec fn rtcm_complete(b: Seq<u8>) -> bool {
    b.len() >= 6 && b[0] == RTCM_PREAMBLE && b.len() >= rtcm_payload_len(b) + 6
}

/// An RTCM3 frame: its message type and all of its bytes.
#[derive(Debug, Clone)]
pub struct RtcmFrame {
    pub kind: u16,
    pub data: Vec<u8>,
}

impl RtcmFrame {
    /// A frame that a read can produce: whole, with a CRC that checks.
    pub open spec fn wf(&self) -> bool {
        &&& rtcm_complete(self.data@)
        &&& self.data@.len() == rtcm_payload_len(self.data@) + 6
        &&& crc24q_ok(self.data@)
        &&& self.kind == rtcm_kind(self.data@)
    }

    /// `b` starts with the preamble `D3`.
    pub fn valid_prefix(b: &[u8]) -> (r: bool)
        ensures
            r == (b@.len() >= 1 && b@[0] == RTCM_PREAMBLE),
    {
        b.len() >= 1 && b[0] == RTCM_PREAMBLE
    }

    /// Same as `valid_prefix`.
    pub fn contains_prefix(b: &[u8]) -> (r: bool)
        ensures
            r == (b@.len() >= 1 && b@[0] == RTCM_PREAMBLE),
    {
        Self::valid_prefix(b)
    }

    /// Length of the whole frame at the start of `b`, once all of it is there.
    pub fn message_usage(b: &[u8]) -> (r: Option<usize>)
        ensures
            r is Some <==> (b@.len() >= 3 && b@[0] == RTCM_PREAMBLE && b@.len()
                >= rtcm_payload_len(b@) + 6),
            r is Some ==> r->Some_0 == rtcm_payload_len(b@) + 6,
    {
        if b.len() < 3 || b[0] != RTCM_PREAMBLE {
            return None;
        }
        let size = ((b[1] % 4) as usize) * 256 + b[2] as usize + 6;
        if b.len() < size {
            None
        } else {
            Some(size)
        }
    }

    /// Reads the frame at the start of `b`, with the number of bytes it took.
    pub fn from_bytes(b: &[u8]) -> (r: Result<(RtcmFrame, usize), ParseError>)
        ensures
            b@.len() < 6 ==> r == Err::<(RtcmFrame, usize), ParseError>(
                ParseError::NotEnoughData,
            ),
            b@.len() >= 6 && b@[0] != RTCM_PREAMBLE ==> r == Err::<(RtcmFrame, usize), ParseError>(
                ParseError::InvalidHeader,
            ),
            b@.len() >= 6 && b@[0] == RTCM_PREAMBLE && !rtcm_complete(b@) ==> r == Err::<
                (RtcmFrame, usize),
                ParseError,
            >(ParseError::NotEnoughData),
            rtcm_complete(b@) ==> (r is Ok <==> crc24q_ok(
                b@.subrange(0, rtcm_payload_len(b@) + 6 as int),
            )),
            rtcm_complete(b@) && r is Err ==> r->Err_0 == ParseError::InvalidChecksum,
            r is Ok ==> ({
                let (f, n) = r->Ok_0;
                &&& n == rtcm_payload_len(b@) + 6
                &&& f.wf()
                &&& f.data@ == b@.subrange(0, n as int)
                &&& f.kind == rtcm_kind(b@)
            }),
    {
        if b.len() < 6 {
            return Err(ParseError::NotEnoughData);
        }
        if b[0] != RTCM_PREAMBLE {
            return Err(ParseError::InvalidHeader);
        }
        let size = ((b[1] % 4) as usize) * 256 + b[2] as usize + 6;
        if b.len() < size {
            return Err(ParseError::NotEnoughData);
        }
        if !crc24q_check(b, size) {
            return Err(ParseError::InvalidChecksum);
        }
        let kind = (b[3] as u16) * 16 + (b[4] as u16) / 16;
        let data = vstd::slice::slice_to_vec(vstd::slice::slice_subrange(b, 0, size));
        let f = RtcmFrame { kind, data };
        proof {
            let d = b@.subrange(0, size as int);
            assert(d[1] == b@[1] && d[2] == b@[2] && d[3] == b@[3] && d[4] == b@[4]);
        }
        Ok((f, size))
    }

    /// All bytes of the frame.
    pub fn as_bytes(&self) -> (r: &[u8])
        ensures
            r@ == self.data@,
    {
        self.data.as_slice()
    }

    /// Message type of the frame.
    pub fn message_type(&self) -> (r: u16)
        ensures
            r == self.kind,
    {
        self.kind
    }

    /// A copy that owns its bytes.
    pub fn into_owned(self) -> (r: RtcmFrame)
        ensures
            r == self,
    {
        self
    }

    /// Appends the bytes of the frame unchanged.
    pub fn parse_write(&self, out: &mut Vec<u8>)
        ensures
            final(out)@ == old(out)@ + self.data@,
    {
        write_all(self.data.as_slice(), out);
    }
}

/// CRC law for frames: changing any one byte of a whole frame whose CRC
/// checks, other than the preamble and the length bits, leaves a whole frame
/// of the same length whose CRC fails, which `RtcmFrame::from_bytes` reports
/// as `InvalidChecksum`. (A change of the preamble is a bad header; a change
/// of the length bits moves the frame's end.)
pub proof fn lemma_frame_crc_detects_change(b: Seq<u8>, i: int, x: u8)
    requires
        rtcm_complete(b),
        crc24q_ok(b.subrange(0, rtcm_payload_len(b) + 6 as int)),
        3 <= i < rtcm_payload_len(b) + 6 || (i == 1 && x % 4 == b[1] % 4),
        x != b[i],
    ensures
        ({
            let c = b.update(i, x);
            &&& rtcm_complete(c)
            &&& rtcm_payload_len(c) == rtcm_payload_len(b)
            &&& !crc24q_ok(c.subrange(0, rtcm_payload_len(c) + 6 as int))
        }),
{
    let n = rtcm_payload_len(b) + 6;
    let c = b.update(i, x);
    assert(c[1] % 4 == b[1] % 4 && c[2] == b[2] && c[0] == b[0]);
    let d = b.subrange(0, n as int);
    assert(c.subrange(0, n as int) =~= d.update(i, x));
    lemma_crc_detects_change(d, i, x);
}

} // verus!
