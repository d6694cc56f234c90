//! UBX framing: `B5 62`, class, id, little-endian payload length, payload and
//! an 8-bit Fletcher checksum over everything from the class to the payload end.
use vstd::prelude::*;
use vstd::slice::slice_subrange;

use crate::parse::{
    collect, le16, lemma_u16_bytes_of_le16, read_u16, u16_bytes, write_all, write_u16, ParseError,
};

verus! {

pub const UBX_SYNC1: u8 = 0xb5;

pub const UBX_SYNC2: u8 = 0x62;

/// Running 8-bit Fletcher checksum `(ck_a, ck_b)` of `data`.
pub open spec fn fletcher(data: Seq<u8>) -> (u8, u8)
    decreases data.len(),
{
    if data.len() == 0 {
        (0u8, 0u8)
    } else {
        let prev = fletcher(data.drop_last());
        let a = ((prev.0 as nat + data.last() as nat) % 256) as u8;
        (a, ((prev.1 as nat + a as nat) % 256) as u8)
    }
}

/// The checksummed part of a frame: class, id, length and payload.
pub open spec fn ubx_body(class: u8, id: u8, payload: Seq<u8>) -> Seq<u8> {
    seq![class, id] + u16_bytes(payload.len()) + payload
}

/// A complete frame with the checksum computed over its body.
pub open spec fn ubx_frame(class: u8, id: u8, payload: Seq<u8>) -> Seq<u8> {
    let body = ubx_body(class, id, payload);
    seq![UBX_SYNC1, UBX_SYNC2] + body + seq![fletcher(body).0, fletcher(body).1]
}

/// A frame written with the given checksum bytes, whatever they are.
pub open spec fn ubx_frame_with(
    class: u8,
    id: u8,
    payload: Seq<u8>,
    ck_a: u8,
    ck_b: u8,
) -> Seq<u8> {
    seq![UBX_SYNC1, UBX_SYNC2] + ubx_body(class, id, payload) + seq![ck_a, ck_b]
}

/// `b` starts with the UBX sync bytes.
pub open spec fn ubx_prefix(b: Seq<u8>) -> bool {
    b.len() >= 2 && b[0] == UBX_SYNC1 && b[1] == UBX_SYNC2
}

/// The first two bytes that are present are not the sync bytes.
pub open spec fn ubx_header_bad(b: Seq<u8>) -> bool {
    (b.len() >= 1 && b[0] != UBX_SYNC1) || (b.len() >= 2 && b[1] != UBX_SYNC2)
}

/// Length of the payload announced by a frame header.
pub open spec fn ubx_payload_len(b: Seq<u8>) -> nat {
    le16(b, 4)
}

/// `b` holds at least one whole frame (header, payload and checksum).
pub open spec fn ubx_complete(b: Seq<u8>) -> bool {
    ubx_prefix(b) && b.len() >= 6 && b.len() >= ubx_payload_len(b) + 8
}

/// The checksum stored in the complete frame at the start of `b` is right.
pub open spec fn ubx_checksum_ok(b: Seq<u8>) -> bool {
    let n = ubx_payload_len(b);
    let ck = fletcher(b.subrange(2, 6 + n as int));
    b[6 + n as int] == ck.0 && b[7 + n as int] == ck.1
}

/// Payload of the complete frame at the start of `b`.
pub open spec fn ubx_payload(b: Seq<u8>) -> Seq<u8> {
    b.subrange(6, 6 + ubx_payload_len(b) as int)
}

/// A complete frame is the frame written from its own fields and checksum bytes.
pub proof fn lemma_frame_split(b: Seq<u8>)
    requires
        ubx_complete(b),
    ensures
        ({
            let n = ubx_payload_len(b);
            b.subrange(0, 8 + n as int) == ubx_frame_with(
                b[2],
                b[3],
                ubx_payload(b),
                b[6 + n as int],
                b[7 + n as int],
            ) && b.subrange(2, 6 + n as int) == ubx_body(b[2], b[3], ubx_payload(b))
        }),
{
    let n = ubx_payload_len(b);
    lemma_u16_bytes_of_le16(b, 4);
    assert(ubx_payload(b).len() == n);
    assert(b.subrange(2, 6 + n as int) =~= ubx_body(b[2], b[3], ubx_payload(b)));
    assert(b.subrange(0, 8 + n as int) =~= ubx_frame_with(
        b[2],
        b[3],
        ubx_payload(b),
        b[6 + n as int],
        b[7 + n as int],
    ));
}

/// Facts about reading back a frame written from fields.
pub proof fn lemma_frame_fields(class: u8, id: u8, p: Seq<u8>, ck_a: u8, ck_b: u8, rest: Seq<u8>)
    requires
        p.len() <= 0xffff,
    ensures
        ({
            let b = ubx_frame_with(class, id, p, ck_a, ck_b) + rest;
            &&& ubx_complete(b)
            &&& ubx_payload_len(b) == p.len()
            &&& b[2] == class
            &&& b[3] == id
            &&& ubx_payload(b) == p
            &&& b[6 + p.len() as int] == ck_a
            &&& b[7 + p.len() as int] == ck_b
            &&& b.subrange(2, 6 + p.len() as int) == ubx_body(class, id, p)
            &&& b.subrange(0, 8 + p.len() as int) == ubx_frame_with(class, id, p, ck_a, ck_b)
        }),
{
    let b = ubx_frame_with(class, id, p, ck_a, ck_b) + rest;
    let n = p.len();
    assert(b[4] == (n % 256) as u8);
    assert(b[5] == ((n / 256) % 256) as u8);
    assert(le16(b, 4) == n);
    assert(ubx_payload(b) =~= p);
    assert(b.subrange(2, 6 + n as int) =~= ubx_body(class, id, p));
    assert(b.subrange(0, 8 + n as int) =~= ubx_frame_with(class, id, p, ck_a, ck_b));
}

/// Fletcher checksum of `data[start..end]`.
pub fn checksum_range(data: &[u8], start: usize, end: usize) -> (r: (u8, u8))
    requires
        start <= end <= data@.len(),
    ensures
        r == fletcher(data@.subrange(start as int, end as int)),
{
    let mut a: u8 = 0;
    let mut b: u8 = 0;
    let mut i: usize = start;
    proof {
        assert(data@.subrange(start as int, start as int) =~= Seq::<u8>::empty());
    }
    while i < end
        invariant
            start <= i <= end <= data@.len(),
            (a, b) == fletcher(data@.subrange(start as int, i as int)),
        decreases end - i,
    {
        let x = data[i];
        a = ((a as u16 + x as u16) % 256) as u8;
        b = ((b as u16 + a as u16) % 256) as u8;
        proof {
            let s = data@.subrange(start as int, i + 1);
            assert(s.drop_last() =~= data@.subrange(start as int, i as int));
            assert(s.last() == x);
        }
        i += 1;
    }
    (a, b)
}

/// Fletcher checksum of `data`.
pub fn checksum(data: &[u8]) -> (r: (u8, u8))
    ensures
        r == fletcher(data@),
{
    proof {
        assert(data@.subrange(0, data@.len() as int) =~= data@);
    }
    checksum_range(data, 0, data.len())
}

/// True iff `(ck_a, ck_b)` is the checksum of `data`.
pub fn checksum_valid(data: &[u8], ck_a: u8, ck_b: u8) -> (r: bool)
    ensures
        r == (fletcher(data@) == (ck_a, ck_b)),
{
    let (a, b) = checksum(data);
    a == ck_a && b == ck_b
}

/// Appends the frame for `class`, `id` and `payload`, computing its checksum.
pub fn write_frame(class: u8, id: u8, payload: &[u8], out: &mut Vec<u8>)
    requires
        payload@.len() <= 0xffff,
    ensures
        final(out)@ == old(out)@ + ubx_frame(class, id, payload@),
{
    let mut body: Vec<u8> = Vec::new();
    body.push(class);
    body.push(id);
    write_u16(payload.len() as u16, &mut body);
    write_all(payload, &mut body);
    proof {
        assert(body@ =~= ubx_body(class, id, payload@));
    }
    let (a, b) = checksum(body.as_slice());
    out.push(UBX_SYNC1);
    out.push(UBX_SYNC2);
    write_all(body.as_slice(), out);
    out.push(a);
    out.push(b);
    proof {
        assert(final(out)@ =~= old(out)@ + ubx_frame(class, id, payload@));
    }
}

/// Appends a frame with the checksum bytes given.
pub fn write_frame_with(class: u8, id: u8, payload: &[u8], ck_a: u8, ck_b: u8, out: &mut Vec<u8>)
    requires
        payload@.len() <= 0xffff,
    ensures
        final(out)@ == old(out)@ + ubx_frame_with(class, id, payload@, ck_a, ck_b),
{
    out.push(UBX_SYNC1);
    out.push(UBX_SYNC2);
    out.push(class);
    out.push(id);
    write_u16(payload.len() as u16, out);
    write_all(payload, out);
    out.push(ck_a);
    out.push(ck_b);
    proof {
        assert(final(out)@ =~= old(out)@ + ubx_frame_with(class, id, payload@, ck_a, ck_b));
    }
}

/// The fields of a complete frame: class, id, payload and stored checksum.
pub struct RawFrame {
    pub class: u8,
    pub id: u8,
    pub payload: Vec<u8>,
    pub ck_a: u8,
    pub ck_b: u8,
}

/// Splits the frame at the start of `b` into its fields, without judging the checksum.
pub fn read_frame(b: &[u8]) -> (r: Result<RawFrame, ParseError>)
    ensures
        r is Ok <==> ubx_complete(b@),
        r is Err ==> (r->Err_0 == ParseError::InvalidHeader <==> ubx_header_bad(b@)),
        r is Err ==> (r->Err_0 == ParseError::InvalidHeader || r->Err_0
            == ParseError::NotEnoughData),
        r is Ok ==> ({
            let f = r->Ok_0;
            let n = ubx_payload_len(b@);
            &&& f.class == b@[2]
            &&& f.id == b@[3]
            &&& f.payload@ == ubx_payload(b@)
            &&& f.ck_a == b@[6 + n as int]
            &&& f.ck_b == b@[7 + n as int]
        }),
{
    if b.len() < 1 {
        return Err(ParseError::NotEnoughData);
    }
    if b[0] != UBX_SYNC1 {
        return Err(ParseError::InvalidHeader);
    }
    if b.len() < 2 {
        return Err(ParseError::NotEnoughData);
    }
    if b[1] != UBX_SYNC2 {
        return Err(ParseError::InvalidHeader);
    }
    if b.len() < 6 {
        return Err(ParseError::NotEnoughData);
    }
    let n = read_u16(b, 4) as usize;
    if b.len() < 8 || b.len() - 8 < n {
        return Err(ParseError::NotEnoughData);
    }
    let (_, payload) = match collect(b, 6, n) {
        Ok(x) => x,
        Err(e) => return Err(e),
    };
    Ok(RawFrame { class: b[2], id: b[3], payload, ck_a: b[6 + n], ck_b: b[7 + n] })
}

/// Checks the stored checksum of the complete frame at the start of `b`.
pub fn frame_checksum_ok(b: &[u8]) -> (r: bool)
    requires
        ubx_complete(b@),
    ensures
        r == ubx_checksum_ok(b@),
{
    let n = read_u16(b, 4) as usize;
    let (a, c) = checksum_range(b, 2, 6 + n);
    a == b[6 + n] && c == b[7 + n]
}

/// Sum of the bytes of `s`.
pub open spec fn byte_sum(s: Seq<u8>) -> int
    decreases s.len(),
{
    if s.len() == 0 {
        0
    } else {
        byte_sum(s.drop_last()) + s.last() as int
    }
}

/// The first checksum byte is the byte sum modulo 256.
pub proof fn lemma_fletcher_a(s: Seq<u8>)
    ensures
        fletcher(s).0 as int == byte_sum(s) % 256,
    decreases s.len(),
{
    if s.len() > 0 {
        lemma_fletcher_a(s.drop_last());
        let p = byte_sum(s.drop_last());
        let l = s.last() as int;
        assert(((p % 256) + l) % 256 == (p + l) % 256) by {
            vstd::arithmetic::div_mod::lemma_add_mod_noop(p, l, 256);
            vstd::arithmetic::div_mod::lemma_mod_twice(l, 256);
            vstd::arithmetic::div_mod::lemma_small_mod(l as nat, 256);
        }
    }
}

/// Changing one byte changes the sum by the difference.
pub proof fn lemma_byte_sum_update(s: Seq<u8>, i: int, x: u8)
    requires
        0 <= i < s.len(),
    ensures
        byte_sum(s.update(i, x)) == byte_sum(s) - s[i] + x,
    decreases s.len(),
{
    let t = s.update(i, x);
    if i == s.len() - 1 {
        assert(t.drop_last() =~= s.drop_last());
    } else {
        lemma_byte_sum_update(s.drop_last(), i, x);
        assert(t.drop_last() =~= s.drop_last().update(i, x));
    }
}

/// Changing one byte of the class, id or payload of a frame whose checksum is
/// right leaves a whole frame whose checksum is wrong.
pub proof fn lemma_checksum_changes(b: Seq<u8>, i: int, x: u8)
    requires
        ubx_complete(b),
        ubx_checksum_ok(b),
        i == 2 || i == 3 || (6 <= i < 6 + ubx_payload_len(b)),
        x != b[i],
    ensures
        ubx_complete(b.update(i, x)),
        !ubx_header_bad(b.update(i, x)),
        !ubx_checksum_ok(b.update(i, x)),
{
    let c = b.update(i, x);
    let n = ubx_payload_len(b);
    assert(c[4] == b[4] && c[5] == b[5]);
    assert(ubx_payload_len(c) == n);
    let body = b.subrange(2, 6 + n as int);
    let body2 = c.subrange(2, 6 + n as int);
    assert(body2 =~= body.update(i - 2, x));
    lemma_fletcher_a(body);
    lemma_fletcher_a(body2);
    lemma_byte_sum_update(body, i - 2, x);
    let s1 = byte_sum(body);
    let d = x as int - b[i] as int;
    assert(byte_sum(body2) == s1 + d);
    assert(-256 < d < 256 && d != 0);
    assert((s1 + d) % 256 != s1 % 256) by {
        vstd::arithmetic::div_mod::lemma_fundamental_div_mod(s1, 256);
        vstd::arithmetic::div_mod::lemma_fundamental_div_mod(s1 + d, 256);
        if (s1 + d) % 256 == s1 % 256 {
            assert(d == 256 * ((s1 + d) / 256 - s1 / 256));
            let q = (s1 + d) / 256 - s1 / 256;
            assert(q != 0);
            if q > 0 {
                assert(256 * q >= 256) by (nonlinear_arith)
                    requires
                        q > 0,
                ;
            } else {
                assert(256 * q <= -256) by (nonlinear_arith)
                    requires
                        q < 0,
                ;
            }
        }
    }
    assert(c[6 + n as int] == b[6 + n as int]);
}

} // verus!
