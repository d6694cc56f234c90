//! Byte codec primitives: little-endian readers and writers over byte slices.
use vstd::prelude::*;

verus! {

/// Why a byte sequence could not be decoded.
#[derive(Debug, Clone, Copy, PartialEq, Eq, Structural)]
pub enum ParseError {
    NotEnoughData,
    InvalidChecksum,
    InvalidHeader,
    InvalidClass(u8),
    InvalidMsg(u8),
    InvalidLen,
    Invalid,
}

/// Questions about a parse error.
pub trait ErrorExt {
    spec fn spec_not_enough_data(&self) -> bool;

    /// The input ended before the structure did; more bytes may complete it.
    fn not_enough_data(&self) -> (r: bool)
        ensures
            r == self.spec_not_enough_data(),
    ;
}

impl ErrorExt for ParseError {
    open spec fn spec_not_enough_data(&self) -> bool {
        *self == ParseError::NotEnoughData
    }

    fn not_enough_data(&self) -> (r: bool) {
        *self == ParseError::NotEnoughData
    }
}

/// Rewriting the generic `Invalid` error into a more precise one.
pub trait ResultExt: Sized {
    spec fn spec_map_invalid(self, e: ParseError) -> Self;

    /// Replaces an `Invalid` error with `e`; other results pass unchanged.
    fn map_invalid(self, e: ParseError) -> (r: Self)
        ensures
            r == self.spec_map_invalid(e),
    ;
}

impl<T> ResultExt for Result<T, ParseError> {
    open spec fn spec_map_invalid(self, e: ParseError) -> Self {
        match self {
            Err(ParseError::Invalid) => Err(e),
            x => x,
        }
    }

    fn map_invalid(self, e: ParseError) -> (r: Self) {
        match self {
            Err(ParseError::Invalid) => Err(e),
            x => x,
        }
    }
}

/// The little-endian `u16` stored at `b[i..i + 2]`.
pub open spec fn le16(b: Seq<u8>, i: int) -> nat {
    b[i] as nat + 256 * (b[i + 1] as nat)
}

/// The little-endian `u32` stored at `b[i..i + 4]`.
pub open spec fn le32(b: Seq<u8>, i: int) -> nat {
    le16(b, i) + 65536 * le16(b, i + 2)
}

/// Little-endian encoding of a 16-bit value.
pub open spec fn u16_bytes(v: nat) -> Seq<u8> {
    seq![(v % 256) as u8, ((v / 256) % 256) as u8]
}

/// Little-endian encoding of a 32-bit value.
pub open spec fn u32_bytes(v: nat) -> Seq<u8> {
    u16_bytes(v % 65536) + u16_bytes((v / 65536) % 65536)
}

pub proof fn lemma_le16_of_bytes(v: nat, pre: Seq<u8>, post: Seq<u8>)
    requires
        v < 65536,
    ensures
        le16(pre + u16_bytes(v) + post, pre.len() as int) == v,
{
    let s = pre + u16_bytes(v) + post;
    assert(s[pre.len() as int] == (v % 256) as u8);
    assert(s[pre.len() as int + 1] == ((v / 256) % 256) as u8);
}

pub proof fn lemma_le32_of_bytes(v: nat, pre: Seq<u8>, post: Seq<u8>)
    requires
        v < 0x1_0000_0000,
    ensures
        le32(pre + u32_bytes(v) + post, pre.len() as int) == v,
{
    let s = pre + u32_bytes(v) + post;
    assert(pre + u32_bytes(v) + post == pre + u16_bytes(v % 65536) + (u16_bytes(
        (v / 65536) % 65536,
    ) + post));
    lemma_le16_of_bytes(v % 65536, pre, u16_bytes((v / 65536) % 65536) + post);
    assert(pre + u16_bytes(v % 65536) + u16_bytes((v / 65536) % 65536) + post == (pre
        + u16_bytes(v % 65536)) + u16_bytes((v / 65536) % 65536) + post);
    lemma_le16_of_bytes((v / 65536) % 65536, pre + u16_bytes(v % 65536), post);
}

/// Little-endian encoding of a 64-bit value.
pub open spec fn u64_bytes(v: nat) -> Seq<u8> {
    u32_bytes(v % 0x1_0000_0000) + u32_bytes((v / 0x1_0000_0000) % 0x1_0000_0000)
}

/// Reads the `u64` at `pos`.
pub fn read_u64(b: &[u8], pos: usize) -> (r: u64)
    requires
        pos + 8 <= b@.len(),
    ensures
        r as nat == le32(b@, pos as int) + 0x1_0000_0000 * le32(b@, pos + 4),
{
    let _n = b.len();
    read_u32(b, pos) as u64 + 0x1_0000_0000u64 * (read_u32(b, pos + 4) as u64)
}

/// Appends the little-endian encoding of `v`.
pub fn write_u64(v: u64, out: &mut Vec<u8>)
    ensures
        final(out)@ == old(out)@ + u64_bytes(v as nat),
{
    write_u32((v % 0x1_0000_0000) as u32, out);
    write_u32((v / 0x1_0000_0000) as u32, out);
    proof {
        assert(final(out)@ =~= old(out)@ + u64_bytes(v as nat));
    }
}

/// Reads the `u16` at `pos`.
pub fn read_u16(b: &[u8], pos: usize) -> (r: u16)
    requires
        pos + 2 <= b@.len(),
    ensures
        r as nat == le16(b@, pos as int),
{
    b[pos] as u16 + 256 * (b[pos + 1] as u16)
}

/// Reads the `u32` at `pos`.
pub fn read_u32(b: &[u8], pos: usize) -> (r: u32)
    requires
        pos + 4 <= b@.len(),
    ensures
        r as nat == le32(b@, pos as int),
{
    let _n = b.len();
    read_u16(b, pos) as u32 + 65536 * (read_u16(b, pos + 2) as u32)
}

/// Appends the little-endian encoding of `v`.
pub fn write_u16(v: u16, out: &mut Vec<u8>)
    ensures
        final(out)@ == old(out)@ + u16_bytes(v as nat),
{
    out.push((v % 256) as u8);
    out.push((v / 256) as u8);
    proof {
        assert(final(out)@ =~= old(out)@ + u16_bytes(v as nat));
    }
}

/// Appends the little-endian encoding of `v`.
pub fn write_u32(v: u32, out: &mut Vec<u8>)
    ensures
        final(out)@ == old(out)@ + u32_bytes(v as nat),
{
    write_u16((v % 65536) as u16, out);
    write_u16((v / 65536) as u16, out);
    proof {
        assert(final(out)@ =~= old(out)@ + u32_bytes(v as nat));
    }
}

/// Checks that the byte at `pos` is `v` and returns the position after it.
pub fn tag(b: &[u8], pos: usize, v: u8) -> (r: Result<usize, ParseError>)
    ensures
        pos >= b@.len() ==> r == Err::<usize, ParseError>(ParseError::NotEnoughData),
        pos < b@.len() && b@[pos as int] != v ==> r == Err::<usize, ParseError>(
            ParseError::Invalid,
        ),
        pos < b@.len() && b@[pos as int] == v ==> r is Ok && r->Ok_0 == pos + 1,
{
    if pos >= b.len() {
        Err(ParseError::NotEnoughData)
    } else if b[pos] != v {
        Err(ParseError::Invalid)
    } else {
        Ok(pos + 1)
    }
}

/// Skips `len` bytes from `pos`.
pub fn eat(b: &[u8], pos: usize, len: usize) -> (r: Result<usize, ParseError>)
    requires
        pos <= b@.len(),
    ensures
        b@.len() - pos < len ==> r == Err::<usize, ParseError>(ParseError::NotEnoughData),
        b@.len() - pos >= len ==> r is Ok && r->Ok_0 == pos + len,
{
    if b.len() - pos < len {
        Err(ParseError::NotEnoughData)
    } else {
        Ok(pos + len)
    }
}

/// Copies out the `cnt` bytes that start at `pos`, with the position after them.
pub fn collect(b: &[u8], pos: usize, cnt: usize) -> (r: Result<(usize, Vec<u8>), ParseError>)
    requires
        pos <= b@.len(),
    ensures
        b@.len() - pos < cnt ==> r is Err && r->Err_0 == ParseError::NotEnoughData,
        b@.len() - pos >= cnt ==> r is Ok && r->Ok_0.0 == pos + cnt && r->Ok_0.1@ == b@.subrange(
            pos as int,
            pos + cnt,
        ),
{
    if b.len() - pos < cnt {
        return Err(ParseError::NotEnoughData);
    }
    let mut res: Vec<u8> = Vec::with_capacity(cnt);
    let end = pos + cnt;
    let mut i: usize = pos;
    while i < end
        invariant
            end == pos + cnt,
            pos <= i <= pos + cnt <= b@.len(),
            res@ == b@.subrange(pos as int, i as int),
        decreases pos + cnt - i,
    {
        res.push(b[i]);
        i += 1;
        proof {
            assert(res@ =~= b@.subrange(pos as int, i as int));
        }
    }
    Ok((i, res))
}

/// Appends all of `data` to `out`.
pub fn write_all(data: &[u8], out: &mut Vec<u8>)
    ensures
        final(out)@ == old(out)@ + data@,
{
    let mut i: usize = 0;
    while i < data.len()
        invariant
            i <= data@.len(),
            out@ == old(out)@ + data@.subrange(0, i as int),
        decreases data@.len() - i,
    {
        out.push(data[i]);
        i += 1;
        proof {
            assert(out@ =~= old(out)@ + data@.subrange(0, i as int));
        }
    }
    proof {
        assert(data@.subrange(0, data@.len() as int) =~= data@);
    }
}

/// Little-endian encoding of a signed 16-bit value.
pub open spec fn i16_bytes(v: i16) -> Seq<u8> {
    u16_bytes((v as u16) as nat)
}

/// Little-endian encoding of a signed 32-bit value.
pub open spec fn i32_bytes(v: i32) -> Seq<u8> {
    u32_bytes((v as u32) as nat)
}

pub proof fn lemma_u16_bytes_of_le16(s: Seq<u8>, i: int)
    requires
        0 <= i,
        i + 2 <= s.len(),
    ensures
        u16_bytes(le16(s, i)) == s.subrange(i, i + 2),
{
    let v = le16(s, i);
    assert(v % 256 == s[i] as nat);
    assert((v / 256) % 256 == s[i + 1] as nat);
    assert(u16_bytes(v) =~= s.subrange(i, i + 2));
}

pub proof fn lemma_u32_bytes_of_le32(s: Seq<u8>, i: int)
    requires
        0 <= i,
        i + 4 <= s.len(),
    ensures
        u32_bytes(le32(s, i)) == s.subrange(i, i + 4),
{
    lemma_u16_bytes_of_le16(s, i);
    lemma_u16_bytes_of_le16(s, i + 2);
    assert(le32(s, i) % 65536 == le16(s, i));
    assert((le32(s, i) / 65536) % 65536 == le16(s, i + 2));
    assert(u32_bytes(le32(s, i)) =~= s.subrange(i, i + 4));
}

/// Reads the `u16` at `pos`, stated as the bytes it is written as.
pub fn take_u16(b: &[u8], pos: usize) -> (r: u16)
    requires
        pos + 2 <= b@.len(),
    ensures
        u16_bytes(r as nat) == b@.subrange(pos as int, pos + 2),
{
    proof {
        lemma_u16_bytes_of_le16(b@, pos as int);
    }
    read_u16(b, pos)
}

/// Reads the `u32` at `pos`, stated as the bytes it is written as.
pub fn take_u32(b: &[u8], pos: usize) -> (r: u32)
    requires
        pos + 4 <= b@.len(),
    ensures
        u32_bytes(r as nat) == b@.subrange(pos as int, pos + 4),
{
    proof {
        lemma_u32_bytes_of_le32(b@, pos as int);
    }
    read_u32(b, pos)
}

/// Reads the byte at `pos`, stated as the one-byte sequence it is.
pub fn take_u8(b: &[u8], pos: usize) -> (r: u8)
    requires
        pos < b@.len(),
    ensures
        seq![r] == b@.subrange(pos as int, pos + 1),
{
    proof {
        lemma_byte_at(b@, pos as int);
    }
    b[pos]
}

/// Reads the signed `i8` at `pos`.
pub fn read_i8(b: &[u8], pos: usize) -> (r: i8)
    requires
        pos < b@.len(),
    ensures
        seq![r as u8] == b@.subrange(pos as int, pos + 1),
{
    let u = b[pos];
    proof {
        assert(((u as i8) as u8) == u) by (bit_vector);
        assert(seq![u] =~= b@.subrange(pos as int, pos + 1));
    }
    u as i8
}

/// Reads the signed `i16` at `pos`.
pub fn read_i16(b: &[u8], pos: usize) -> (r: i16)
    requires
        pos + 2 <= b@.len(),
    ensures
        i16_bytes(r) == b@.subrange(pos as int, pos + 2),
{
    let u = read_u16(b, pos);
    proof {
        lemma_u16_bytes_of_le16(b@, pos as int);
        assert(((u as i16) as u16) == u) by (bit_vector);
    }
    u as i16
}

/// Reads the signed `i32` at `pos`.
pub fn read_i32(b: &[u8], pos: usize) -> (r: i32)
    requires
        pos + 4 <= b@.len(),
    ensures
        i32_bytes(r) == b@.subrange(pos as int, pos + 4),
{
    let u = read_u32(b, pos);
    proof {
        lemma_u32_bytes_of_le32(b@, pos as int);
        assert(((u as i32) as u32) == u) by (bit_vector);
    }
    u as i32
}

/// Appends the little-endian encoding of `v`.
pub fn write_i16(v: i16, out: &mut Vec<u8>)
    ensures
        final(out)@ == old(out)@ + i16_bytes(v),
{
    write_u16(v as u16, out);
}

/// Appends the little-endian encoding of `v`.
pub fn write_i32(v: i32, out: &mut Vec<u8>)
    ensures
        final(out)@ == old(out)@ + i32_bytes(v),
{
    write_u32(v as u32, out);
}

/// Bytes `p[0..b]` are those of `p[0..a]` followed by `p[a..b]`.
pub proof fn lemma_extend(p: Seq<u8>, acc: Seq<u8>, x: Seq<u8>, a: int, b: int)
    requires
        0 <= a <= b <= p.len(),
        acc == p.subrange(0, a),
        x == p.subrange(a, b),
    ensures
        acc + x == p.subrange(0, b),
{
    assert(acc + x =~= p.subrange(0, b));
}

pub proof fn lemma_byte_at(p: Seq<u8>, i: int)
    requires
        0 <= i < p.len(),
    ensures
        seq![p[i]] == p.subrange(i, i + 1),
{
    assert(seq![p[i]] =~= p.subrange(i, i + 1));
}

} // verus!
