//! Class CFG (0x06): configuration values, VALSET, VALGET and layers.
use vstd::prelude::*;

use crate::parse::{le32, read_u32, u32_bytes, u64_bytes, write_all, write_u32, write_u64, ParseError};

verus! {

pub const CFG_VALSET: u8 = 0x8a;

pub const CFG_VALGET: u8 = 0x8b;

pub const CFG_VALDEL: u8 = 0x8c;

/// Size in bytes of the value stored under `key`, from the size field in its
/// bits 28..30 (0 when that field names no size).
pub open spec fn value_size(key: u32) -> nat {
    let s = (key as nat / 0x1000_0000) % 8;
    if s == 1 || s == 2 {
        1
    } else if s == 3 {
        2
    } else if s == 4 {
        4
    } else if s == 5 {
        8
    } else {
        0
    }
}

/// Size in bytes of the value stored under `key` (0 when the key names no size).
pub fn value_size_of(key: u32) -> (r: usize)
    ensures
        r == value_size(key),
{
    let s = (key / 0x1000_0000) % 8;
    if s == 1 || s == 2 {
        1
    } else if s == 3 {
        2
    } else if s == 4 {
        4
    } else if s == 5 {
        8
    } else {
        0
    }
}

/// A configuration value: its 32-bit key and its little-endian payload.
#[derive(Debug, Clone)]
pub struct Value {
    pub key: u32,
    pub data: Vec<u8>,
}

impl Value {
    pub open spec fn wf(&self) -> bool {
        value_size(self.key) > 0 && self.data@.len() == value_size(self.key)
    }

    pub open spec fn spec_bytes(&self) -> Seq<u8> {
        u32_bytes(self.key as nat) + self.data@
    }

    /// The value of `key` holding the integer `n`, in as many little-endian
    /// bytes as the key's size says (higher bytes are dropped); `None` when
    /// the key names no size.
    pub fn from_integer(key: u32, n: u64) -> (r: Option<Value>)
        ensures
            r is Some <==> value_size(key) > 0,
            r is Some ==> r->Some_0.wf() && r->Some_0.key == key && r->Some_0.data@ == u64_bytes(
                n as nat,
            ).subrange(0, value_size(key) as int),
    {
        let size = value_size_of(key);
        if size == 0 {
            return None;
        }
        let mut all: Vec<u8> = Vec::new();
        write_u64(n, &mut all);
        proof {
            assert(all@.len() == 8);
        }
        let _rest = all.split_off(size);
        proof {
            assert(all@ =~= u64_bytes(n as nat).subrange(0, size as int));
        }
        Some(Value { key, data: all })
    }
}

/// Concatenated encodings of a list of values.
pub open spec fn values_bytes(vs: Seq<Value>) -> Seq<u8>
    decreases vs.len(),
{
    if vs.len() == 0 {
        Seq::empty()
    } else {
        values_bytes(vs.drop_last()) + vs.last().spec_bytes()
    }
}

/// Concatenated encodings of a list of keys.
pub open spec fn keys_bytes(ks: Seq<u32>) -> Seq<u8>
    decreases ks.len(),
{
    if ks.len() == 0 {
        Seq::empty()
    } else {
        keys_bytes(ks.drop_last()) + u32_bytes(ks.last() as nat)
    }
}

pub proof fn lemma_keys_len(ks: Seq<u32>)
    ensures
        keys_bytes(ks).len() == 4 * ks.len(),
    decreases ks.len(),
{
    if ks.len() > 0 {
        lemma_keys_len(ks.drop_last());
    }
}

/// `p` is a whole number of key/value records whose keys name a size.
pub open spec fn values_decodable(p: Seq<u8>) -> bool
    decreases p.len(),
{
    if p.len() == 0 {
        true
    } else if p.len() < 4 {
        false
    } else {
        let n = value_size(le32(p, 0) as u32);
        n > 0 && p.len() >= 4 + n && values_decodable(p.subrange(4 + n as int, p.len() as int))
    }
}

pub proof fn lemma_value_bytes(v: Value, rest: Seq<u8>)
    requires
        v.wf(),
    ensures
        (v.spec_bytes() + rest).len() >= 4,
        le32(v.spec_bytes() + rest, 0) == v.key as nat,
        (v.spec_bytes() + rest).subrange(4, 4 + v.data@.len() as int) == v.data@,
        (v.spec_bytes() + rest).subrange(4 + v.data@.len() as int, (v.spec_bytes() + rest).len() as int) == rest,
{
    crate::parse::lemma_le32_of_bytes(v.key as nat, Seq::empty(), v.data@ + rest);
    assert(Seq::<u8>::empty() + u32_bytes(v.key as nat) + (v.data@ + rest) =~= v.spec_bytes() + rest);
    assert((v.spec_bytes() + rest).subrange(4, 4 + v.data@.len() as int) =~= v.data@);
    assert((v.spec_bytes() + rest).subrange(4 + v.data@.len() as int, (v.spec_bytes() + rest).len() as int) =~= rest);
}

pub proof fn lemma_values_bytes_first(vs: Seq<Value>)
    requires
        vs.len() > 0,
    ensures
        values_bytes(vs) == vs[0].spec_bytes() + values_bytes(vs.drop_first()),
    decreases vs.len(),
{
    if vs.len() > 1 {
        lemma_values_bytes_first(vs.drop_last());
        assert(vs.drop_last().drop_first() =~= vs.drop_first().drop_last());
        assert(vs.drop_first().last() == vs.last());
        assert(vs.drop_last()[0] == vs[0]);
    } else {
        assert(vs.drop_last() =~= Seq::<Value>::empty());
        assert(vs.drop_first() =~= Seq::<Value>::empty());
    }
}

/// Encodings of well-formed values can be read back.
pub proof fn lemma_values_decodable(vs: Seq<Value>)
    requires
        forall|i: int| 0 <= i < vs.len() ==> (#[trigger] vs[i]).wf(),
    ensures
        values_decodable(values_bytes(vs)),
    decreases vs.len(),
{
    if vs.len() > 0 {
        lemma_values_bytes_first(vs);
        let rest = values_bytes(vs.drop_first());
        assert(vs[0].wf());
        lemma_value_bytes(vs[0], rest);
        assert forall|i: int| 0 <= i < vs.drop_first().len() implies (
        #[trigger] vs.drop_first()[i]).wf() by {
            assert(vs.drop_first()[i] == vs[i + 1]);
        }
        lemma_values_decodable(vs.drop_first());
    }
}

/// The record that starts at `i`: its bytes, and what remains to be read after it.
proof fn lemma_record_at(p: Seq<u8>, i: int)
    requires
        0 <= i,
        i + 4 <= p.len(),
    ensures
        ({
            let key = le32(p, i) as u32;
            let n = value_size(key);
            &&& le32(p.subrange(i, p.len() as int), 0) == le32(p, i)
            &&& u32_bytes(le32(p, i)) == p.subrange(i, i + 4)
            &&& values_decodable(p.subrange(i, p.len() as int)) == (n > 0 && p.len() >= i + 4 + n
                && values_decodable(p.subrange(i + 4 + n, p.len() as int)))
        }),
{
    let rest = p.subrange(i, p.len() as int);
    let key = le32(p, i) as u32;
    let n = value_size(key);
    assert(le32(rest, 0) == le32(p, i));
    crate::parse::lemma_u32_bytes_of_le32(p, i);
    if n > 0 && p.len() >= i + 4 + n {
        assert(rest.subrange(4 + n as int, rest.len() as int) =~= p.subrange(
            i + 4 + n,
            p.len() as int,
        ));
    }
}

/// Reads the key/value records that fill `p[pos..]`.
pub fn read_values(p: &[u8], pos: usize) -> (r: Result<Vec<Value>, ParseError>)
    requires
        pos <= p@.len(),
    ensures
        r is Ok <==> values_decodable(p@.subrange(pos as int, p@.len() as int)),
        r is Ok ==> values_bytes(r->Ok_0@) == p@.subrange(pos as int, p@.len() as int)
            && forall|i: int| 0 <= i < r->Ok_0@.len() ==> (#[trigger] r->Ok_0@[i]).wf(),
        r is Err ==> r->Err_0 == ParseError::Invalid,
{
    let mut res: Vec<Value> = Vec::new();
    let mut i: usize = pos;
    proof {
        assert(values_bytes(res@) =~= p@.subrange(pos as int, i as int));
    }
    while i < p.len()
        invariant
            pos <= i <= p@.len(),
            values_bytes(res@) == p@.subrange(pos as int, i as int),
            forall|j: int| 0 <= j < res@.len() ==> (#[trigger] res@[j]).wf(),
            values_decodable(p@.subrange(pos as int, p@.len() as int)) == values_decodable(
                p@.subrange(i as int, p@.len() as int),
            ),
        decreases p@.len() - i,
    {
        if p.len() - i < 4 {
            return Err(ParseError::Invalid);
        }
        let key = read_u32(p, i);
        proof {
            lemma_record_at(p@, i as int);
        }
        let n = value_size_of(key);
        if n == 0 || p.len() - i - 4 < n {
            return Err(ParseError::Invalid);
        }
        let data = vstd::slice::slice_to_vec(vstd::slice::slice_subrange(p, i + 4, i + 4 + n));
        let v = Value { key, data };
        let ghost old_res = res@;
        res.push(v);
        proof {
            assert(res@.drop_last() =~= old_res);
            assert(v.spec_bytes() =~= p@.subrange(i as int, i + 4 + n));
            assert(values_bytes(res@) == values_bytes(old_res) + v.spec_bytes());
            assert(p@.subrange(pos as int, i as int) + p@.subrange(i as int, i + 4 + n)
                =~= p@.subrange(pos as int, i + 4 + n));
        }
        i = i + 4 + n;
    }
    proof {
        assert(p@.subrange(i as int, p@.len() as int) =~= Seq::<u8>::empty());
    }
    Ok(res)
}

/// Appends the records of `vs`.
pub fn write_values(vs: &Vec<Value>, out: &mut Vec<u8>)
    ensures
        final(out)@ == old(out)@ + values_bytes(vs@),
{
    let mut i: usize = 0;
    while i < vs.len()
        invariant
            i <= vs@.len(),
            out@ == old(out)@ + values_bytes(vs@.subrange(0, i as int)),
        decreases vs@.len() - i,
    {
        let ghost before = out@;
        write_u32(vs[i].key, out);
        write_all(vs[i].data.as_slice(), out);
        proof {
            assert(vs@.subrange(0, i + 1).drop_last() =~= vs@.subrange(0, i as int));
        }
        i += 1;
        proof {
            assert(out@ =~= old(out)@ + values_bytes(vs@.subrange(0, i as int)));
        }
    }
    proof {
        assert(vs@.subrange(0, vs@.len() as int) =~= vs@);
    }
}

/// Reads the keys that fill `p[pos..]`.
pub fn read_keys(p: &[u8], pos: usize) -> (r: Result<Vec<u32>, ParseError>)
    requires
        pos <= p@.len(),
    ensures
        r is Ok <==> (p@.len() - pos) % 4 == 0,
        r is Ok ==> keys_bytes(r->Ok_0@) == p@.subrange(pos as int, p@.len() as int),
        r is Err ==> r->Err_0 == ParseError::Invalid,
{
    if (p.len() - pos) % 4 != 0 {
        return Err(ParseError::Invalid);
    }
    let mut res: Vec<u32> = Vec::new();
    let mut i: usize = pos;
    proof {
        assert(keys_bytes(res@) =~= p@.subrange(pos as int, i as int));
    }
    while i < p.len()
        invariant
            pos <= i <= p@.len(),
            (p@.len() - i) % 4 == 0,
            keys_bytes(res@) == p@.subrange(pos as int, i as int),
        decreases p@.len() - i,
    {
        let key = read_u32(p, i);
        proof {
            lemma_record_at(p@, i as int);
        }
        let ghost old_res = res@;
        res.push(key);
        proof {
            assert(res@.drop_last() =~= old_res);
            assert(p@.subrange(pos as int, i as int) + p@.subrange(i as int, i + 4)
                =~= p@.subrange(pos as int, i + 4));
        }
        i = i + 4;
    }
    Ok(res)
}

/// Appends the encodings of `ks`.
pub fn write_keys(ks: &Vec<u32>, out: &mut Vec<u8>)
    ensures
        final(out)@ == old(out)@ + keys_bytes(ks@),
{
    let mut i: usize = 0;
    while i < ks.len()
        invariant
            i <= ks@.len(),
            out@ == old(out)@ + keys_bytes(ks@.subrange(0, i as int)),
        decreases ks@.len() - i,
    {
        write_u32(ks[i], out);
        proof {
            assert(ks@.subrange(0, i + 1).drop_last() =~= ks@.subrange(0, i as int));
        }
        i += 1;
        proof {
            assert(out@ =~= old(out)@ + keys_bytes(ks@.subrange(0, i as int)));
        }
    }
    proof {
        assert(ks@.subrange(0, ks@.len() as int) =~= ks@);
    }
}

/// Layer that a VALGET request reads from.
#[derive(Debug, Clone, Copy, PartialEq, Eq, Structural)]
pub enum Layer {
    Ram,
    Bbr,
    Flash,
    Default,
}

impl Layer {
    pub open spec fn spec_to_u8(self) -> u8 {
        match self {
            Layer::Ram => 0,
            Layer::Bbr => 1,
            Layer::Flash => 2,
            Layer::Default => 7,
        }
    }

    pub fn to_u8(self) -> (r: u8)
        ensures
            r == self.spec_to_u8(),
    {
        match self {
            Layer::Ram => 0,
            Layer::Bbr => 1,
            Layer::Flash => 2,
            Layer::Default => 7,
        }
    }

    /// The layer with code `v`; codes other than 0, 1, 2 and 7 are rejected.
    pub fn from_u8(v: u8) -> (r: Result<Layer, ParseError>)
        ensures
            r is Ok <==> (v == 0 || v == 1 || v == 2 || v == 7),
            r is Ok ==> r->Ok_0.spec_to_u8() == v,
            r is Err ==> r->Err_0 == ParseError::Invalid,
    {
        match v {
            0 => Ok(Layer::Ram),
            1 => Ok(Layer::Bbr),
            2 => Ok(Layer::Flash),
            7 => Ok(Layer::Default),
            _ => Err(ParseError::Invalid),
        }
    }
}

/// One layer of the set that a VALSET writes to.
#[derive(Debug, Clone, Copy, PartialEq, Eq, Structural)]
pub enum BitLayer {
    Ram,
    Bbr,
    Flash,
}

/// Mask of all layer bits.
pub const BIT_LAYER_ALL: u8 = 0b111;

impl BitLayer {
    pub open spec fn spec_bit(self) -> u8 {
        match self {
            BitLayer::Ram => 0b001,
            BitLayer::Bbr => 0b010,
            BitLayer::Flash => 0b100,
        }
    }

    pub fn bit(self) -> (r: u8)
        ensures
            r == self.spec_bit(),
    {
        match self {
            BitLayer::Ram => 0b001,
            BitLayer::Bbr => 0b010,
            BitLayer::Flash => 0b100,
        }
    }
}

/// The payload of a CFG-VALSET message.
#[derive(Debug, Clone)]
pub struct ValSet {
    pub version: u8,
    /// Set of `BitLayer` bits.
    pub layers: u8,
    pub res1: [u8; 2],
    pub values: Vec<Value>,
}

impl ValSet {
    pub open spec fn spec_payload(&self) -> Seq<u8> {
        seq![self.version, self.layers, self.res1@[0], self.res1@[1]] + values_bytes(self.values@)
    }

    pub open spec fn wf(&self) -> bool {
        &&& self.version == 0
        &&& self.layers <= BIT_LAYER_ALL
        &&& forall|i: int| 0 <= i < self.values@.len() ==> (#[trigger] self.values@[i]).wf()
        &&& self.spec_payload().len() <= 0xffff
    }

    /// A payload that reads as a VALSET.
    pub open spec fn decodes(p: Seq<u8>) -> bool {
        p.len() >= 4 && p[0] == 0 && values_decodable(p.subrange(4, p.len() as int))
    }

    /// Reads a VALSET payload; unknown layer bits are dropped.
    pub fn from_bytes(p: &[u8]) -> (r: Result<ValSet, ParseError>)
        requires
            p@.len() <= 0xffff,
        ensures
            r is Ok <==> Self::decodes(p@),
            r is Ok ==> r->Ok_0.wf() && r->Ok_0.spec_payload() == p@.update(1, p@[1] % 8),
            r is Err ==> r->Err_0 == ParseError::Invalid,
    {
        if p.len() < 4 || p[0] != 0 {
            return Err(ParseError::Invalid);
        }
        let values = match read_values(p, 4) {
            Ok(v) => v,
            Err(e) => return Err(e),
        };
        let r = ValSet { version: 0, layers: p[1] % 8, res1: [p[2], p[3]], values };
        proof {
            assert(r.spec_payload() =~= p@.update(1, p@[1] % 8));
        }
        Ok(r)
    }

    /// Appends the payload.
    pub fn write_bytes(&self, out: &mut Vec<u8>)
        ensures
            final(out)@ == old(out)@ + self.spec_payload(),
    {
        out.push(self.version);
        out.push(self.layers);
        out.push(self.res1[0]);
        out.push(self.res1[1]);
        let ghost mid = out@;
        write_values(&self.values, out);
        proof {
            assert(final(out)@ =~= old(out)@ + self.spec_payload());
        }
    }
}

/// The payload of a CFG-VALGET message: a request for keys, or the device's answer.
#[derive(Debug, Clone)]
pub enum ValGet {
    Request { layer: Layer, res1: [u8; 2], keys: Vec<u32> },
    Response { layer: Layer, res1: [u8; 2], values: Vec<Value> },
}

impl ValGet {
    pub open spec fn spec_payload(&self) -> Seq<u8> {
        match self {
            ValGet::Request { layer, res1, keys } => seq![0u8, layer.spec_to_u8(), res1@[0], res1@[1]]
                + keys_bytes(keys@),
            ValGet::Response { layer, res1, values } => seq![1u8, layer.spec_to_u8(), res1@[0], res1@[1]]
                + values_bytes(values@),
        }
    }

    pub open spec fn wf(&self) -> bool {
        &&& self.spec_payload().len() <= 0xffff
        &&& (self matches ValGet::Response { values, .. } ==> forall|i: int|
            0 <= i < values@.len() ==> (#[trigger] values@[i]).wf())
    }

    /// A payload that reads as a VALGET.
    pub open spec fn decodes(p: Seq<u8>) -> bool {
        &&& p.len() >= 4
        &&& (p[1] == 0 || p[1] == 1 || p[1] == 2 || p[1] == 7)
        &&& (p[0] == 0 ==> (p.len() - 4) % 4 == 0)
        &&& (p[0] == 1 ==> values_decodable(p.subrange(4, p.len() as int)))
        &&& (p[0] == 0 || p[0] == 1)
    }

    /// Reads a VALGET payload.
    pub fn from_bytes(p: &[u8]) -> (r: Result<ValGet, ParseError>)
        requires
            p@.len() <= 0xffff,
        ensures
            r is Ok <==> Self::decodes(p@),
            r is Ok ==> r->Ok_0.wf() && r->Ok_0.spec_payload() == p@,
            r is Err ==> r->Err_0 == ParseError::Invalid,
    {
        if p.len() < 4 {
            return Err(ParseError::Invalid);
        }
        let layer = match Layer::from_u8(p[1]) {
            Ok(l) => l,
            Err(e) => return Err(e),
        };
        let res1 = [p[2], p[3]];
        if p[0] == 0 {
            let keys = match read_keys(p, 4) {
                Ok(k) => k,
                Err(e) => return Err(e),
            };
            let r = ValGet::Request { layer, res1, keys };
            proof {
                assert(r.spec_payload() =~= p@);
            }
            Ok(r)
        } else if p[0] == 1 {
            let values = match read_values(p, 4) {
                Ok(v) => v,
                Err(e) => return Err(e),
            };
            let r = ValGet::Response { layer, res1, values };
            proof {
                assert(r.spec_payload() =~= p@);
            }
            Ok(r)
        } else {
            Err(ParseError::Invalid)
        }
    }

    /// Appends the payload.
    pub fn write_bytes(&self, out: &mut Vec<u8>)
        ensures
            final(out)@ == old(out)@ + self.spec_payload(),
    {
        match self {
            ValGet::Request { layer, res1, keys } => {
                out.push(0);
                out.push(layer.to_u8());
                out.push(res1[0]);
                out.push(res1[1]);
                write_keys(keys, out);
            },
            ValGet::Response { layer, res1, values } => {
                out.push(1);
                out.push(layer.to_u8());
                out.push(res1[0]);
                out.push(res1[1]);
                write_values(values, out);
            },
        }
        proof {
            assert(final(out)@ =~= old(out)@ + self.spec_payload());
        }
    }
}

/// The payload of a CFG-VALDEL message: keys to delete from the layers in `layers`.
#[derive(Debug, Clone)]
pub struct ValDel {
    pub version: u8,
    /// Set of `BitLayer` bits.
    pub layers: u8,
    pub res1: [u8; 2],
    pub keys: Vec<u32>,
}

impl ValDel {
    pub open spec fn spec_payload(&self) -> Seq<u8> {
        seq![self.version, self.layers, self.res1@[0], self.res1@[1]] + keys_bytes(self.keys@)
    }

    pub open spec fn wf(&self) -> bool {
        self.layers <= BIT_LAYER_ALL && self.spec_payload().len() <= 0xffff
    }

    /// A payload that reads as a VALDEL.
    pub open spec fn decodes(p: Seq<u8>) -> bool {
        p.len() >= 4 && (p.len() - 4) % 4 == 0
    }

    /// Reads a VALDEL payload; unknown layer bits are dropped.
    pub fn from_bytes(p: &[u8]) -> (r: Result<ValDel, ParseError>)
        requires
            p@.len() <= 0xffff,
        ensures
            r is Ok <==> Self::decodes(p@),
            r is Ok ==> r->Ok_0.wf() && r->Ok_0.spec_payload() == p@.update(1, p@[1] % 8),
            r is Err ==> r->Err_0 == ParseError::Invalid,
    {
        if p.len() < 4 {
            return Err(ParseError::Invalid);
        }
        let keys = match read_keys(p, 4) {
            Ok(k) => k,
            Err(e) => return Err(e),
        };
        let r = ValDel { version: p[0], layers: p[1] % 8, res1: [p[2], p[3]], keys };
        proof {
            assert(r.spec_payload() =~= p@.update(1, p@[1] % 8));
        }
        Ok(r)
    }

    /// Appends the payload.
    pub fn write_bytes(&self, out: &mut Vec<u8>)
        ensures
            final(out)@ == old(out)@ + self.spec_payload(),
    {
        out.push(self.version);
        out.push(self.layers);
        out.push(self.res1[0]);
        out.push(self.res1[1]);
        write_keys(&self.keys, out);
        proof {
            assert(final(out)@ =~= old(out)@ + self.spec_payload());
        }
    }
}

/// The payload of a CFG-CFG message: the three masks and, optionally, the devices.
#[derive(Debug, Clone, Copy)]
pub struct CfgCfg {
    pub masks: crate::payloads::CfgMasks,
    pub dev_mask: Option<u8>,
}

impl CfgCfg {
    pub open spec fn spec_payload(&self) -> Seq<u8> {
        self.masks.spec_payload() + match self.dev_mask {
            Some(d) => seq![d],
            None => Seq::empty(),
        }
    }

    pub open spec fn wf(&self) -> bool {
        self.masks.spec_payload().len() == 12
    }

    /// A payload that reads as CFG-CFG: 12 or 13 bytes.
    pub open spec fn decodes(p: Seq<u8>) -> bool {
        p.len() == 12 || p.len() == 13
    }

    pub fn from_bytes(p: &[u8]) -> (r: Result<CfgCfg, ParseError>)
        ensures
            r is Ok <==> Self::decodes(p@),
            r is Ok ==> r->Ok_0.wf() && r->Ok_0.spec_payload() == p@,
            r is Err ==> r->Err_0 == ParseError::InvalidLen,
    {
        if p.len() != 12 && p.len() != 13 {
            return Err(ParseError::InvalidLen);
        }
        let masks = crate::payloads::CfgMasks::from_bytes(vstd::slice::slice_subrange(p, 0, 12));
        let dev_mask = if p.len() == 13 {
            Some(p[12])
        } else {
            None
        };
        let r = CfgCfg { masks, dev_mask };
        proof {
            assert(r.spec_payload() =~= p@);
        }
        Ok(r)
    }

    /// Appends the payload.
    pub fn write_bytes(&self, out: &mut Vec<u8>)
        ensures
            final(out)@ == old(out)@ + self.spec_payload(),
    {
        self.masks.write_bytes(out);
        match self.dev_mask {
            Some(d) => out.push(d),
            None => {},
        }
        proof {
            assert(final(out)@ =~= old(out)@ + self.spec_payload());
        }
    }
}

} // verus!
