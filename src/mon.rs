//! Class MON (0x0A): the port traffic report is typed; other messages of the
//! class keep their payload.
use vstd::prelude::*;

use crate::classes::{fixed_len, RawMsg};
use crate::parse::{write_all, ParseError};
use crate::payloads::{CommsBlock, IoBlock, Msgpp, RfBlock};

verus! {

pub const MON_IO: u8 = 0x02;

pub const MON_MSGPP: u8 = 0x06;

pub const MON_RF: u8 = 0x38;

pub const MON_COMMS: u8 = 0x36;

/// Concatenated bytes of a list of blocks.
pub open spec fn blocks_bytes(bs: Seq<CommsBlock>) -> Seq<u8>
    decreases bs.len(),
{
    if bs.len() == 0 {
        Seq::empty()
    } else {
        blocks_bytes(bs.drop_last()) + bs.last().spec_payload()
    }
}

/// MON-COMMS (0x0A 0x36): a header and one block per port.
#[derive(Debug, Clone)]
pub struct Comms {
    pub version: u8,
    pub n_ports: u8,
    pub tx_errors: u8,
    pub res1: u8,
    pub prot_ids: [u8; 4],
    pub blocks: Vec<CommsBlock>,
}

/// A MON-COMMS payload: an 8-byte header, then as many 40-byte blocks as its second byte says.
pub open spec fn comms_decodes(p: Seq<u8>) -> bool {
    p.len() >= 8 && p.len() == 8 + 40 * (p[1] as nat)
}

impl Comms {
    pub open spec fn spec_payload(&self) -> Seq<u8> {
        seq![self.version, self.n_ports, self.tx_errors, self.res1] + self.prot_ids@
            + blocks_bytes(self.blocks@)
    }

    pub open spec fn wf(&self) -> bool {
        &&& self.blocks@.len() == self.n_ports as nat
        &&& forall|i: int| 0 <= i < self.blocks@.len() ==> (#[trigger] self.blocks@[i]).spec_payload().len() == 40
    }

    /// Reads a payload that `comms_decodes` accepts.
    pub fn from_bytes(p: &[u8]) -> (r: Comms)
        requires
            comms_decodes(p@),
        ensures
            r.wf(),
            r.spec_payload() == p@,
    {
        let n = p[1] as usize;
        let mut blocks: Vec<CommsBlock> = Vec::new();
        let mut i: usize = 0;
        proof {
            assert(blocks_bytes(blocks@) =~= p@.subrange(8, 8));
        }
        while i < n
            invariant
                comms_decodes(p@),
                n == p@[1] as nat,
                i <= n,
                blocks@.len() == i,
                blocks_bytes(blocks@) == p@.subrange(8, 8 + 40 * i),
                forall|k: int| 0 <= k < blocks@.len() ==> (#[trigger] blocks@[k]).spec_payload().len() == 40,
            decreases n - i,
        {
            let start = 8 + 40 * i;
            let b = CommsBlock::from_bytes(vstd::slice::slice_subrange(p, start, start + 40));
            let ghost old_blocks = blocks@;
            blocks.push(b);
            proof {
                assert(blocks@.drop_last() =~= old_blocks);
                assert(p@.subrange(8, start as int) + p@.subrange(start as int, start + 40)
                    =~= p@.subrange(8, start + 40));
            }
            i += 1;
        }
        let r = Comms {
            version: p[0],
            n_ports: p[1],
            tx_errors: p[2],
            res1: p[3],
            prot_ids: [p[4], p[5], p[6], p[7]],
            blocks,
        };
        proof {
            assert(r.spec_payload() =~= p@);
        }
        r
    }

    /// Appends the payload.
    pub fn write_bytes(&self, out: &mut Vec<u8>)
        ensures
            final(out)@ == old(out)@ + self.spec_payload(),
    {
        let mut buf: Vec<u8> = Vec::new();
        buf.push(self.version);
        buf.push(self.n_ports);
        buf.push(self.tx_errors);
        buf.push(self.res1);
        buf.push(self.prot_ids[0]);
        buf.push(self.prot_ids[1]);
        buf.push(self.prot_ids[2]);
        buf.push(self.prot_ids[3]);
        let ghost head = buf@;
        let mut i: usize = 0;
        while i < self.blocks.len()
            invariant
                i <= self.blocks@.len(),
                buf@ == head + blocks_bytes(self.blocks@.subrange(0, i as int)),
            decreases self.blocks@.len() - i,
        {
            self.blocks[i].write_bytes(&mut buf);
            proof {
                assert(self.blocks@.subrange(0, i + 1).drop_last() =~= self.blocks@.subrange(0, i as int));
            }
            i += 1;
        }
        proof {
            assert(self.blocks@.subrange(0, self.blocks@.len() as int) =~= self.blocks@);
            assert(buf@ =~= self.spec_payload());
        }
        write_all(buf.as_slice(), out);
    }
}

/// Concatenated bytes of a list of blocks.
pub open spec fn rf_blocks_bytes(bs: Seq<RfBlock>) -> Seq<u8>
    decreases bs.len(),
{
    if bs.len() == 0 {
        Seq::empty()
    } else {
        rf_blocks_bytes(bs.drop_last()) + bs.last().spec_payload()
    }
}

/// MON-RF (0x0A 0x38): a header and one block per RF band.
#[derive(Debug, Clone)]
pub struct Rf {
    pub version: u8,
    pub n_blocks: u8,
    pub res1: [u8; 2],
    pub blocks: Vec<RfBlock>,
}

/// A MON-RF payload: a 4-byte header, then as many 24-byte blocks as its second byte says.
pub open spec fn rf_decodes(p: Seq<u8>) -> bool {
    p.len() >= 4 && p.len() == 4 + 24 * (p[1] as nat)
}

impl Rf {
    pub open spec fn spec_payload(&self) -> Seq<u8> {
        seq![self.version, self.n_blocks, self.res1@[0], self.res1@[1]] + rf_blocks_bytes(
            self.blocks@,
        )
    }

    pub open spec fn wf(&self) -> bool {
        &&& self.blocks@.len() == self.n_blocks as nat
        &&& forall|i: int| 0 <= i < self.blocks@.len() ==> (#[trigger] self.blocks@[i]).spec_payload().len() == 24
    }

    /// Reads a payload that `rf_decodes` accepts.
    pub fn from_bytes(p: &[u8]) -> (r: Rf)
        requires
            rf_decodes(p@),
        ensures
            r.wf(),
            r.spec_payload() == p@,
    {
        let n = p[1] as usize;
        let mut blocks: Vec<RfBlock> = Vec::new();
        let mut i: usize = 0;
        proof {
            assert(rf_blocks_bytes(blocks@) =~= p@.subrange(4, 4));
        }
        while i < n
            invariant
                rf_decodes(p@),
                n == p@[1] as nat,
                i <= n,
                blocks@.len() == i,
                rf_blocks_bytes(blocks@) == p@.subrange(4, 4 + 24 * i),
                forall|k: int| 0 <= k < blocks@.len() ==> (#[trigger] blocks@[k]).spec_payload().len() == 24,
            decreases n - i,
        {
            let start = 4 + 24 * i;
            let b = RfBlock::from_bytes(vstd::slice::slice_subrange(p, start, start + 24));
            let ghost old_blocks = blocks@;
            blocks.push(b);
            proof {
                assert(blocks@.drop_last() =~= old_blocks);
                assert(p@.subrange(4, start as int) + p@.subrange(start as int, start + 24)
                    =~= p@.subrange(4, start + 24));
            }
            i += 1;
        }
        let r = Rf { version: p[0], n_blocks: p[1], res1: [p[2], p[3]], blocks };
        proof {
            assert(r.spec_payload() =~= p@);
        }
        r
    }

    /// Appends the payload.
    pub fn write_bytes(&self, out: &mut Vec<u8>)
        ensures
            final(out)@ == old(out)@ + self.spec_payload(),
    {
        let mut buf: Vec<u8> = Vec::new();
        buf.push(self.version);
        buf.push(self.n_blocks);
        buf.push(self.res1[0]);
        buf.push(self.res1[1]);
        let ghost head = buf@;
        let mut i: usize = 0;
        while i < self.blocks.len()
            invariant
                i <= self.blocks@.len(),
                buf@ == head + rf_blocks_bytes(self.blocks@.subrange(0, i as int)),
            decreases self.blocks@.len() - i,
        {
            self.blocks[i].write_bytes(&mut buf);
            proof {
                assert(self.blocks@.subrange(0, i + 1).drop_last() =~= self.blocks@.subrange(0, i as int));
            }
            i += 1;
        }
        proof {
            assert(self.blocks@.subrange(0, self.blocks@.len() as int) =~= self.blocks@);
            assert(buf@ =~= self.spec_payload());
        }
        write_all(buf.as_slice(), out);
    }
}

/// Concatenated bytes of a list of port blocks.
pub open spec fn io_blocks_bytes(bs: Seq<IoBlock>) -> Seq<u8>
    decreases bs.len(),
{
    if bs.len() == 0 {
        Seq::empty()
    } else {
        io_blocks_bytes(bs.drop_last()) + bs.last().spec_payload()
    }
}

/// Reads a MON-IO payload: one 20-byte block per port.
pub fn read_io_blocks(p: &[u8]) -> (r: Result<Vec<IoBlock>, ParseError>)
    ensures
        r is Ok <==> p@.len() % 20 == 0,
        r is Ok ==> io_blocks_bytes(r->Ok_0@) == p@ && forall|k: int|
            0 <= k < r->Ok_0@.len() ==> (#[trigger] r->Ok_0@[k]).spec_payload().len() == 20,
        r is Err ==> r->Err_0 == ParseError::Invalid,
{
    if p.len() % 20 != 0 {
        return Err(ParseError::Invalid);
    }
    let len = p.len();
    let n = len / 20;
    let mut blocks: Vec<IoBlock> = Vec::new();
    let mut i: usize = 0;
    proof {
        assert(io_blocks_bytes(blocks@) =~= p@.subrange(0, 0));
    }
    while i < n
        invariant
            len == p@.len(),
            n * 20 == p@.len(),
            i <= n,
            blocks@.len() == i,
            io_blocks_bytes(blocks@) == p@.subrange(0, 20 * i),
            forall|k: int| 0 <= k < blocks@.len() ==> (#[trigger] blocks@[k]).spec_payload().len() == 20,
        decreases n - i,
    {
        let start = 20 * i;
        let b = IoBlock::from_bytes(vstd::slice::slice_subrange(p, start, start + 20));
        let ghost old_blocks = blocks@;
        blocks.push(b);
        proof {
            assert(blocks@.drop_last() =~= old_blocks);
            assert(p@.subrange(0, start as int) + p@.subrange(start as int, start + 20)
                =~= p@.subrange(0, start + 20));
        }
        i += 1;
    }
    proof {
        assert(p@.subrange(0, p@.len() as int) =~= p@);
    }
    Ok(blocks)
}

/// Appends the blocks of a MON-IO payload.
pub fn write_io_blocks(bs: &Vec<IoBlock>, out: &mut Vec<u8>)
    ensures
        final(out)@ == old(out)@ + io_blocks_bytes(bs@),
{
    let mut i: usize = 0;
    while i < bs.len()
        invariant
            i <= bs@.len(),
            out@ == old(out)@ + io_blocks_bytes(bs@.subrange(0, i as int)),
        decreases bs@.len() - i,
    {
        bs[i].write_bytes(out);
        proof {
            assert(bs@.subrange(0, i + 1).drop_last() =~= bs@.subrange(0, i as int));
        }
        i += 1;
        proof {
            assert(out@ =~= old(out)@ + io_blocks_bytes(bs@.subrange(0, i as int)));
        }
    }
    proof {
        assert(bs@.subrange(0, bs@.len() as int) =~= bs@);
    }
}

/// Class MON.
#[derive(Debug, Clone)]
pub enum Mon {
    Io(Vec<IoBlock>),
    Msgpp(Msgpp),
    Comms(Comms),
    Rf(Rf),
    Other(RawMsg),
}

impl Mon {
    pub open spec fn spec_id(&self) -> u8 {
        match self {
            Mon::Io(_) => MON_IO,
            Mon::Msgpp(_) => MON_MSGPP,
            Mon::Comms(_) => MON_COMMS,
            Mon::Rf(_) => MON_RF,
            Mon::Other(m) => m.id,
        }
    }

    pub open spec fn spec_payload(&self) -> Seq<u8> {
        match self {
            Mon::Io(bs) => io_blocks_bytes(bs@),
            Mon::Msgpp(x) => x.spec_payload(),
            Mon::Comms(c) => c.spec_payload(),
            Mon::Rf(x) => x.spec_payload(),
            Mon::Other(m) => m.payload@,
        }
    }

    pub open spec fn wf(&self) -> bool {
        match self {
            Mon::Io(bs) => io_blocks_bytes(bs@).len() % 20 == 0 && io_blocks_bytes(bs@).len()
                <= 0xffff,
            Mon::Msgpp(x) => x.spec_payload().len() == 120,
            Mon::Comms(c) => c.wf() && comms_decodes(c.spec_payload()),
            Mon::Rf(x) => x.wf() && rf_decodes(x.spec_payload()),
            Mon::Other(m) => m.id != MON_COMMS && m.id != MON_MSGPP && m.id != MON_IO && m.id
                != MON_RF && m.wf_in(0x0a),
        }
    }

    /// The error for a payload of MON with id `id` that cannot be read: a port
    /// list of the wrong length is invalid, any other wrong length is a length error.
    pub open spec fn decode_error(id: u8) -> ParseError {
        if id == MON_IO || id == MON_COMMS {
            ParseError::Invalid
        } else {
            ParseError::InvalidLen
        }
    }

    /// A payload of MON with id `id` can be read.
    pub open spec fn decodes(id: u8, p: Seq<u8>) -> bool {
        &&& (fixed_len(0x0a, id) is Some ==> p.len() == fixed_len(0x0a, id)->Some_0)
        &&& (id == MON_COMMS ==> comms_decodes(p))
        &&& (id == MON_RF ==> rf_decodes(p))
        &&& (id == MON_IO ==> p.len() % 20 == 0)
    }

    pub fn id(&self) -> (r: u8)
        ensures
            r == self.spec_id(),
    {
        match self {
            Mon::Io(_) => MON_IO,
            Mon::Msgpp(_) => MON_MSGPP,
            Mon::Comms(_) => MON_COMMS,
            Mon::Rf(_) => MON_RF,
            Mon::Other(m) => m.id,
        }
    }

    /// Reads the payload `p` of a MON message with id `id`.
    pub fn from_bytes(id: u8, p: &[u8]) -> (r: Result<Mon, ParseError>)
        requires
            p@.len() <= 0xffff,
        ensures
            r is Ok <==> Self::decodes(id, p@),
            r is Ok ==> r->Ok_0.wf() && r->Ok_0.spec_id() == id && r->Ok_0.spec_payload() == p@,
            r is Err ==> r->Err_0 == Self::decode_error(id),
    {
        let m = match RawMsg::from_bytes(0x0a, id, p) {
            Ok(m) => m,
            Err(e) => return Err(e),
        };
        if id == MON_IO {
            match read_io_blocks(p) {
                Ok(bs) => Ok(Mon::Io(bs)),
                Err(e) => Err(e),
            }
        } else if id == MON_RF {
            if p.len() < 4 || p.len() != 4 + 24 * (p[1] as usize) {
                return Err(ParseError::InvalidLen);
            }
            Ok(Mon::Rf(Rf::from_bytes(p)))
        } else if id == MON_MSGPP {
            Ok(Mon::Msgpp(Msgpp::from_bytes(p)))
        } else if id == MON_COMMS {
            if p.len() < 8 || p.len() != 8 + 40 * (p[1] as usize) {
                return Err(ParseError::Invalid);
            }
            Ok(Mon::Comms(Comms::from_bytes(p)))
        } else {
            Ok(Mon::Other(m))
        }
    }

    /// Appends the message as it stands in a class body: id, little-endian
    /// length, payload.
    pub fn write_bytes(&self, out: &mut Vec<u8>)
        requires
            self.spec_payload().len() <= 0xffff,
        ensures
            final(out)@ == old(out)@ + crate::classes::class_record(self.spec_id(), self.spec_payload()),
    {
        let mut p: Vec<u8> = Vec::new();
        self.write_payload(&mut p);
        proof {
            assert(p@ =~= self.spec_payload());
        }
        crate::classes::write_record(self.id(), p.as_slice(), out);
    }
    /// Appends the payload.
    pub fn write_payload(&self, out: &mut Vec<u8>)
        ensures
            final(out)@ == old(out)@ + self.spec_payload(),
    {
        match self {
            Mon::Io(bs) => write_io_blocks(bs, out),
            Mon::Msgpp(x) => x.write_bytes(out),
            Mon::Comms(c) => c.write_bytes(out),
            Mon::Rf(x) => x.write_bytes(out),
            Mon::Other(m) => write_all(m.payload.as_slice(), out),
        }
    }
}

} // verus!
