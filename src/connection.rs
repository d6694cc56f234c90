//! The envelope between hub nodes: a 4-byte little-endian length, then that
//! many bytes. `MessageStream` cuts envelopes out of the bytes a transport
//! delivers; `MessageSink` lays a payload out as an envelope and tracks how
//! much of it the transport has taken.
use vstd::prelude::*;

use crate::parse::{le32, read_u32, u32_bytes, write_all, write_u32, ParseError};

verus! {

/// The envelope that carries `x`.
pub open spec fn envelope(x: Seq<u8>) -> Seq<u8> {
    u32_bytes(x.len()) + x
}

/// The envelopes of `xs`, one after another.
pub open spec fn envelopes(xs: Seq<Seq<u8>>) -> Seq<u8>
    decreases xs.len(),
{
    if xs.len() == 0 {
        Seq::empty()
    } else {
        envelope(xs[0]) + envelopes(xs.drop_first())
    }
}

/// `s` starts with a whole envelope.
pub open spec fn complete_envelope(s: Seq<u8>) -> bool {
    s.len() >= 4 && s.len() >= 4 + le32(s, 0)
}

/// Payload of the envelope at the start of `s`.
pub open spec fn envelope_body(s: Seq<u8>) -> Seq<u8> {
    s.subrange(4, 4 + le32(s, 0) as int)
}

/// What follows the envelope at the start of `s`.
pub open spec fn envelope_rest(s: Seq<u8>) -> Seq<u8> {
    s.subrange(4 + le32(s, 0) as int, s.len() as int)
}

/// The payloads of all whole envelopes at the start of `s`, in order.
pub open spec fn decode_envelopes(s: Seq<u8>) -> Seq<Seq<u8>>
    decreases s.len(),
{
    if complete_envelope(s) {
        seq![envelope_body(s)] + decode_envelopes(envelope_rest(s))
    } else {
        Seq::empty()
    }
}

/// All payloads fit the 32-bit length.
pub open spec fn all_fit(xs: Seq<Seq<u8>>) -> bool {
    forall|i: int| 0 <= i < xs.len() ==> (#[trigger] xs[i]).len() < 0x1_0000_0000
}

/// An envelope followed by anything reads as its payload, then the rest.
pub proof fn lemma_envelope_read(x: Seq<u8>, rest: Seq<u8>)
    requires
        x.len() < 0x1_0000_0000,
    ensures
        complete_envelope(envelope(x) + rest),
        envelope_body(envelope(x) + rest) == x,
        envelope_rest(envelope(x) + rest) == rest,
{
    let s = envelope(x) + rest;
    crate::parse::lemma_le32_of_bytes(x.len(), Seq::empty(), x + rest);
    assert(Seq::<u8>::empty() + u32_bytes(x.len()) + (x + rest) =~= s);
    assert(envelope_body(s) =~= x);
    assert(envelope_rest(s) =~= rest);
}

/// Envelope law: reading the envelopes written for `xs` gives back `xs`.
pub proof fn lemma_envelopes_round_trip(xs: Seq<Seq<u8>>)
    requires
        all_fit(xs),
    ensures
        decode_envelopes(envelopes(xs)) == xs,
    decreases xs.len(),
{
    if xs.len() == 0 {
        assert(!complete_envelope(Seq::<u8>::empty()));
        assert(decode_envelopes(envelopes(xs)) =~= xs);
    } else {
        let tail = xs.drop_first();
        assert(all_fit(tail)) by {
            assert forall|i: int| 0 <= i < tail.len() implies (#[trigger] tail[i]).len()
                < 0x1_0000_0000 by {
                assert(tail[i] == xs[i + 1]);
            }
        }
        assert(xs[0].len() < 0x1_0000_0000);
        lemma_envelope_read(xs[0], envelopes(tail));
        lemma_envelopes_round_trip(tail);
        assert(decode_envelopes(envelopes(xs)) =~= xs);
    }
}

/// Cuts envelopes out of the bytes read from `source`.
pub struct MessageStream<T> {
    /// Length of the envelope whose header has been taken off `buffer`.
    pub pending: Option<u32>,
    /// Bytes received and not yet handed out.
    pub buffer: Vec<u8>,
    pub source: T,
}

impl<T> MessageStream<T> {
    /// The received bytes not yet handed out, the taken header included.
    pub open spec fn unread(&self) -> Seq<u8> {
        match self.pending {
            Some(n) => u32_bytes(n as nat) + self.buffer@,
            None => self.buffer@,
        }
    }

    pub fn new(t: T) -> (r: Self)
        ensures
            r.unread() == Seq::<u8>::empty(),
            r.source == t,
    {
        MessageStream { pending: None, buffer: Vec::new(), source: t }
    }

    /// Takes in bytes that the transport delivered.
    pub fn push_bytes(&mut self, data: &[u8])
        ensures
            final(self).unread() == old(self).unread() + data@,
            final(self).source == old(self).source,
    {
        write_all(data, &mut self.buffer);
        proof {
            assert(final(self).unread() =~= old(self).unread() + data@);
        }
    }

    /// Hands out the next whole payload, or `None` when more bytes are needed.
    pub fn next_message(&mut self) -> (r: Option<Vec<u8>>)
        ensures
            r is Some <==> complete_envelope(old(self).unread()),
            r is Some ==> r->Some_0@ == envelope_body(old(self).unread()) && final(self).unread()
                == envelope_rest(old(self).unread()),
            r is None ==> final(self).unread() == old(self).unread(),
            final(self).source == old(self).source,
    {
        let ghost u = self.unread();
        if self.pending.is_none() && self.buffer.len() >= 4 {
            let len = read_u32(self.buffer.as_slice(), 0);
            let rest = self.buffer.split_off(4);
            proof {
                crate::parse::lemma_u32_bytes_of_le32(u, 0);
            }
            self.buffer = rest;
            self.pending = Some(len);
            proof {
                assert(self.unread() =~= u);
            }
        }
        match self.pending {
            Some(n) => {
                let ghost u2 = self.unread();
                proof {
                    crate::parse::lemma_le32_of_bytes(n as nat, Seq::empty(), self.buffer@);
                    assert(Seq::<u8>::empty() + u32_bytes(n as nat) + self.buffer@ =~= u2);
                }
                if self.buffer.len() >= n as usize {
                    let mut res = self.buffer.split_off(n as usize);
                    std::mem::swap(&mut res, &mut self.buffer);
                    self.pending = None;
                    proof {
                        assert(res@ =~= envelope_body(u));
                        assert(self.unread() =~= envelope_rest(u));
                    }
                    Some(res)
                } else {
                    None
                }
            },
            None => None,
        }
    }
}

/// Progress of a `MessageSink` through the envelope it is sending.
pub enum WriteState {
    Ready,
    WritingLength { written: usize, data: Vec<u8> },
    WritingData { written: usize, data: Vec<u8> },
}

/// Lays payloads out as envelopes for `source` to carry.
pub struct MessageSink<T> {
    pub state: WriteState,
    pub source: T,
}

impl<T> MessageSink<T> {
    /// The state is consistent: counts stay within what they count.
    pub open spec fn wf(&self) -> bool {
        match self.state {
            WriteState::Ready => true,
            WriteState::WritingLength { written, data } => written < 4 && data@.len()
                < 0x1_0000_0000,
            WriteState::WritingData { written, data } => written < data@.len(),
        }
    }

    /// Bytes of the current envelope that the transport has not taken yet.
    pub open spec fn outstanding(&self) -> Seq<u8> {
        match self.state {
            WriteState::Ready => Seq::empty(),
            WriteState::WritingLength { written, data } => envelope(data@).subrange(
                written as int,
                envelope(data@).len() as int,
            ),
            WriteState::WritingData { written, data } => data@.subrange(
                written as int,
                data@.len() as int,
            ),
        }
    }

    pub fn new(t: T) -> (r: Self)
        ensures
            r.wf(),
            r.state is Ready,
            r.source == t,
    {
        MessageSink { state: WriteState::Ready, source: t }
    }

    /// Whether the previous envelope has been taken whole, so a new one may start.
    pub fn is_ready(&self) -> (r: bool)
        ensures
            r == (self.state is Ready),
    {
        match self.state {
            WriteState::Ready => true,
            _ => false,
        }
    }

    /// Starts sending `item`; a payload too long for the 32-bit length is refused.
    pub fn start_send(&mut self, item: Vec<u8>) -> (r: Result<(), ParseError>)
        requires
            old(self).state is Ready,
        ensures
            r is Ok <==> item@.len() < 0x1_0000_0000,
            r is Ok ==> final(self).outstanding() == envelope(item@) && final(self).wf(),
            r is Err ==> r->Err_0 == ParseError::InvalidLen && final(self).state is Ready,
            final(self).source == old(self).source,
    {
        if item.len() as u64 > 0xffff_ffffu64 {
            return Err(ParseError::InvalidLen);
        }
        self.state = WriteState::WritingLength { written: 0, data: item };
        proof {
            let e = envelope(item@);
            assert(e.subrange(0, e.len() as int) =~= e);
        }
        Ok(())
    }

    /// The bytes to hand to the transport's next write: the rest of the
    /// length, or the rest of the payload. Empty when nothing is outstanding.
    pub fn next_chunk(&self) -> (r: Vec<u8>)
        requires
            self.wf(),
        ensures
            r@.len() > 0 <==> self.outstanding().len() > 0,
            r@.len() == self.next_chunk_len(),
            r@ == self.outstanding().subrange(0, r@.len() as int),
    {
        match &self.state {
            WriteState::Ready => Vec::new(),
            WriteState::WritingLength { written, data } => {
                let mut all: Vec<u8> = Vec::new();
                write_u32(data.len() as u32, &mut all);
                let r = all.split_off(*written);
                proof {
                    assert(r@ =~= self.outstanding().subrange(0, r@.len() as int));
                }
                r
            },
            WriteState::WritingData { written, data } => {
                let r = vstd::slice::slice_to_vec(
                    vstd::slice::slice_subrange(data.as_slice(), *written, data.len()),
                );
                proof {
                    assert(r@ =~= self.outstanding().subrange(0, r@.len() as int));
                }
                r
            },
        }
    }

    /// Records that the transport took `n` bytes of the last chunk.
    pub fn advance(&mut self, n: usize)
        requires
            old(self).wf(),
            n <= old(self).next_chunk_len(),
        ensures
            final(self).wf(),
            final(self).outstanding() == old(self).outstanding().subrange(
                n as int,
                old(self).outstanding().len() as int,
            ),
            final(self).source == old(self).source,
    {
        let ghost o = self.outstanding();
        let mut state = WriteState::Ready;
        std::mem::swap(&mut state, &mut self.state);
        match state {
            WriteState::Ready => {
                proof {
                    assert(o.subrange(n as int, o.len() as int) =~= Seq::<u8>::empty());
                }
            },
            WriteState::WritingLength { written, data } => {
                let w = written + n;
                if w >= 4 {
                    if data.len() == 0 {
                        self.state = WriteState::Ready;
                    } else {
                        self.state = WriteState::WritingData { written: 0, data };
                    }
                } else {
                    self.state = WriteState::WritingLength { written: w, data };
                }
                proof {
                    assert(self.outstanding() =~= o.subrange(n as int, o.len() as int));
                }
            },
            WriteState::WritingData { written, data } => {
                let _l = data.len();
                let w = written + n;
                if w >= data.len() {
                    self.state = WriteState::Ready;
                } else {
                    self.state = WriteState::WritingData { written: w, data };
                }
                proof {
                    assert(self.outstanding() =~= o.subrange(n as int, o.len() as int));
                }
            },
        }
    }

    /// Length of the chunk that `next_chunk` returns.
    pub open spec fn next_chunk_len(&self) -> nat {
        match self.state {
            WriteState::Ready => 0,
            WriteState::WritingLength { written, .. } => (4 - written) as nat,
            WriteState::WritingData { written, data } => (data@.len() - written) as nat,
        }
    }
}

/// The envelope for `data`, as `Connection::write_message` sends it.
pub fn frame_message(data: &[u8]) -> (r: Result<Vec<u8>, ParseError>)
    ensures
        r is Ok <==> data@.len() < 0x1_0000_0000,
        r is Ok ==> r->Ok_0@ == envelope(data@),
        r is Err ==> r->Err_0 == ParseError::InvalidLen,
{
    if data.len() as u64 > 0xffff_ffffu64 {
        return Err(ParseError::InvalidLen);
    }
    let mut out: Vec<u8> = Vec::new();
    write_u32(data.len() as u32, &mut out);
    write_all(data, &mut out);
    proof {
        assert(out@ =~= envelope(data@));
    }
    Ok(out)
}

} // verus!
