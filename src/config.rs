//! The configuration transaction: VALSET and VALGET requests sent in chunks
//! of at most 64 entries, each answered before the next is sent.
use vstd::prelude::*;

use crate::cfg::{
    keys_bytes, values_bytes, value_size, Layer, Value, CFG_VALGET, CFG_VALSET,
};
use crate::message::{stored_payload, ubx_accepts, CLASS_ACK, CLASS_CFG};
use crate::msg::GpsMsg;
use crate::parse::{u32_bytes, write_all, write_u32};
use crate::ubx::{ubx_frame, ubx_payload, ubx_prefix, write_frame};

verus! {

/// Most entries one request carries.
pub const CHUNK: usize = 64;

/// What an ACK-class message in `b` says: `(acknowledged, class, id)`.
pub open spec fn ack_of(b: Seq<u8>) -> Option<(bool, u8, u8)> {
    if ubx_prefix(b) && ubx_accepts(b) && b[2] == CLASS_ACK && (b[3] == 0x01 || b[3] == 0x00) {
        Some((b[3] == 0x01, b[6], b[7]))
    } else {
        None
    }
}

/// Reads `b` as an acknowledgement, if it is one.
pub fn classify_ack(b: &[u8]) -> (r: Option<(bool, u8, u8)>)
    ensures
        r == ack_of(b@),
{
    match GpsMsg::parse_read(b) {
        Ok((GpsMsg::Ubx(crate::message::Ubx::Ack(a)), _)) => {
            match a {
                crate::classes::Ack::Ack(d) => Some((true, d.cls_id, d.msg_id)),
                crate::classes::Ack::Nak(d) => Some((false, d.cls_id, d.msg_id)),
                _ => None,
            }
        },
        _ => None,
    }
}

/// Where a transaction stands.
#[derive(Debug, Clone, Copy, PartialEq, Eq, Structural)]
pub enum TxnState {
    /// No request is waiting for an answer.
    Idle,
    /// A request for `(cls, id)` waits for its acknowledgement.
    Awaiting { cls: u8, id: u8 },
    /// The device refused a request, or the connection closed while waiting.
    Failed,
}

/// The state after message `b` arrives: the first ACK or NAK for the awaited
/// pair decides; all other traffic leaves the state as it is.
pub open spec fn correlate(s: TxnState, b: Seq<u8>) -> TxnState {
    match s {
        TxnState::Awaiting { cls, id } => {
            if ack_of(b) == Some((true, cls, id)) {
                TxnState::Idle
            } else if ack_of(b) == Some((false, cls, id)) {
                TxnState::Failed
            } else {
                s
            }
        },
        _ => s,
    }
}

/// The state after all of `msgs` arrive, in order.
pub open spec fn correlate_all(s: TxnState, msgs: Seq<Seq<u8>>) -> TxnState
    decreases msgs.len(),
{
    if msgs.len() == 0 {
        s
    } else {
        correlate_all(correlate(s, msgs[0]), msgs.drop_first())
    }
}

/// `b` is an ACK or a NAK for `(cls, id)`.
pub open spec fn answers(b: Seq<u8>, cls: u8, id: u8) -> bool {
    ack_of(b) == Some((true, cls, id)) || ack_of(b) == Some((false, cls, id))
}

/// Among `msgs`, the first ACK or NAK for `(cls, id)` is an ACK.
pub open spec fn first_answer_is_ack(msgs: Seq<Seq<u8>>, cls: u8, id: u8) -> bool {
    exists|i: int|
        0 <= i < msgs.len() && ack_of(#[trigger] msgs[i]) == Some((true, cls, id)) && forall|j: int|
            0 <= j < i ==> !answers(#[trigger] msgs[j], cls, id)
}

/// ACK correlation: a request awaiting `(cls, id)` completes on the messages
/// `msgs` (all that arrive before the connection closes) exactly when the
/// first ACK or NAK for that pair among them is an ACK; other traffic never
/// completes it.
pub proof fn lemma_ack_correlation(cls: u8, id: u8, msgs: Seq<Seq<u8>>)
    ensures
        (correlate_all(TxnState::Awaiting { cls, id }, msgs) == TxnState::Idle)
            <==> first_answer_is_ack(msgs, cls, id),
    decreases msgs.len(),
{
    let s = TxnState::Awaiting { cls, id };
    if msgs.len() == 0 {
    } else {
        let b = msgs[0];
        let tail = msgs.drop_first();
        if ack_of(b) == Some((true, cls, id)) {
            assert(correlate_all(TxnState::Idle, tail) == TxnState::Idle) by {
                lemma_idle_stays(tail);
            }
            assert(first_answer_is_ack(msgs, cls, id)) by {
                assert(ack_of(msgs[0]) == Some((true, cls, id)));
            }
        } else if ack_of(b) == Some((false, cls, id)) {
            lemma_failed_stays(tail);
            if first_answer_is_ack(msgs, cls, id) {
                let i = choose|i: int|
                    0 <= i < msgs.len() && ack_of(#[trigger] msgs[i]) == Some((true, cls, id))
                        && forall|j: int| 0 <= j < i ==> !answers(#[trigger] msgs[j], cls, id);
                if i > 0 {
                    assert(!answers(msgs[0], cls, id));
                }
            }
        } else {
            lemma_ack_correlation(cls, id, tail);
            if first_answer_is_ack(msgs, cls, id) {
                let i = choose|i: int|
                    0 <= i < msgs.len() && ack_of(#[trigger] msgs[i]) == Some((true, cls, id))
                        && forall|j: int| 0 <= j < i ==> !answers(#[trigger] msgs[j], cls, id);
                assert(i > 0);
                assert(tail[i - 1] == msgs[i]);
                assert forall|j: int| 0 <= j < i - 1 implies !answers(#[trigger] tail[j], cls, id) by {
                    assert(tail[j] == msgs[j + 1]);
                }
            }
            if first_answer_is_ack(tail, cls, id) {
                let i = choose|i: int|
                    0 <= i < tail.len() && ack_of(#[trigger] tail[i]) == Some((true, cls, id))
                        && forall|j: int| 0 <= j < i ==> !answers(#[trigger] tail[j], cls, id);
                assert(msgs[i + 1] == tail[i]);
                assert forall|j: int| 0 <= j < i + 1 implies !answers(#[trigger] msgs[j], cls, id) by {
                    if j > 0 {
                        assert(msgs[j] == tail[j - 1]);
                    }
                }
            }
        }
    }
}

proof fn lemma_idle_stays(msgs: Seq<Seq<u8>>)
    ensures
        correlate_all(TxnState::Idle, msgs) == TxnState::Idle,
    decreases msgs.len(),
{
    if msgs.len() > 0 {
        lemma_idle_stays(msgs.drop_first());
    }
}

proof fn lemma_failed_stays(msgs: Seq<Seq<u8>>)
    ensures
        correlate_all(TxnState::Failed, msgs) == TxnState::Failed,
    decreases msgs.len(),
{
    if msgs.len() > 0 {
        lemma_failed_stays(msgs.drop_first());
    }
}

/// Payload of a VALSET that writes `vs` to the layers in `layers`.
pub open spec fn valset_payload(layers: u8, vs: Seq<Value>) -> Seq<u8> {
    seq![0u8, layers, 0u8, 0u8] + values_bytes(vs)
}

/// Payload of a VALGET request for `ks` from `layer`.
pub open spec fn valget_payload(layer: Layer, ks: Seq<u32>) -> Seq<u8> {
    seq![0u8, layer.spec_to_u8(), 0u8, 0u8] + keys_bytes(ks)
}

/// End of the chunk that starts at `sent`.
pub open spec fn chunk_end(sent: nat, len: nat) -> nat {
    if sent + (CHUNK as nat) < len {
        sent + (CHUNK as nat)
    } else {
        len
    }
}

pub proof fn lemma_values_bytes_len(vs: Seq<Value>)
    requires
        forall|i: int| 0 <= i < vs.len() ==> (#[trigger] vs[i]).wf(),
    ensures
        values_bytes(vs).len() <= 12 * vs.len(),
    decreases vs.len(),
{
    if vs.len() > 0 {
        let init = vs.drop_last();
        assert forall|i: int| 0 <= i < init.len() implies (#[trigger] init[i]).wf() by {
            assert(init[i] == vs[i]);
        }
        lemma_values_bytes_len(init);
        assert(vs.last().wf());
        assert(vs[vs.len() - 1].wf());
    }
}

/// Appends the records of `vs[a..b]`.
pub fn write_values_range(vs: &Vec<Value>, a: usize, b: usize, out: &mut Vec<u8>)
    requires
        a <= b <= vs@.len(),
    ensures
        final(out)@ == old(out)@ + values_bytes(vs@.subrange(a as int, b as int)),
{
    let mut i: usize = a;
    proof {
        assert(vs@.subrange(a as int, a as int) =~= Seq::<Value>::empty());
        assert(out@ =~= old(out)@ + values_bytes(vs@.subrange(a as int, i as int)));
    }
    while i < b
        invariant
            a <= i <= b <= vs@.len(),
            out@ == old(out)@ + values_bytes(vs@.subrange(a as int, i as int)),
        decreases b - i,
    {
        write_u32(vs[i].key, out);
        write_all(vs[i].data.as_slice(), out);
        proof {
            assert(vs@.subrange(a as int, i + 1).drop_last() =~= vs@.subrange(a as int, i as int));
        }
        i += 1;
        proof {
            assert(out@ =~= old(out)@ + values_bytes(vs@.subrange(a as int, i as int)));
        }
    }
}

/// Appends the encodings of `ks[a..b]`.
pub fn write_keys_range(ks: &Vec<u32>, a: usize, b: usize, out: &mut Vec<u8>)
    requires
        a <= b <= ks@.len(),
    ensures
        final(out)@ == old(out)@ + keys_bytes(ks@.subrange(a as int, b as int)),
{
    let mut i: usize = a;
    proof {
        assert(ks@.subrange(a as int, a as int) =~= Seq::<u32>::empty());
        assert(out@ =~= old(out)@ + keys_bytes(ks@.subrange(a as int, i as int)));
    }
    while i < b
        invariant
            a <= i <= b <= ks@.len(),
            out@ == old(out)@ + keys_bytes(ks@.subrange(a as int, i as int)),
        decreases b - i,
    {
        write_u32(ks[i], out);
        proof {
            assert(ks@.subrange(a as int, i + 1).drop_last() =~= ks@.subrange(a as int, i as int));
        }
        i += 1;
        proof {
            assert(out@ =~= old(out)@ + keys_bytes(ks@.subrange(a as int, i as int)));
        }
    }
}

/// Writing a list of configuration values to the device, a chunk at a time.
pub struct SetTransaction {
    pub values: Vec<Value>,
    /// Set of `BitLayer` bits to write to.
    pub layers: u8,
    /// Number of values already sent.
    pub sent: usize,
    pub state: TxnState,
}

impl SetTransaction {
    pub open spec fn wf(&self) -> bool {
        &&& forall|i: int| 0 <= i < self.values@.len() ==> (#[trigger] self.values@[i]).wf()
        &&& self.sent <= self.values@.len()
        &&& (self.state is Awaiting ==> self.state == TxnState::Awaiting {
            cls: CLASS_CFG,
            id: CFG_VALSET,
        })
    }

    pub fn new(values: Vec<Value>, layers: u8) -> (r: SetTransaction)
        requires
            forall|i: int| 0 <= i < values@.len() ==> (#[trigger] values@[i]).wf(),
        ensures
            r.wf(),
            r.values == values,
            r.layers == layers,
            r.sent == 0,
            r.state == TxnState::Idle,
    {
        SetTransaction { values, layers, sent: 0, state: TxnState::Idle }
    }

    /// Every value was sent and acknowledged.
    pub fn is_done(&self) -> (r: bool)
        ensures
            r == (self.state == TxnState::Idle && self.sent == self.values@.len()),
    {
        self.state == TxnState::Idle && self.sent == self.values.len()
    }

    /// The VALSET frame for the next chunk, which then awaits its ACK; `None`
    /// while a request waits, after a failure, and once every value has been sent.
    pub fn next_request(&mut self) -> (r: Option<Vec<u8>>)
        requires
            old(self).wf(),
        ensures
            final(self).wf(),
            final(self).values == old(self).values,
            final(self).layers == old(self).layers,
            (old(self).state != TxnState::Idle || old(self).sent == old(self).values@.len()) ==> r
                is None && *final(self) == *old(self),
            old(self).state == TxnState::Idle && old(self).sent < old(self).values@.len() ==> ({
                let end = chunk_end(old(self).sent as nat, old(self).values@.len());
                &&& r is Some
                &&& r->Some_0@ == ubx_frame(
                    CLASS_CFG,
                    CFG_VALSET,
                    valset_payload(
                        old(self).layers,
                        old(self).values@.subrange(old(self).sent as int, end as int),
                    ),
                )
                &&& final(self).sent == end
                &&& final(self).state == TxnState::Awaiting { cls: CLASS_CFG, id: CFG_VALSET }
            }),
    {
        if self.state != TxnState::Idle || self.sent == self.values.len() {
            return None;
        }
        let end = if self.values.len() - self.sent > CHUNK {
            self.sent + CHUNK
        } else {
            self.values.len()
        };
        let mut payload: Vec<u8> = Vec::new();
        payload.push(0);
        payload.push(self.layers);
        payload.push(0);
        payload.push(0);
        write_values_range(&self.values, self.sent, end, &mut payload);
        proof {
            let chunk = self.values@.subrange(self.sent as int, end as int);
            assert forall|i: int| 0 <= i < chunk.len() implies (#[trigger] chunk[i]).wf() by {
                assert(chunk[i] == self.values@[self.sent + i]);
            }
            lemma_values_bytes_len(chunk);
            assert(payload@ =~= valset_payload(self.layers, chunk));
        }
        let mut frame: Vec<u8> = Vec::new();
        write_frame(CLASS_CFG, CFG_VALSET, payload.as_slice(), &mut frame);
        proof {
            assert(frame@ =~= ubx_frame(CLASS_CFG, CFG_VALSET, payload@));
        }
        self.sent = end;
        self.state = TxnState::Awaiting { cls: CLASS_CFG, id: CFG_VALSET };
        Some(frame)
    }

    /// Takes a message from the device: an ACK for VALSET lets the next chunk
    /// go, a NAK fails the transaction, anything else changes nothing.
    pub fn on_message(&mut self, b: &[u8]) -> (r: TxnState)
        requires
            old(self).wf(),
        ensures
            final(self).wf(),
            final(self).state == correlate(old(self).state, b@),
            r == final(self).state,
            final(self).values == old(self).values,
            final(self).layers == old(self).layers,
            final(self).sent == old(self).sent,
    {
        match self.state {
            TxnState::Awaiting { cls, id } => {
                match classify_ack(b) {
                    Some((ok, c, i)) => {
                        if c == cls && i == id {
                            self.state = if ok {
                                TxnState::Idle
                            } else {
                                TxnState::Failed
                            };
                        }
                    },
                    None => {},
                }
            },
            _ => {},
        }
        self.state
    }

    /// The connection closed: a request still waiting fails.
    pub fn on_close(&mut self)
        requires
            old(self).wf(),
        ensures
            final(self).wf(),
            final(self).state == (if old(self).state is Awaiting {
                TxnState::Failed
            } else {
                old(self).state
            }),
            final(self).sent == old(self).sent,
            final(self).values == old(self).values,
    {
        if let TxnState::Awaiting { .. } = self.state {
            self.state = TxnState::Failed;
        }
    }
}

/// `b` is the device's answer to a VALGET request.
pub open spec fn valget_response(b: Seq<u8>) -> bool {
    &&& ubx_prefix(b)
    &&& ubx_accepts(b)
    &&& b[2] == CLASS_CFG
    &&& b[3] == CFG_VALGET
    &&& ubx_payload(b)[0] == 1
}

/// The state of a VALGET transaction after message `b`: the answer completes
/// the request, a NAK for VALGET fails it, anything else changes nothing.
pub open spec fn get_step(s: TxnState, b: Seq<u8>) -> TxnState {
    match s {
        TxnState::Awaiting { cls, id } => {
            if valget_response(b) {
                TxnState::Idle
            } else if ack_of(b) == Some((false, cls, id)) {
                TxnState::Failed
            } else {
                s
            }
        },
        _ => s,
    }
}

/// Reading a list of configuration values from the device, a chunk at a time.
pub struct GetTransaction {
    pub keys: Vec<u32>,
    pub layer: Layer,
    /// Number of keys already asked for.
    pub sent: usize,
    pub state: TxnState,
}

impl GetTransaction {
    pub open spec fn wf(&self) -> bool {
        &&& self.sent <= self.keys@.len()
        &&& (self.state is Awaiting ==> self.state == TxnState::Awaiting {
            cls: CLASS_CFG,
            id: CFG_VALGET,
        })
    }

    pub fn new(keys: Vec<u32>, layer: Layer) -> (r: GetTransaction)
        ensures
            r.wf(),
            r.keys == keys,
            r.layer == layer,
            r.sent == 0,
            r.state == TxnState::Idle,
    {
        GetTransaction { keys, layer, sent: 0, state: TxnState::Idle }
    }

    /// Every key was asked for and answered.
    pub fn is_done(&self) -> (r: bool)
        ensures
            r == (self.state == TxnState::Idle && self.sent == self.keys@.len()),
    {
        self.state == TxnState::Idle && self.sent == self.keys.len()
    }

    /// The VALGET request for the next chunk of keys, which then awaits its
    /// answer; `None` while a request waits, after a failure, and once every
    /// key has been asked for.
    pub fn next_request(&mut self) -> (r: Option<Vec<u8>>)
        requires
            old(self).wf(),
        ensures
            final(self).wf(),
            final(self).keys == old(self).keys,
            final(self).layer == old(self).layer,
            (old(self).state != TxnState::Idle || old(self).sent == old(self).keys@.len()) ==> r
                is None && *final(self) == *old(self),
            old(self).state == TxnState::Idle && old(self).sent < old(self).keys@.len() ==> ({
                let end = chunk_end(old(self).sent as nat, old(self).keys@.len());
                &&& r is Some
                &&& r->Some_0@ == ubx_frame(
                    CLASS_CFG,
                    CFG_VALGET,
                    valget_payload(
                        old(self).layer,
                        old(self).keys@.subrange(old(self).sent as int, end as int),
                    ),
                )
                &&& final(self).sent == end
                &&& final(self).state == TxnState::Awaiting { cls: CLASS_CFG, id: CFG_VALGET }
            }),
    {
        if self.state != TxnState::Idle || self.sent == self.keys.len() {
            return None;
        }
        let end = if self.keys.len() - self.sent > CHUNK {
            self.sent + CHUNK
        } else {
            self.keys.len()
        };
        let mut payload: Vec<u8> = Vec::new();
        payload.push(0);
        payload.push(self.layer.to_u8());
        payload.push(0);
        payload.push(0);
        write_keys_range(&self.keys, self.sent, end, &mut payload);
        proof {
            let chunk = self.keys@.subrange(self.sent as int, end as int);
            crate::cfg::lemma_keys_len(chunk);
            assert(payload@ =~= valget_payload(self.layer, chunk));
        }
        let mut frame: Vec<u8> = Vec::new();
        write_frame(CLASS_CFG, CFG_VALGET, payload.as_slice(), &mut frame);
        proof {
            assert(frame@ =~= ubx_frame(CLASS_CFG, CFG_VALGET, payload@));
        }
        self.sent = end;
        self.state = TxnState::Awaiting { cls: CLASS_CFG, id: CFG_VALGET };
        Some(frame)
    }

    /// Takes a message from the device; returns the values when it is the
    /// answer to the waiting request.
    pub fn on_message(&mut self, b: &[u8]) -> (r: Option<Vec<Value>>)
        requires
            old(self).wf(),
        ensures
            final(self).wf(),
            final(self).state == get_step(old(self).state, b@),
            r is Some <==> (old(self).state is Awaiting && valget_response(b@)),
            r is Some ==> values_bytes(r->Some_0@) == ubx_payload(b@).subrange(
                4,
                ubx_payload(b@).len() as int,
            ),
            final(self).keys == old(self).keys,
            final(self).sent == old(self).sent,
    {
        match self.state {
            TxnState::Awaiting { cls, id } => {
                match GpsMsg::parse_read(b) {
                    Ok((GpsMsg::Ubx(crate::message::Ubx::Cfg(crate::message::Cfg::ValGet(v))), _)) => {
                        match v {
                            crate::cfg::ValGet::Response { values, .. } => {
                                self.state = TxnState::Idle;
                                return Some(values);
                            },
                            _ => {},
                        }
                    },
                    _ => {},
                }
                match classify_ack(b) {
                    Some((ok, c, i)) => {
                        if !ok && c == cls && i == id {
                            self.state = TxnState::Failed;
                        }
                    },
                    None => {},
                }
                None
            },
            _ => None,
        }
    }

    /// The connection closed: a request still waiting fails.
    pub fn on_close(&mut self)
        requires
            old(self).wf(),
        ensures
            final(self).wf(),
            final(self).state == (if old(self).state is Awaiting {
                TxnState::Failed
            } else {
                old(self).state
            }),
            final(self).sent == old(self).sent,
            final(self).keys == old(self).keys,
    {
        if let TxnState::Awaiting { .. } = self.state {
            self.state = TxnState::Failed;
        }
    }
}

} // verus!
