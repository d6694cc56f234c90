//! The broadcast cursor of the connection pool. Peers are named by ids the
//! pool hands out; the caller keeps the connection of each id, polls the
//! peer the cursor names, and reports whether the payload went out.
use vstd::prelude::*;

verus! {

/// The peers of a pool and the broadcast in flight, if any.
pub struct ConnectionPool {
    /// Connected peers, in the order the cursor walks them (from the back).
    pub peers: Vec<u64>,
    pub next_id: u64,
    /// Index of the next peer to send to, and the payload.
    pub send: Option<(usize, Vec<u8>)>,
    /// Peers present when the current (or last) broadcast started.
    pub snapshot: Ghost<Set<u64>>,
    /// Peers that took the current (or last) payload, in order.
    pub got: Ghost<Seq<u64>>,
}

impl ConnectionPool {
    /// Peers from index `from` on took the payload or joined after it started.
    pub open spec fn settled_from(&self, from: int) -> bool {
        forall|k: int|
            from <= k < self.peers@.len() ==> self.got@.contains(#[trigger] self.peers@[k])
                || !self.snapshot@.contains(self.peers@[k])
    }

    /// Peers up to index `upto` were there at the start and have not taken it yet.
    pub open spec fn pending_upto(&self, upto: int) -> bool {
        forall|k: int|
            0 <= k <= upto ==> self.snapshot@.contains(#[trigger] self.peers@[k])
                && !self.got@.contains(self.peers@[k])
    }

    pub open spec fn wf(&self) -> bool {
        &&& self.peers@.no_duplicates()
        &&& forall|k: int| 0 <= k < self.peers@.len() ==> #[trigger] self.peers@[k] < self.next_id
        &&& self.got@.no_duplicates()
        &&& forall|i: int| 0 <= i < self.got@.len() ==> self.snapshot@.contains(
            #[trigger] self.got@[i],
        )
        &&& forall|x: u64| self.snapshot@.contains(x) ==> x < self.next_id
        &&& match self.send {
            Some((c, _)) => c < self.peers@.len() && self.pending_upto(c as int)
                && self.settled_from(c + 1),
            None => self.settled_from(0),
        }
    }

    pub fn new() -> (r: ConnectionPool)
        ensures
            r.wf(),
            r.peers@.len() == 0,
            r.send is None,
            r.next_id == 0,
    {
        ConnectionPool {
            peers: Vec::new(),
            next_id: 0,
            send: None,
            snapshot: Ghost(Set::empty()),
            got: Ghost(Seq::empty()),
        }
    }

    /// Whether a new payload may be submitted: no broadcast is in flight.
    pub fn is_ready(&self) -> (r: bool)
        ensures
            r == (self.send is None),
    {
        self.send.is_none()
    }

    /// Adds a newly accepted peer and returns its id; `None` once ids run out.
    pub fn add_peer(&mut self) -> (r: Option<u64>)
        requires
            old(self).wf(),
        ensures
            final(self).wf(),
            final(self).send == old(self).send,
            r is None <==> old(self).next_id == u64::MAX,
            r is Some ==> r->Some_0 == old(self).next_id && final(self).next_id == old(self).next_id
                + 1,
            r is Some ==> final(self).peers@ == old(self).peers@.push(r->Some_0)
                && !old(self).peers@.contains(r->Some_0),
            r is None ==> final(self).peers@ == old(self).peers@,
    {
        if self.next_id == u64::MAX {
            return None;
        }
        let id = self.next_id;
        let ghost old_peers = self.peers@;
        self.peers.push(id);
        self.next_id = id + 1;
        proof {
            assert(!old_peers.contains(id)) by {
                if old_peers.contains(id) {
                    let k = choose|k: int| 0 <= k < old_peers.len() && old_peers[k] == id;
                    assert(old_peers[k] < id);
                }
            }
            assert forall|i: int, j: int|
                0 <= i < self.peers@.len() && 0 <= j < self.peers@.len() && i != j implies self.peers@[i]
                != self.peers@[j] by {
                if i < old_peers.len() && j < old_peers.len() {
                } else if i < old_peers.len() {
                    assert(old_peers[i] < id);
                } else {
                    assert(old_peers[j] < id);
                }
            }
            assert(!self.snapshot@.contains(id));
        }
        Some(id)
    }

    /// Starts a broadcast of `item` to every current peer; with no peers the
    /// payload is dropped.
    pub fn start_send(&mut self, item: Vec<u8>)
        requires
            old(self).wf(),
            old(self).send is None,
        ensures
            final(self).wf(),
            final(self).peers@ == old(self).peers@,
            final(self).snapshot@ == old(self).peers@.to_set(),
            final(self).got@ == Seq::<u64>::empty(),
            old(self).peers@.len() == 0 ==> final(self).send is None,
            old(self).peers@.len() > 0 ==> final(self).send == Some(
                ((old(self).peers@.len() - 1) as usize, item),
            ),
    {
        self.snapshot = Ghost(self.peers@.to_set());
        self.got = Ghost(Seq::empty());
        if self.peers.len() > 0 {
            self.send = Some((self.peers.len() - 1, item));
        }
        proof {
            assert forall|k: int| 0 <= k < self.peers@.len() implies self.snapshot@.contains(
                #[trigger] self.peers@[k],
            ) by {
                assert(self.peers@.contains(self.peers@[k]));
            }
        }
    }

    /// The peer the cursor names and the payload to offer it.
    pub fn target(&self) -> (r: Option<(u64, &Vec<u8>)>)
        requires
            self.wf(),
        ensures
            self.send is None ==> r is None,
            self.send is Some ==> r is Some && r->Some_0.0 == self.peers@[
                self.send->Some_0.0 as int] && *r->Some_0.1 == self.send->Some_0.1,
    {
        match &self.send {
            Some((c, data)) => Some((self.peers[*c], data)),
            None => None,
        }
    }

    /// Records the outcome at the cursor: `delivered` when the peer took the
    /// payload, otherwise the peer is removed. The cursor then moves down;
    /// past the first peer the broadcast is complete.
    pub fn on_ready(&mut self, delivered: bool)
        requires
            old(self).wf(),
            old(self).send is Some,
        ensures
            final(self).wf(),
            final(self).snapshot == old(self).snapshot,
            ({
                let c = old(self).send->Some_0.0 as int;
                let id = old(self).peers@[c];
                &&& delivered ==> final(self).got@ == old(self).got@.push(id) && final(self).peers@
                    == old(self).peers@
                &&& !delivered ==> final(self).got@ == old(self).got@ && final(self).peers@
                    == old(self).peers@.update(c, old(self).peers@.last()).drop_last()
                &&& c == 0 ==> final(self).send is None
                &&& c > 0 ==> final(self).send is Some && final(self).send->Some_0.0 == c - 1
                    && final(self).send->Some_0.1 == old(self).send->Some_0.1
            }),
    {
        let (c, data) = match self.send.take() {
            Some(x) => x,
            None => return,
        };
        let ghost old_peers = self.peers@;
        let ghost old_got = self.got@;
        if delivered {
            let id = self.peers[c];
            self.got = Ghost(self.got@.push(id));
            proof {
                assert forall|i: int, j: int|
                    0 <= i < self.got@.len() && 0 <= j < self.got@.len() && i != j implies self.got@[i]
                    != self.got@[j] by {
                    if i == old_got.len() as int {
                        assert(!old_got.contains(id));
                        assert(old_got[j] == self.got@[j]);
                    } else if j == old_got.len() as int {
                        assert(!old_got.contains(id));
                        assert(old_got[i] == self.got@[i]);
                    }
                }
                assert forall|k: int| 0 <= k < c implies self.snapshot@.contains(
                    #[trigger] self.peers@[k],
                ) && !self.got@.contains(self.peers@[k]) by {
                    assert(old_peers[k] != old_peers[c as int]);
                    if self.got@.contains(self.peers@[k]) {
                        let i = choose|i: int| 0 <= i < self.got@.len() && self.got@[i] == self.peers@[k];
                        if i < old_got.len() {
                            assert(old_got.contains(old_peers[k]));
                        }
                    }
                }
                assert forall|k: int| c <= k < self.peers@.len() implies self.got@.contains(
                    #[trigger] self.peers@[k],
                ) || !self.snapshot@.contains(self.peers@[k]) by {
                    if k == c as int {
                        assert(self.got@[old_got.len() as int] == id);
                    } else if old_got.contains(old_peers[k]) {
                        let i = choose|i: int| 0 <= i < old_got.len() && old_got[i] == old_peers[k];
                        assert(self.got@[i] == old_peers[k]);
                    }
                }
            }
        } else {
            self.peers.swap_remove(c);
            proof {
                let np = self.peers@;
                let last = old_peers.len() - 1;
                assert forall|i: int, j: int|
                    0 <= i < np.len() && 0 <= j < np.len() && i != j implies np[i] != np[j] by {
                    let oi = if i == c as int { last } else { i };
                    let oj = if j == c as int { last } else { j };
                    assert(np[i] == old_peers[oi]);
                    assert(np[j] == old_peers[oj]);
                }
                assert forall|k: int| 0 <= k < np.len() implies #[trigger] np[k] < self.next_id by {
                    if k == c as int {
                        assert(np[k] == old_peers[last]);
                    } else {
                        assert(np[k] == old_peers[k]);
                    }
                }
                assert forall|k: int| 0 <= k < c implies self.snapshot@.contains(
                    #[trigger] self.peers@[k],
                ) && !self.got@.contains(self.peers@[k]) by {
                    assert(np[k] == old_peers[k]);
                }
                assert forall|k: int| c <= k < np.len() implies self.got@.contains(
                    #[trigger] np[k],
                ) || !self.snapshot@.contains(np[k]) by {
                    if k == c as int {
                        assert(np[k] == old_peers[last]);
                    } else {
                        assert(np[k] == old_peers[k]);
                    }
                }
            }
        }
        if c > 0 {
            self.send = Some((c - 1, data));
        }
    }
}

impl ConnectionPool {
    /// Removes a peer whose connection failed or closed. During a broadcast
    /// the peers still to be served stay ahead of the cursor, so none is
    /// skipped and none served twice.
    pub fn remove_peer(&mut self, id: u64) -> (r: bool)
        requires
            old(self).wf(),
        ensures
            final(self).wf(),
            r == old(self).peers@.contains(id),
            final(self).peers@.to_set() == old(self).peers@.to_set().remove(id),
            final(self).send is Some ==> old(self).send is Some && final(self).send->Some_0.1
                == old(self).send->Some_0.1,
            final(self).got == old(self).got,
            final(self).snapshot == old(self).snapshot,
    {
        let ghost op = self.peers@;
        let mut idx: usize = 0;
        while idx < self.peers.len() && self.peers[idx] != id
            invariant
                self.peers@ == op,
                idx <= op.len(),
                forall|k: int| 0 <= k < idx ==> op[k] != id,
            decreases op.len() - idx,
        {
            idx += 1;
        }
        if idx == self.peers.len() {
            proof {
                assert(!op.contains(id));
                assert(op.to_set() =~= op.to_set().remove(id));
            }
            return false;
        }
        let mut cut = idx;
        let mut new_send: Option<(usize, Vec<u8>)> = None;
        let mut moved = false;
        match self.send.take() {
            Some((c, data)) => {
                if idx <= c {
                    let a = self.peers[idx];
                    let b = self.peers[c];
                    self.peers.set(idx, b);
                    self.peers.set(c, a);
                    cut = c;
                    moved = true;
                    if c > 0 {
                        new_send = Some((c - 1, data));
                    }
                } else {
                    new_send = Some((c, data));
                }
            },
            None => {},
        }
        let ghost mid = self.peers@;
        proof {
            assert(mid[cut as int] == id);
            assert(mid.no_duplicates()) by {
                assert forall|i: int, j: int|
                    0 <= i < mid.len() && 0 <= j < mid.len() && i != j implies mid[i] != mid[j] by {
                    let oi = if moved && i == idx as int { cut as int } else if moved && i == cut as int { idx as int } else { i };
                    let oj = if moved && j == idx as int { cut as int } else if moved && j == cut as int { idx as int } else { j };
                    assert(mid[i] == op[oi]);
                    assert(mid[j] == op[oj]);
                }
            }
            assert(mid.to_set() =~= op.to_set()) by {
                assert forall|x: u64| mid.to_set().contains(x) <==> op.to_set().contains(x) by {
                    if mid.contains(x) {
                        let i = choose|i: int| 0 <= i < mid.len() && mid[i] == x;
                        let oi = if moved && i == idx as int { cut as int } else if moved && i == cut as int { idx as int } else { i };
                        assert(op[oi] == x);
                    }
                    if op.contains(x) {
                        let i = choose|i: int| 0 <= i < op.len() && op[i] == x;
                        let mi = if moved && i == idx as int { cut as int } else if moved && i == cut as int { idx as int } else { i };
                        assert(mid[mi] == x);
                    }
                }
            }
        }
        self.peers.swap_remove(cut);
        self.send = new_send;
        proof {
            let np = self.peers@;
            let last = mid.len() - 1;
            let at = |k: int| if k == cut as int { last } else { k };
            assert forall|k: int| 0 <= k < np.len() implies np[k] == mid[at(k)] by {}
            assert forall|i: int, j: int|
                0 <= i < np.len() && 0 <= j < np.len() && i != j implies np[i] != np[j] by {
                assert(np[i] == mid[at(i)]);
                assert(np[j] == mid[at(j)]);
            }
            assert forall|k: int| 0 <= k < np.len() implies #[trigger] np[k] < self.next_id by {
                assert(np[k] == mid[at(k)]);
                assert(mid.contains(mid[at(k)]));
                assert(op.to_set().contains(mid[at(k)]));
            }
            assert(np.to_set() =~= op.to_set().remove(id)) by {
                assert forall|x: u64| np.to_set().contains(x) <==> op.to_set().remove(id).contains(x) by {
                    if np.contains(x) {
                        let i = choose|i: int| 0 <= i < np.len() && np[i] == x;
                        assert(np[i] == mid[at(i)]);
                        assert(at(i) != cut as int);
                        assert(mid.contains(x));
                        assert(op.to_set().contains(x));
                    }
                    if op.to_set().remove(id).contains(x) {
                        assert(mid.to_set().contains(x));
                        let i = choose|i: int| 0 <= i < mid.len() && mid[i] == x;
                        assert(i != cut as int);
                        if i == last {
                            assert(np[cut as int] == x);
                        } else {
                            assert(np[i] == x);
                        }
                    }
                }
            }
            match self.send {
                Some((c2, _)) => {
                    assert forall|k: int| 0 <= k <= c2 implies self.snapshot@.contains(
                        #[trigger] np[k],
                    ) && !self.got@.contains(np[k]) by {
                        assert(np[k] == mid[at(k)]);
                    }
                    assert forall|k: int| c2 + 1 <= k < np.len() implies self.got@.contains(
                        #[trigger] np[k],
                    ) || !self.snapshot@.contains(np[k]) by {
                        assert(np[k] == mid[at(k)]);
                    }
                },
                None => {
                    assert forall|k: int| 0 <= k < np.len() implies self.got@.contains(
                        #[trigger] np[k],
                    ) || !self.snapshot@.contains(np[k]) by {
                        assert(np[k] == mid[at(k)]);
                    }
                },
            }
        }
        true
    }
}

/// Broadcast atomicity: once a broadcast is complete, every peer that was in
/// the pool when it started and is still there took the payload, each peer
/// took it at most once, and no peer that joined later took it.
pub proof fn lemma_broadcast_atomic(p: ConnectionPool)
    requires
        p.wf(),
        p.send is None,
    ensures
        forall|x: u64| p.snapshot@.contains(x) && p.peers@.contains(x) ==> p.got@.contains(x),
        p.got@.no_duplicates(),
        forall|x: u64| p.got@.contains(x) ==> p.snapshot@.contains(x),
{
    assert forall|x: u64| p.snapshot@.contains(x) && p.peers@.contains(x) implies p.got@.contains(
        x,
    ) by {
        let k = choose|k: int| 0 <= k < p.peers@.len() && p.peers@[k] == x;
        assert(p.got@.contains(p.peers@[k]) || !p.snapshot@.contains(p.peers@[k]));
    }
    assert forall|x: u64| p.got@.contains(x) implies p.snapshot@.contains(x) by {
        let i = choose|i: int| 0 <= i < p.got@.len() && p.got@[i] == x;
    }
}

} // verus!
