//! Message substrate of a GNSS hub: codecs for UBX, RTCM3, NMEA and the
//! internal control frame, the length-prefixed envelope used between hub
//! nodes, and the decision logic of the hub, its connections and the
//! configuration transaction.
use vstd::prelude::*;

pub mod parse;
pub mod ubx;
pub mod classes;
pub mod nav;
pub mod mon;
pub mod payloads;
pub mod cfg;
pub mod message;
pub mod rtcm;
pub mod nmea;
pub mod server;
pub mod msg;
pub mod connection;
pub mod hub;
pub mod config;
pub mod outgoing;
pub mod pool;
pub mod fields;
pub mod ntrip;

verus! {

/// Dropping bytes from the front of a buffer.
pub trait VecExt: View<V = Seq<u8>> + Sized {
    /// Removes the first `by` elements, keeping the rest in order.
    fn shift(&mut self, by: usize)
        requires
            by <= old(self)@.len(),
        ensures
            final(self)@ == old(self)@.subrange(by as int, old(self)@.len() as int),
    ;
}

impl VecExt for Vec<u8> {
    fn shift(&mut self, by: usize) {
        let rest = self.split_off(by);
        *self = rest;
    }
}

} // verus!
