//! The internal control frame: `%` and one command byte.
use vstd::prelude::*;

use crate::parse::ParseError;

verus! {

pub const SERVER_PREFIX: u8 = 0x25;

/// A command to a hub.
#[derive(Debug, Clone, Copy, PartialEq, Eq, Structural)]
pub enum ServerMsg {
    /// Close the serial port and open it again.
    ResetPort,
    /// Leave the hub loop.
    Quit,
}

impl ServerMsg {
    pub open spec fn spec_code(self) -> u8 {
        match self {
            ServerMsg::ResetPort => 0,
            ServerMsg::Quit => 1,
        }
    }

    pub fn code(self) -> (r: u8)
        ensures
            r == self.spec_code(),
    {
        match self {
            ServerMsg::ResetPort => 0,
            ServerMsg::Quit => 1,
        }
    }
}

/// A control frame.
#[derive(Debug, Clone, Copy, PartialEq, Eq, Structural)]
pub struct Server {
    pub msg: ServerMsg,
}

impl Server {
    /// The bytes that `parse_write` produces.
    pub open spec fn spec_encode(&self) -> Seq<u8> {
        seq![SERVER_PREFIX, self.msg.spec_code()]
    }

    /// `b` starts with `%`.
    pub fn contains_prefix(b: &[u8]) -> (r: bool)
        ensures
            r == (b@.len() >= 1 && b@[0] == SERVER_PREFIX),
    {
        b.len() >= 1 && b[0] == SERVER_PREFIX
    }

    /// Length of the frame at the start of `b`: two bytes, once both are there.
    pub fn message_usage(b: &[u8]) -> (r: Option<usize>)
        ensures
            r is Some <==> (b@.len() >= 2 && b@[0] == SERVER_PREFIX),
            r is Some ==> r->Some_0 == 2,
    {
        if !Self::contains_prefix(b) {
            return None;
        }
        if b.len() < 2 {
            return None;
        }
        Some(2)
    }

    /// Reads the frame at the start of `b`, with the number of bytes it took.
    pub fn parse_read(b: &[u8]) -> (r: Result<(Server, usize), ParseError>)
        ensures
            b@.len() == 0 ==> r == Err::<(Server, usize), ParseError>(ParseError::NotEnoughData),
            b@.len() >= 1 && b@[0] != SERVER_PREFIX ==> r == Err::<(Server, usize), ParseError>(
                ParseError::Invalid,
            ),
            b@.len() == 1 && b@[0] == SERVER_PREFIX ==> r == Err::<(Server, usize), ParseError>(
                ParseError::NotEnoughData,
            ),
            b@.len() >= 2 && b@[0] == SERVER_PREFIX && b@[1] > 1 ==> r == Err::<
                (Server, usize),
                ParseError,
            >(ParseError::Invalid),
            b@.len() >= 2 && b@[0] == SERVER_PREFIX && b@[1] <= 1 ==> r is Ok,
            r is Ok ==> r->Ok_0.1 == 2 && r->Ok_0.0.spec_encode() == b@.subrange(0, 2),
    {
        if b.len() == 0 {
            return Err(ParseError::NotEnoughData);
        }
        if b[0] != SERVER_PREFIX {
            return Err(ParseError::Invalid);
        }
        if b.len() < 2 {
            return Err(ParseError::NotEnoughData);
        }
        let msg = match b[1] {
            0 => ServerMsg::ResetPort,
            1 => ServerMsg::Quit,
            _ => return Err(ParseError::Invalid),
        };
        let r = Server { msg };
        proof {
            assert(r.spec_encode() =~= b@.subrange(0, 2));
        }
        Ok((r, 2))
    }

    /// Appends the two bytes of the frame.
    pub fn parse_write(&self, out: &mut Vec<u8>)
        ensures
            final(out)@ == old(out)@ + self.spec_encode(),
    {
        out.push(SERVER_PREFIX);
        out.push(self.msg.code());
        proof {
            assert(final(out)@ =~= old(out)@ + self.spec_encode());
        }
    }
}

} // verus!
