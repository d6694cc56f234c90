//! NMEA sentences: `$`, ASCII text, `\r\n`, kept verbatim.
use vstd::prelude::*;

use crate::parse::{write_all, ParseError};

verus! {

pub const NMEA_PREAMBLE: u8 = 0x24;

/// `b[i..i + 2]` is `\r\n`.
pub open spec fn crlf_at(b: Seq<u8>, i: int) -> bool {
    0 <= i && i + 1 < b.len() && b[i] == 13 && b[i + 1] == 10
}

/// No `\r\n` starts before `k`.
pub open spec fn no_crlf_before(b: Seq<u8>, k: int) -> bool {
    forall|j: int| 0 <= j < k ==> !crlf_at(b, j)
}

/// The bytes `b[0..n]` are all ASCII.
pub open spec fn ascii_upto(b: Seq<u8>, n: int) -> bool {
    forall|j: int| 0 <= j < n ==> b[j] < 0x80
}

/// Position of the first `\r\n` in `b`, if there is one.
pub fn find_crlf(b: &[u8]) -> (r: Option<usize>)
    ensures
        r is Some ==> crlf_at(b@, r->Some_0 as int) && no_crlf_before(b@, r->Some_0 as int),
        r is None ==> no_crlf_before(b@, b@.len() as int),
{
    if b.len() < 2 {
        return None;
    }
    let mut i: usize = 0;
    while i < b.len() - 1
        invariant
            b@.len() >= 2,
            i <= b@.len() - 1,
            no_crlf_before(b@, i as int),
        decreases b@.len() - i,
    {
        if b[i] == 13 && b[i + 1] == 10 {
            return Some(i);
        }
        i += 1;
    }
    None
}

/// A sentence, from `$` up to and including the first `\r\n`.
#[derive(Debug, Clone)]
pub struct Nmea {
    pub sentence: Vec<u8>,
}

impl Nmea {
    /// A sentence that a read can produce.
    pub open spec fn wf(&self) -> bool {
        let s = self.sentence@;
        &&& s.len() >= 3
        &&& s[0] == NMEA_PREAMBLE
        &&& crlf_at(s, s.len() - 2)
        &&& no_crlf_before(s, s.len() - 2)
        &&& ascii_upto(s, s.len() as int)
    }

    /// `b` starts with `$`.
    pub fn contains_prefix(b: &[u8]) -> (r: bool)
        ensures
            r == (b@.len() >= 1 && b@[0] == NMEA_PREAMBLE),
    {
        b.len() >= 1 && b[0] == NMEA_PREAMBLE
    }

    /// Length of the sentence at the start of `b`, once its `\r\n` is there.
    pub fn message_usage(b: &[u8]) -> (r: Option<usize>)
        ensures
            r is Some <==> (b@.len() >= 1 && b@[0] == NMEA_PREAMBLE && !no_crlf_before(
                b@,
                b@.len() as int,
            )),
            r is Some ==> r->Some_0 >= 2 && crlf_at(b@, r->Some_0 - 2) && no_crlf_before(
                b@,
                r->Some_0 - 2,
            ),
    {
        if !Self::contains_prefix(b) {
            return None;
        }
        let _n = b.len();
        match find_crlf(b) {
            Some(i) => Some(i + 2),
            None => None,
        }
    }

    /// Reads the sentence at the start of `b`, with the number of bytes it took.
    pub fn parse_read(b: &[u8]) -> (r: Result<(Nmea, usize), ParseError>)
        ensures
            b@.len() == 0 ==> r == Err::<(Nmea, usize), ParseError>(ParseError::NotEnoughData),
            b@.len() >= 1 && b@[0] != NMEA_PREAMBLE ==> r == Err::<(Nmea, usize), ParseError>(
                ParseError::Invalid,
            ),
            b@.len() >= 1 && b@[0] == NMEA_PREAMBLE && no_crlf_before(b@, b@.len() as int) ==> r
                == Err::<(Nmea, usize), ParseError>(ParseError::NotEnoughData),
            r is Ok ==> ({
                let (m, n) = r->Ok_0;
                &&& m.wf()
                &&& n <= b@.len()
                &&& m.sentence@ == b@.subrange(0, n as int)
            }),
            b@.len() >= 1 && b@[0] == NMEA_PREAMBLE && !no_crlf_before(b@, b@.len() as int) ==> (
            r is Ok || r == Err::<(Nmea, usize), ParseError>(ParseError::Invalid)),
            r is Err && r->Err_0 == ParseError::Invalid && b@.len() >= 1 && b@[0]
                == NMEA_PREAMBLE ==> exists|n: int|
                crlf_at(b@, n - 2) && no_crlf_before(b@, n - 2) && !ascii_upto(b@, n),
    {
        if b.len() == 0 {
            return Err(ParseError::NotEnoughData);
        }
        if b[0] != NMEA_PREAMBLE {
            return Err(ParseError::Invalid);
        }
        let i = match find_crlf(b) {
            Some(i) => i,
            None => return Err(ParseError::NotEnoughData),
        };
        let _len = b.len();
        let n = i + 2;
        let mut j: usize = 0;
        while j < n
            invariant
                n == i + 2,
                crlf_at(b@, i as int),
                no_crlf_before(b@, i as int),
                b@.len() >= 1 && b@[0] == NMEA_PREAMBLE,
                n <= b@.len(),
                j <= n,
                ascii_upto(b@, j as int),
            decreases n - j,
        {
            if b[j] >= 0x80 {
                proof {
                    assert(!ascii_upto(b@, n as int));
                    assert(crlf_at(b@, n - 2) && no_crlf_before(b@, n - 2));
                    assert(!no_crlf_before(b@, b@.len() as int));
                }
                return Err(ParseError::Invalid);
            }
            j += 1;
        }
        let sentence = vstd::slice::slice_to_vec(vstd::slice::slice_subrange(b, 0, n));
        let m = Nmea { sentence };
        proof {
            let s = m.sentence@;
            assert(s.len() == n);
            assert(s.len() >= 3) by {
                assert(b@[0] != 13);
            }
            assert forall|k: int| 0 <= k < s.len() - 2 implies !crlf_at(s, k) by {
                assert(!crlf_at(b@, k));
            }
        }
        Ok((m, n))
    }

    /// All bytes of the sentence.
    pub fn as_bytes(&self) -> (r: &[u8])
        ensures
            r@ == self.sentence@,
    {
        self.sentence.as_slice()
    }

    /// Appends the sentence unchanged.
    pub fn parse_write(&self, out: &mut Vec<u8>)
        ensures
            final(out)@ == old(out)@ + self.sentence@,
    {
        write_all(self.sentence.as_slice(), out);
    }
}

} // verus!
