//! Client-side packet framing: the 4-byte header put in front of each
//! payload sent to the server.

use vstd::prelude::*;
use crate::readvalue;
use crate::readvalue::le_bytes;

verus! {

/// Frame a payload: 3 little-endian length bytes, then the sequence id.
pub fn pack_header(payload: &[u8], seq: u8) -> (r: Vec<u8>)
    requires
        payload@.len() < 0x100_0000,
    ensures
        r@.len() == 4,
        le_bytes(r@.subrange(0, 3)) == payload@.len(),
        r@[3] == seq,
{
    let mut r = readvalue::write_u24(payload.len() as u32);
    let ghost lenbytes = r@;
    r.push(seq);
    proof {
        assert(r@.subrange(0, 3) =~= lenbytes);
    }
    r
}

} // verus!
