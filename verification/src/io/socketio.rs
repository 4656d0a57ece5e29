//! Server-side packet framing: the header in front of each packet read
//! from the wire.

use vstd::prelude::*;
use crate::readvalue;
use crate::binlog::readevent::le_at;

verus! {

/// A packet header: payload length and sequence id.
#[derive(Clone, Copy, PartialEq, Eq, Structural, Debug)]
pub struct PacketHeader {
    pub payload: u32,
    pub seq_id: u8,
}

impl PacketHeader {
    /// Decode from the first 4 bytes: a 3-byte little-endian payload
    /// length, then the sequence id.
    pub fn new(buf: &[u8]) -> (r: PacketHeader)
        requires
            buf@.len() >= 4,
        ensures
            r.payload == le_at(buf@, 0, 3),
            r.seq_id == buf@[3],
    {
        let payload = readvalue::read_u24(buf);
        PacketHeader { payload, seq_id: buf[3] }
    }
}

} // verus!
