//! Binlog synchronization bodies: the position asked for, and the raw
//! bytes pushed back.

use vstd::prelude::*;

verus! {

/// Which binlog range a peer asks for.
#[derive(Clone, Debug)]
pub struct SyncBinlogInfo {
    pub binlog: String,
    pub position: usize,
}

/// Raw binlog bytes in transit.
#[derive(Clone, Debug)]
pub struct BinlogValue {
    pub value: Vec<u8>,
}

impl BinlogValue {
    /// An empty byte carrier.
    pub fn new() -> (r: BinlogValue)
        ensures
            r.value@.len() == 0,
    {
        BinlogValue { value: Vec::new() }
    }
}

} // verus!
