//! The change-master request body: the new master a node should replicate
//! from.

use vstd::prelude::*;

verus! {

/// The new master's coordinates and the gtid set to purge to.
#[derive(Clone, Debug)]
pub struct ChangeMasterInfo {
    pub master_host: String,
    pub master_port: usize,
    pub gtid_set: String,
}

} // verus!
