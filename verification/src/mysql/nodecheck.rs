//! Re-check of a reportedly down node: the request sent to each agent and
//! the status it answers with.

use vstd::prelude::*;

verus! {

/// The node to re-check: its agent address and database port.
#[derive(Clone, Debug)]
pub struct DownNodeCheck {
    pub host: String,
    pub dbport: usize,
}

/// The re-check verdict for one node.
#[derive(Clone, Debug)]
pub struct DownNodeCheckStatus {
    pub host: String,
    pub client_status: bool,
    pub db_status: bool,
}

impl DownNodeCheckStatus {
    /// Both the agent and the database presumed reachable.
    pub fn new(host: String) -> (r: DownNodeCheckStatus)
        ensures
            r.host == host,
            r.client_status,
            r.db_status,
    {
        DownNodeCheckStatus { host, client_status: true, db_status: true }
    }

    /// Mark the agent unreachable.
    pub fn set_client_status(&mut self)
        ensures
            !final(self).client_status,
            final(self).host == old(self).host,
            final(self).db_status == old(self).db_status,
    {
        self.client_status = false;
    }

    /// Mark the database unreachable.
    pub fn set_db_status(&mut self)
        ensures
            !final(self).db_status,
            final(self).host == old(self).host,
            final(self).client_status == old(self).client_status,
    {
        self.db_status = false;
    }
}

} // verus!
