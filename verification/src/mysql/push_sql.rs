//! The statement batch body of a Command message.

use vstd::prelude::*;

verus! {

/// Statements to run inside one transaction.
#[derive(Clone, Debug)]
pub struct CommandSql {
    pub sqls: Vec<String>,
}

} // verus!
