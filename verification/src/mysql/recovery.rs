//! Crash recovery: the master position the server hands a restarted node,
//! and the position this node reports when promoted.

use vstd::prelude::*;
use crate::io::command::{spec_kv_lookup, TextRow};
use crate::mysql::ValueError;
use crate::readvalue;
use crate::readvalue::spec_parse_usize;

verus! {

/// The recovery coordinates the server sends a restarted node.
#[derive(Clone, Debug)]
pub struct RecoveryInfo {
    pub binlog: String,
    pub position: usize,
    pub gtid: String,
    pub masterhost: String,
    pub masterport: usize,
    pub read_binlog: String,
    pub read_position: usize,
}

/// Ghost model of the promoted node's reported position.
pub struct RecoveryModel {
    pub binlog: Seq<char>,
    pub position: int,
    pub gtid: Seq<char>,
}

/// The binlog position a newly promoted master reports.
#[derive(Clone, Debug)]
pub struct GetRecoveryInfo {
    pub binlog: String,
    pub position: usize,
    pub gtid: String,
}

impl View for GetRecoveryInfo {
    type V = RecoveryModel;

    open spec fn view(&self) -> RecoveryModel {
        RecoveryModel { binlog: self.binlog@, position: self.position as int, gtid: self.gtid@ }
    }
}

/// Apply one `SHOW MASTER STATUS` row to the model.
pub open spec fn spec_recovery_apply(
    m: RecoveryModel,
    row: Seq<(Seq<char>, Seq<char>)>,
) -> Option<RecoveryModel> {
    let m1 = match spec_kv_lookup(row, "File"@) {
        Some(v) => RecoveryModel { binlog: v, ..m },
        Option::None => m,
    };
    match spec_kv_lookup(row, "Position"@) {
        Some(v) => match spec_parse_usize(v) {
            Some(n) => {
                let m2 = RecoveryModel { position: n as int, ..m1 };
                match spec_kv_lookup(row, "Executed_Gtid_Set"@) {
                    Some(g) => Some(RecoveryModel { gtid: g, ..m2 }),
                    Option::None => Some(m2),
                }
            },
            Option::None => Option::None,
        },
        Option::None => match spec_kv_lookup(row, "Executed_Gtid_Set"@) {
            Some(g) => Some(RecoveryModel { gtid: g, ..m1 }),
            Option::None => Some(m1),
        },
    }
}

/// Fold the rows from index `i` on into the model.
pub open spec fn spec_recovery_fold(
    m: RecoveryModel,
    rows: Seq<Seq<(Seq<char>, Seq<char>)>>,
    i: int,
) -> Option<RecoveryModel>
    decreases rows.len() - i,
{
    if i < 0 || i >= rows.len() {
        Some(m)
    } else {
        match spec_recovery_apply(m, rows[i]) {
            Some(m2) => spec_recovery_fold(m2, rows, i + 1),
            Option::None => Option::None,
        }
    }
}

impl GetRecoveryInfo {
    /// An empty report.
    pub fn new() -> (r: GetRecoveryInfo)
        ensures
            r.binlog@.len() == 0,
            r.position == 0,
            r.gtid@.len() == 0,
    {
        GetRecoveryInfo { binlog: String::new(), position: 0, gtid: String::new() }
    }

    /// Fill the report from the `SHOW MASTER STATUS` rows, later rows
    /// overriding earlier ones.  Fails if and only if a present position
    /// does not parse.
    pub fn get_state(&mut self, result: &Vec<TextRow>) -> (r: Result<(), ValueError>)
        ensures
            ({
                let rowsm = result@.map_values(|t: TextRow| t@);
                &&& (r is Ok <==> spec_recovery_fold(old(self)@, rowsm, 0) is Some)
                &&& (r is Ok ==> spec_recovery_fold(old(self)@, rowsm, 0) == Some(final(self)@))
            }),
    {
        let ghost rowsm = result@.map_values(|t: TextRow| t@);
        let n = result.len();
        let mut i: usize = 0;
        while i < n
            invariant
                i <= n,
                n == result@.len(),
                rowsm == result@.map_values(|t: TextRow| t@),
                rowsm.len() == n,
                spec_recovery_fold(old(self)@, rowsm, 0) == spec_recovery_fold(
                    self@,
                    rowsm,
                    i as int,
                ),
            decreases n - i,
        {
            let row = &result[i];
            proof {
                assert(rowsm[i as int] == result@[i as int]@);
            }
            let key = "File".to_owned();
            if let Some(v) = row.get(&key) {
                self.binlog = v.clone();
            }
            let key = "Position".to_owned();
            if let Some(v) = row.get(&key) {
                match readvalue::parse_usize(v.as_str()) {
                    Some(p) => {
                        self.position = p;
                    },
                    None => {
                        proof {
                            assert(spec_recovery_fold(self@, rowsm, i as int) is None);
                        }
                        return Err(ValueError::NotANumber);
                    },
                }
            }
            let key = "Executed_Gtid_Set".to_owned();
            if let Some(v) = row.get(&key) {
                self.gtid = v.clone();
            }
            i = i + 1;
        }
        Ok(())
    }
}

} // verus!
