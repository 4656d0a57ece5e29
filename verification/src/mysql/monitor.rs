//! Runtime status counters reported by the GetMonitor handler, decoded
//! from the `SHOW GLOBAL STATUS` name/value rows.

use vstd::prelude::*;
use crate::io::command::{spec_kv_lookup, TextRow};
use crate::mysql::ValueError;
use crate::readvalue;
use crate::readvalue::spec_parse_usize;

verus! {

/// The monitored status counters.
#[derive(Clone, Copy, PartialEq, Eq, Structural, Debug)]
pub struct MysqlMonitorStatus {
    pub com_insert: usize,
    pub com_update: usize,
    pub com_delete: usize,
    pub com_select: usize,
    pub questions: usize,
    pub innodb_row_lock_current_waits: usize,
    pub innodb_row_lock_time: usize,
    pub created_tmp_disk_tables: usize,
    pub created_tmp_tables: usize,
    pub innodb_buffer_pool_reads: usize,
    pub innodb_buffer_pool_read_requests: usize,
    pub handler_read_first: usize,
    pub handler_read_key: usize,
    pub handler_read_next: usize,
    pub handler_read_prev: usize,
    pub handler_read_rnd: usize,
    pub handler_read_rnd_next: usize,
    pub innodb_os_log_pending_fsyncs: usize,
    pub innodb_os_log_pending_writes: usize,
    pub innodb_log_waits: usize,
    pub threads_connected: usize,
    pub threads_running: usize,
    pub bytes_sent: usize,
    pub bytes_received: usize,
    pub slow_queries: usize,
    pub time: i64,
}

/// Apply one status variable to the counters; an unrecognized name leaves
/// them unchanged, a recognized name whose value does not parse fails.
pub open spec fn spec_monitor_apply(
    m: MysqlMonitorStatus,
    name: Seq<char>,
    value: Seq<char>,
) -> Option<MysqlMonitorStatus> {
    if name == "Com_insert"@ {
        match spec_parse_usize(value) {
            Some(n) => Some(MysqlMonitorStatus { com_insert: n as usize, ..m }),
            None => None,
        }
    } else if name == "Com_update"@ {
        match spec_parse_usize(value) {
            Some(n) => Some(MysqlMonitorStatus { com_update: n as usize, ..m }),
            None => None,
        }
    } else if name == "Com_delete"@ {
        match spec_parse_usize(value) {
            Some(n) => Some(MysqlMonitorStatus { com_delete: n as usize, ..m }),
            None => None,
        }
    } else if name == "Com_select"@ {
        match spec_parse_usize(value) {
            Some(n) => Some(MysqlMonitorStatus { com_select: n as usize, ..m }),
            None => None,
        }
    } else if name == "Questions"@ {
        match spec_parse_usize(value) {
            Some(n) => Some(MysqlMonitorStatus { questions: n as usize, ..m }),
            None => None,
        }
    } else if name == "Innodb_row_lock_current_waits"@ {
        match spec_parse_usize(value) {
            Some(n) => Some(MysqlMonitorStatus { innodb_row_lock_current_waits: n as usize, ..m }),
            None => None,
        }
    } else if name == "Innodb_row_lock_time"@ {
        match spec_parse_usize(value) {
            Some(n) => Some(MysqlMonitorStatus { innodb_row_lock_time: n as usize, ..m }),
            None => None,
        }
    } else if name == "Created_tmp_disk_tables"@ {
        match spec_parse_usize(value) {
            Some(n) => Some(MysqlMonitorStatus { created_tmp_disk_tables: n as usize, ..m }),
            None => None,
        }
    } else if name == "Created_tmp_tables"@ {
        match spec_parse_usize(value) {
            Some(n) => Some(MysqlMonitorStatus { created_tmp_tables: n as usize, ..m }),
            None => None,
        }
    } else if name == "Innodb_buffer_pool_reads"@ {
        match spec_parse_usize(value) {
            Some(n) => Some(MysqlMonitorStatus { innodb_buffer_pool_reads: n as usize, ..m }),
            None => None,
        }
    } else if name == "Innodb_buffer_pool_read_requests"@ {
        match spec_parse_usize(value) {
            Some(n) => Some(
                MysqlMonitorStatus { innodb_buffer_pool_read_requests: n as usize, ..m },
            ),
            None => None,
        }
    } else if name == "Handler_read_first"@ {
        match spec_parse_usize(value) {
            Some(n) => Some(MysqlMonitorStatus { handler_read_first: n as usize, ..m }),
            None => None,
        }
    } else if name == "Handler_read_key"@ {
        match spec_parse_usize(value) {
            Some(n) => Some(MysqlMonitorStatus { handler_read_key: n as usize, ..m }),
            None => None,
        }
    } else if name == "Handler_read_next"@ {
        match spec_parse_usize(value) {
            Some(n) => Some(MysqlMonitorStatus { handler_read_next: n as usize, ..m }),
            None => None,
        }
    } else if name == "Handler_read_prev"@ {
        match spec_parse_usize(value) {
            Some(n) => Some(MysqlMonitorStatus { handler_read_prev: n as usize, ..m }),
            None => None,
        }
    } else if name == "Handler_read_rnd"@ {
        match spec_parse_usize(value) {
            Some(n) => Some(MysqlMonitorStatus { handler_read_rnd: n as usize, ..m }),
            None => None,
        }
    } else if name == "Handler_read_rnd_next"@ {
        match spec_parse_usize(value) {
            Some(n) => Some(MysqlMonitorStatus { handler_read_rnd_next: n as usize, ..m }),
            None => None,
        }
    } else if name == "Innodb_os_log_pending_fsyncs"@ {
        match spec_parse_usize(value) {
            Some(n) => Some(MysqlMonitorStatus { innodb_os_log_pending_fsyncs: n as usize, ..m }),
            None => None,
        }
    } else if name == "Innodb_os_log_pending_writes"@ {
        match spec_parse_usize(value) {
            Some(n) => Some(MysqlMonitorStatus { innodb_os_log_pending_writes: n as usize, ..m }),
            None => None,
        }
    } else if name == "Innodb_log_waits"@ {
        match spec_parse_usize(value) {
            Some(n) => Some(MysqlMonitorStatus { innodb_log_waits: n as usize, ..m }),
            None => None,
        }
    } else if name == "Threads_connected"@ {
        match spec_parse_usize(value) {
            Some(n) => Some(MysqlMonitorStatus { threads_connected: n as usize, ..m }),
            None => None,
        }
    } else if name == "Threads_running"@ {
        match spec_parse_usize(value) {
            Some(n) => Some(MysqlMonitorStatus { threads_running: n as usize, ..m }),
            None => None,
        }
    } else if name == "Bytes_sent"@ {
        match spec_parse_usize(value) {
            Some(n) => Some(MysqlMonitorStatus { bytes_sent: n as usize, ..m }),
            None => None,
        }
    } else if name == "Bytes_received"@ {
        match spec_parse_usize(value) {
            Some(n) => Some(MysqlMonitorStatus { bytes_received: n as usize, ..m }),
            None => None,
        }
    } else if name == "Slow_queries"@ {
        match spec_parse_usize(value) {
            Some(n) => Some(MysqlMonitorStatus { slow_queries: n as usize, ..m }),
            None => None,
        }
    } else {
        Some(m)
    }
}

/// Fold the rows from index `i` on into the counters, row order kept.
pub open spec fn spec_monitor_fold(
    m: MysqlMonitorStatus,
    rows: Seq<Seq<(Seq<char>, Seq<char>)>>,
    i: int,
) -> Option<MysqlMonitorStatus>
    decreases rows.len() - i,
{
    if i < 0 || i >= rows.len() {
        Some(m)
    } else {
        match (spec_kv_lookup(rows[i], "Variable_name"@), spec_kv_lookup(rows[i], "Value"@)) {
            (Some(name), Some(value)) => match spec_monitor_apply(m, name, value) {
                Some(m2) => spec_monitor_fold(m2, rows, i + 1),
                None => None,
            },
            _ => None,
        }
    }
}

impl MysqlMonitorStatus {
    /// All counters zero.
    pub fn new() -> (r: MysqlMonitorStatus)
        ensures
            r == (MysqlMonitorStatus {
                com_insert: 0,
                com_update: 0,
                com_delete: 0,
                com_select: 0,
                questions: 0,
                innodb_row_lock_current_waits: 0,
                innodb_row_lock_time: 0,
                created_tmp_disk_tables: 0,
                created_tmp_tables: 0,
                innodb_buffer_pool_reads: 0,
                innodb_buffer_pool_read_requests: 0,
                handler_read_first: 0,
                handler_read_key: 0,
                handler_read_next: 0,
                handler_read_prev: 0,
                handler_read_rnd: 0,
                handler_read_rnd_next: 0,
                innodb_os_log_pending_fsyncs: 0,
                innodb_os_log_pending_writes: 0,
                innodb_log_waits: 0,
                threads_connected: 0,
                threads_running: 0,
                bytes_sent: 0,
                bytes_received: 0,
                slow_queries: 0,
                time: 0,
            }),
    {
        MysqlMonitorStatus {
            com_insert: 0,
            com_update: 0,
            com_delete: 0,
            com_select: 0,
            questions: 0,
            innodb_row_lock_current_waits: 0,
            innodb_row_lock_time: 0,
            created_tmp_disk_tables: 0,
            created_tmp_tables: 0,
            innodb_buffer_pool_reads: 0,
            innodb_buffer_pool_read_requests: 0,
            handler_read_first: 0,
            handler_read_key: 0,
            handler_read_next: 0,
            handler_read_prev: 0,
            handler_read_rnd: 0,
            handler_read_rnd_next: 0,
            innodb_os_log_pending_fsyncs: 0,
            innodb_os_log_pending_writes: 0,
            innodb_log_waits: 0,
            threads_connected: 0,
            threads_running: 0,
            bytes_sent: 0,
            bytes_received: 0,
            slow_queries: 0,
            time: 0,
        }
    }

    /// Fold every `SHOW GLOBAL STATUS` row into the counters, stamping the
    /// record with `now`.  Requires each row to carry the name and value
    /// columns; fails if and only if a recognized counter's value does not
    /// parse.
    #[verifier::rlimit(100)]
    pub fn parse_value(&mut self, result: &Vec<TextRow>, now: i64) -> (r: Result<
        (),
        ValueError,
    >)
        requires
            forall|i: int|
                0 <= i < result@.len() ==> spec_kv_lookup(
                    (#[trigger] result@[i])@,
                    "Variable_name"@,
                ) is Some && spec_kv_lookup(result@[i]@, "Value"@) is Some,
        ensures
            ({
                let rowsm = result@.map_values(|t: TextRow| t@);
                let m0 = MysqlMonitorStatus { time: now, ..*old(self) };
                &&& (r is Ok <==> spec_monitor_fold(m0, rowsm, 0) is Some)
                &&& (r is Ok ==> spec_monitor_fold(m0, rowsm, 0) == Some(*final(self)))
            }),
    {
        let ghost rowsm = result@.map_values(|t: TextRow| t@);
        self.time = now;
        let n = result.len();
        let mut i: usize = 0;
        while i < n
            invariant
                i <= n,
                n == result@.len(),
                rowsm == result@.map_values(|t: TextRow| t@),
                rowsm.len() == n,
                forall|k: int|
                    0 <= k < n ==> spec_kv_lookup((#[trigger] result@[k])@, "Variable_name"@)
                        is Some && spec_kv_lookup(result@[k]@, "Value"@) is Some,
                spec_monitor_fold(
                    MysqlMonitorStatus { time: now, ..*old(self) },
                    rowsm,
                    0,
                ) == spec_monitor_fold(*self, rowsm, i as int),
            decreases n - i,
        {
            let ghost mcur = *self;
            let row = &result[i];
            proof {
                assert(rowsm[i as int] == result@[i as int]@);
            }
            let name_key = "Variable_name".to_owned();
            let value_key = "Value".to_owned();
            let var_name = match row.get(&name_key) {
                Some(v) => v,
                None => {
                    proof {
                        assert(false);
                    }
                    return Err(ValueError::NotANumber);
                },
            };
            let value = match row.get(&value_key) {
                Some(v) => v,
                None => {
                    proof {
                        assert(false);
                    }
                    return Err(ValueError::NotANumber);
                },
            };
            let applied = monitor_apply(self, var_name, value);
            match applied {
                Ok(()) => {},
                Err(e) => {
                    proof {
                        assert(spec_monitor_fold(*self, rowsm, i as int) is None);
                    }
                    return Err(e);
                },
            }
            i = i + 1;
        }
        Ok(())
    }
}

/// Apply one recognized status variable to the counters.
#[verifier::rlimit(100)]
fn monitor_apply(m: &mut MysqlMonitorStatus, name: &String, value: &String) -> (r: Result<
    (),
    ValueError,
>)
    ensures
        r is Ok <==> spec_monitor_apply(*old(m), name@, value@) is Some,
        r is Ok ==> spec_monitor_apply(*old(m), name@, value@) == Some(*final(m)),
        r is Err ==> *final(m) == *old(m),
{
    if name.eq(&"Com_insert".to_owned()) {
        match readvalue::parse_usize(value.as_str()) {
            Some(n) => {
                m.com_insert = n;
                Ok(())
            },
            None => Err(ValueError::NotANumber),
        }
    } else if name.eq(&"Com_update".to_owned()) {
        match readvalue::parse_usize(value.as_str()) {
            Some(n) => {
                m.com_update = n;
                Ok(())
            },
            None => Err(ValueError::NotANumber),
        }
    } else if name.eq(&"Com_delete".to_owned()) {
        match readvalue::parse_usize(value.as_str()) {
            Some(n) => {
                m.com_delete = n;
                Ok(())
            },
            None => Err(ValueError::NotANumber),
        }
    } else if name.eq(&"Com_select".to_owned()) {
        match readvalue::parse_usize(value.as_str()) {
            Some(n) => {
                m.com_select = n;
                Ok(())
            },
            None => Err(ValueError::NotANumber),
        }
    } else if name.eq(&"Questions".to_owned()) {
        match readvalue::parse_usize(value.as_str()) {
            Some(n) => {
                m.questions = n;
                Ok(())
            },
            None => Err(ValueError::NotANumber),
        }
    } else if name.eq(&"Innodb_row_lock_current_waits".to_owned()) {
        match readvalue::parse_usize(value.as_str()) {
            Some(n) => {
                m.innodb_row_lock_current_waits = n;
                Ok(())
            },
            None => Err(ValueError::NotANumber),
        }
    } else if name.eq(&"Innodb_row_lock_time".to_owned()) {
        match readvalue::parse_usize(value.as_str()) {
            Some(n) => {
                m.innodb_row_lock_time = n;
                Ok(())
            },
            None => Err(ValueError::NotANumber),
        }
    } else if name.eq(&"Created_tmp_disk_tables".to_owned()) {
        match readvalue::parse_usize(value.as_str()) {
            Some(n) => {
                m.created_tmp_disk_tables = n;
                Ok(())
            },
            None => Err(ValueError::NotANumber),
        }
    } else if name.eq(&"Created_tmp_tables".to_owned()) {
        match readvalue::parse_usize(value.as_str()) {
            Some(n) => {
                m.created_tmp_tables = n;
                Ok(())
            },
            None => Err(ValueError::NotANumber),
        }
    } else if name.eq(&"Innodb_buffer_pool_reads".to_owned()) {
        match readvalue::parse_usize(value.as_str()) {
            Some(n) => {
                m.innodb_buffer_pool_reads = n;
                Ok(())
            },
            None => Err(ValueError::NotANumber),
        }
    } else if name.eq(&"Innodb_buffer_pool_read_requests".to_owned()) {
        match readvalue::parse_usize(value.as_str()) {
            Some(n) => {
                m.innodb_buffer_pool_read_requests = n;
                Ok(())
            },
            None => Err(ValueError::NotANumber),
        }
    } else if name.eq(&"Handler_read_first".to_owned()) {
        match readvalue::parse_usize(value.as_str()) {
            Some(n) => {
                m.handler_read_first = n;
                Ok(())
            },
            None => Err(ValueError::NotANumber),
        }
    } else if name.eq(&"Handler_read_key".to_owned()) {
        match readvalue::parse_usize(value.as_str()) {
            Some(n) => {
                m.handler_read_key = n;
                Ok(())
            },
            None => Err(ValueError::NotANumber),
        }
    } else if name.eq(&"Handler_read_next".to_owned()) {
        match readvalue::parse_usize(value.as_str()) {
            Some(n) => {
                m.handler_read_next = n;
                Ok(())
            },
            None => Err(ValueError::NotANumber),
        }
    } else if name.eq(&"Handler_read_prev".to_owned()) {
        match readvalue::parse_usize(value.as_str()) {
            Some(n) => {
                m.handler_read_prev = n;
                Ok(())
            },
            None => Err(ValueError::NotANumber),
        }
    } else if name.eq(&"Handler_read_rnd".to_owned()) {
        match readvalue::parse_usize(value.as_str()) {
            Some(n) => {
                m.handler_read_rnd = n;
                Ok(())
            },
            None => Err(ValueError::NotANumber),
        }
    } else if name.eq(&"Handler_read_rnd_next".to_owned()) {
        match readvalue::parse_usize(value.as_str()) {
            Some(n) => {
                m.handler_read_rnd_next = n;
                Ok(())
            },
            None => Err(ValueError::NotANumber),
        }
    } else if name.eq(&"Innodb_os_log_pending_fsyncs".to_owned()) {
        match readvalue::parse_usize(value.as_str()) {
            Some(n) => {
                m.innodb_os_log_pending_fsyncs = n;
                Ok(())
            },
            None => Err(ValueError::NotANumber),
        }
    } else if name.eq(&"Innodb_os_log_pending_writes".to_owned()) {
        match readvalue::parse_usize(value.as_str()) {
            Some(n) => {
                m.innodb_os_log_pending_writes = n;
                Ok(())
            },
            None => Err(ValueError::NotANumber),
        }
    } else if name.eq(&"Innodb_log_waits".to_owned()) {
        match readvalue::parse_usize(value.as_str()) {
            Some(n) => {
                m.innodb_log_waits = n;
                Ok(())
            },
            None => Err(ValueError::NotANumber),
        }
    } else if name.eq(&"Threads_connected".to_owned()) {
        match readvalue::parse_usize(value.as_str()) {
            Some(n) => {
                m.threads_connected = n;
                Ok(())
            },
            None => Err(ValueError::NotANumber),
        }
    } else if name.eq(&"Threads_running".to_owned()) {
        match readvalue::parse_usize(value.as_str()) {
            Some(n) => {
                m.threads_running = n;
                Ok(())
            },
            None => Err(ValueError::NotANumber),
        }
    } else if name.eq(&"Bytes_sent".to_owned()) {
        match readvalue::parse_usize(value.as_str()) {
            Some(n) => {
                m.bytes_sent = n;
                Ok(())
            },
            None => Err(ValueError::NotANumber),
        }
    } else if name.eq(&"Bytes_received".to_owned()) {
        match readvalue::parse_usize(value.as_str()) {
            Some(n) => {
                m.bytes_received = n;
                Ok(())
            },
            None => Err(ValueError::NotANumber),
        }
    } else if name.eq(&"Slow_queries".to_owned()) {
        match readvalue::parse_usize(value.as_str()) {
            Some(n) => {
                m.slow_queries = n;
                Ok(())
            },
            None => Err(ValueError::NotANumber),
        }
    } else {
        Ok(())
    }
}

} // verus!
