//! Replication state reported by the MysqlCheck handler, and the decoding
//! of `SHOW SLAVE STATUS` / variable query results into it.

use vstd::prelude::*;
use crate::io::command::{spec_kv_lookup, TextRow};
use crate::mysql::ValueError;
use crate::readvalue;
use crate::readvalue::{spec_parse_usize, utf8_lossy_of};

verus! {

/// When the state was last refreshed, in milliseconds.
pub struct LastCheckTime {
    pub last_time: usize,
}

/// A string field: updated to the looked-up value when the key is present.
pub open spec fn field_str(
    looked: Option<Seq<char>>,
    oldv: Seq<char>,
    newv: Seq<char>,
) -> bool {
    match looked {
        Option::None => newv == oldv,
        Option::Some(v) => newv == v,
    }
}

/// A numeric field: updated to the parsed value when the key is present.
pub open spec fn field_num(looked: Option<Seq<char>>, oldv: nat, newv: nat) -> bool {
    match looked {
        Option::None => newv == oldv,
        Option::Some(v) => spec_parse_usize(v) == Some(newv),
    }
}

/// Whether a present value parses as a number.
pub open spec fn field_num_parses(looked: Option<Seq<char>>) -> bool {
    match looked {
        Option::None => true,
        Option::Some(v) => spec_parse_usize(v) is Some,
    }
}

/// Index of the first `-` in the string, or its length.
pub open spec fn spec_dash_index(s: Seq<char>, i: int) -> int
    decreases s.len() - i,
{
    if i < 0 || i >= s.len() {
        s.len() as int
    } else if s[i] == '-' {
        i
    } else {
        spec_dash_index(s, i + 1)
    }
}

/// The version string up to its first `-`; a non-ASCII string is kept
/// whole.
pub open spec fn spec_version_of(s: Seq<char>) -> Seq<char> {
    if vstd::utf8::is_ascii_chars(s) {
        s.take(spec_dash_index(s, 0))
    } else {
        s
    }
}

proof fn lemma_dash_index_at(s: Seq<char>, j: int, k: int)
    requires
        0 <= j <= k <= s.len(),
        forall|t: int| j <= t < k ==> s[t] != '-',
        k == s.len() || s[k] == '-',
    ensures
        spec_dash_index(s, j) == k,
    decreases k - j,
{
    if j < k {
        lemma_dash_index_at(s, j + 1, k);
    }
}

/// Take the version text before the first `-`.
pub fn version_prefix(v: &String) -> (r: String)
    ensures
        r@ == spec_version_of(v@),
{
    if !v.as_str().is_ascii() {
        return v.clone();
    }
    let s = v.as_str();
    let bytes = s.as_bytes();
    proof {
        vstd::string::is_ascii_spec_bytes(s);
        assert(bytes@ =~= Seq::new(s@.len(), |i: int| s@.index(i) as u8));
    }
    let n = bytes.len();
    let mut k: usize = 0;
    while k < n && bytes[k] != 45
        invariant
            k <= n,
            n == bytes@.len(),
            n == s@.len(),
            bytes@ == Seq::new(s@.len(), |i: int| s@.index(i) as u8),
            vstd::utf8::is_ascii_chars(s@),
            forall|t: int| 0 <= t < k ==> s@[t] != '-',
        decreases n - k,
    {
        proof {
            assert('\0' <= s@[k as int] <= '\u{7f}');
        }
        k = k + 1;
    }
    proof {
        if k < n {
            assert('\0' <= s@[k as int] <= '\u{7f}');
            assert(s@[k as int] == '-');
        }
        lemma_dash_index_at(s@, 0, k as int);
    }
    let prefix = s.substring_ascii(0, k);
    proof {
        assert(prefix@ =~= s@.take(k as int));
    }
    prefix.to_owned()
}

/// Strip newline bytes.
pub open spec fn spec_strip_nl(b: Seq<u8>) -> Seq<u8>
    decreases b.len(),
{
    if b.len() == 0 {
        Seq::empty()
    } else if b.last() == 10 {
        spec_strip_nl(b.drop_last())
    } else {
        spec_strip_nl(b.drop_last()) + seq![b.last()]
    }
}

/// Remove every newline from a gtid set string.
pub fn strip_newlines(v: &String) -> (r: String)
    ensures
        r@ == utf8_lossy_of(spec_strip_nl(vstd::utf8::encode_utf8(v@))),
{
    let bytes = v.as_str().as_bytes();
    let n = bytes.len();
    let mut out: Vec<u8> = Vec::new();
    proof {
        assert(out@ =~= spec_strip_nl(bytes@.take(0)));
    }
    for i in 0..n
        invariant
            n == bytes@.len(),
            bytes@ == vstd::utf8::encode_utf8(v@),
            out@ == spec_strip_nl(bytes@.take(i as int)),
    {
        proof {
            assert(bytes@.take(i + 1).drop_last() =~= bytes@.take(i as int));
        }
        let b = bytes[i];
        if b != 10 {
            out.push(b);
        }
    }
    proof {
        assert(bytes@.take(n as int) =~= bytes@);
    }
    readvalue::read_string_value(out.as_slice())
}

/// The node's replication state.
#[derive(Clone, Debug)]
pub struct MysqlState {
    pub online: bool,
    pub role: String,
    pub master: String,
    pub sql_thread: bool,
    pub io_thread: bool,
    pub seconds_behind: usize,
    pub master_log_file: String,
    pub read_master_log_pos: usize,
    pub exec_master_log_pos: usize,
    pub read_only: bool,
    pub version: String,
    pub executed_gtid_set: String,
    pub innodb_flush_log_at_trx_commit: usize,
    pub sync_binlog: usize,
    pub server_id: usize,
    pub event_scheduler: String,
    pub innodb_buffer_pool_size: usize,
    pub last_sql_error: String,
    pub last_io_error: String,
}

impl MysqlState {
    /// The offline default state.
    pub fn new() -> (r: MysqlState)
        ensures
            !r.online,
            r.role@.len() == 0,
            r.seconds_behind == 0,
            r.read_master_log_pos == 0,
            r.exec_master_log_pos == 0,
            !r.read_only,
            r.event_scheduler@ == "OFF"@,
            r.server_id == 0,
    {
        MysqlState {
            online: false,
            role: String::new(),
            master: String::new(),
            sql_thread: false,
            io_thread: false,
            seconds_behind: 0,
            master_log_file: String::new(),
            read_master_log_pos: 0,
            exec_master_log_pos: 0,
            read_only: false,
            version: String::new(),
            executed_gtid_set: String::new(),
            innodb_flush_log_at_trx_commit: 0,
            sync_binlog: 0,
            server_id: 0,
            event_scheduler: "OFF".to_owned(),
            innodb_buffer_pool_size: 0,
            last_sql_error: String::new(),
            last_io_error: String::new(),
        }
    }

    /// A field-for-field copy.
    pub fn my_clone(&self) -> (r: MysqlState)
        ensures
            r.online == self.online,
            r.role@ == self.role@,
            r.master@ == self.master@,
            r.sql_thread == self.sql_thread,
            r.io_thread == self.io_thread,
            r.seconds_behind == self.seconds_behind,
            r.master_log_file@ == self.master_log_file@,
            r.read_master_log_pos == self.read_master_log_pos,
            r.exec_master_log_pos == self.exec_master_log_pos,
            r.read_only == self.read_only,
            r.version@ == self.version@,
            r.executed_gtid_set@ == self.executed_gtid_set@,
            r.innodb_flush_log_at_trx_commit == self.innodb_flush_log_at_trx_commit,
            r.sync_binlog == self.sync_binlog,
            r.server_id == self.server_id,
            r.event_scheduler@ == self.event_scheduler@,
            r.innodb_buffer_pool_size == self.innodb_buffer_pool_size,
            r.last_sql_error@ == self.last_sql_error@,
            r.last_io_error@ == self.last_io_error@,
    {
        MysqlState {
            online: self.online,
            role: self.role.clone(),
            master: self.master.clone(),
            sql_thread: self.sql_thread,
            io_thread: self.io_thread,
            seconds_behind: self.seconds_behind,
            master_log_file: self.master_log_file.clone(),
            read_master_log_pos: self.read_master_log_pos,
            exec_master_log_pos: self.exec_master_log_pos,
            read_only: self.read_only,
            version: self.version.clone(),
            executed_gtid_set: self.executed_gtid_set.clone(),
            innodb_flush_log_at_trx_commit: self.innodb_flush_log_at_trx_commit,
            sync_binlog: self.sync_binlog,
            server_id: self.server_id,
            event_scheduler: self.event_scheduler.clone(),
            innodb_buffer_pool_size: self.innodb_buffer_pool_size,
            last_sql_error: self.last_sql_error.clone(),
            last_io_error: self.last_io_error.clone(),
        }
    }

    /// Fill the slave-status fields from one `SHOW SLAVE STATUS` row.
    /// Fails if and only if a present numeric value does not parse.
    #[verifier::rlimit(100)]
    pub fn update(&mut self, result: &TextRow) -> (r: Result<(), ValueError>)
        ensures
            r is Ok <==> ({
                &&& field_num_parses(
                    match spec_kv_lookup(result@, "Seconds_Behind_Master"@) {
                        Option::Some(v) => if v.len() > 0 {
                            Option::Some(v)
                        } else {
                            Option::None
                        },
                        Option::None => Option::None,
                    },
                )
                &&& field_num_parses(spec_kv_lookup(result@, "Read_Master_Log_Pos"@))
                &&& field_num_parses(spec_kv_lookup(result@, "Exec_Master_Log_Pos"@))
            }),
            r is Ok ==> ({
                &&& final(self).role@ == "slave"@
                &&& (match spec_kv_lookup(result@, "Slave_IO_Running"@) {
                    Option::Some(v) => final(self).io_thread == (v == "Yes"@),
                    Option::None => final(self).io_thread == old(self).io_thread,
                })
                &&& (match spec_kv_lookup(result@, "Slave_SQL_Running"@) {
                    Option::Some(v) => final(self).sql_thread == (v == "Yes"@),
                    Option::None => final(self).sql_thread == old(self).sql_thread,
                })
                &&& field_num(
                    match spec_kv_lookup(result@, "Seconds_Behind_Master"@) {
                        Option::Some(v) => if v.len() > 0 {
                            Option::Some(v)
                        } else {
                            Option::None
                        },
                        Option::None => Option::None,
                    },
                    old(self).seconds_behind as nat,
                    final(self).seconds_behind as nat,
                )
                &&& field_str(
                    spec_kv_lookup(result@, "Master_Log_File"@),
                    old(self).master_log_file@,
                    final(self).master_log_file@,
                )
                &&& field_num(
                    spec_kv_lookup(result@, "Read_Master_Log_Pos"@),
                    old(self).read_master_log_pos as nat,
                    final(self).read_master_log_pos as nat,
                )
                &&& field_num(
                    spec_kv_lookup(result@, "Exec_Master_Log_Pos"@),
                    old(self).exec_master_log_pos as nat,
                    final(self).exec_master_log_pos as nat,
                )
                &&& field_str(
                    spec_kv_lookup(result@, "Last_IO_Error"@),
                    old(self).last_io_error@,
                    final(self).last_io_error@,
                )
                &&& field_str(
                    spec_kv_lookup(result@, "Last_SQL_Error"@),
                    old(self).last_sql_error@,
                    final(self).last_sql_error@,
                )
                &&& field_str(
                    spec_kv_lookup(result@, "Master_Host"@),
                    old(self).master@,
                    final(self).master@,
                )
                &&& final(self).online == old(self).online
                &&& final(self).read_only == old(self).read_only
                &&& final(self).version == old(self).version
                &&& final(self).executed_gtid_set == old(self).executed_gtid_set
                &&& final(self).sync_binlog == old(self).sync_binlog
                &&& final(self).server_id == old(self).server_id
            }),
    {
        self.role = "slave".to_owned();

        let key = "Slave_IO_Running".to_owned();
        if let Some(v) = result.get(&key) {
            let yes = "Yes".to_owned();
            self.io_thread = v.eq(&yes);
        }

        let key = "Slave_SQL_Running".to_owned();
        if let Some(v) = result.get(&key) {
            let yes = "Yes".to_owned();
            self.sql_thread = v.eq(&yes);
        }

        let key = "Seconds_Behind_Master".to_owned();
        if let Some(v) = result.get(&key) {
            if !v.as_str().is_empty() {
                match readvalue::parse_usize(v.as_str()) {
                    Some(n) => {
                        self.seconds_behind = n;
                    },
                    None => {
                        return Err(ValueError::NotANumber);
                    },
                }
            }
        }

        let key = "Master_Log_File".to_owned();
        if let Some(v) = result.get(&key) {
            self.master_log_file = v.clone();
        }

        let key = "Read_Master_Log_Pos".to_owned();
        if let Some(v) = result.get(&key) {
            match readvalue::parse_usize(v.as_str()) {
                Some(n) => {
                    self.read_master_log_pos = n;
                },
                None => {
                    return Err(ValueError::NotANumber);
                },
            }
        }

        let key = "Exec_Master_Log_Pos".to_owned();
        if let Some(v) = result.get(&key) {
            match readvalue::parse_usize(v.as_str()) {
                Some(n) => {
                    self.exec_master_log_pos = n;
                },
                None => {
                    return Err(ValueError::NotANumber);
                },
            }
        }

        let key = "Last_IO_Error".to_owned();
        if let Some(v) = result.get(&key) {
            self.last_io_error = v.clone();
        }

        let key = "Last_SQL_Error".to_owned();
        if let Some(v) = result.get(&key) {
            self.last_sql_error = v.clone();
        }

        let key = "Master_Host".to_owned();
        if let Some(v) = result.get(&key) {
            self.master = v.clone();
        }

        Ok(())
    }

    /// Fill the variable fields from the variables query row.  Fails if
    /// and only if a present numeric value does not parse, or the
    /// `read_only` flag is out of its one-byte range.
    #[verifier::rlimit(100)]
    pub fn update_variable(&mut self, result: &TextRow) -> (r: Result<(), ValueError>)
        ensures
            r is Ok <==> ({
                &&& (match spec_kv_lookup(result@, "read_only"@) {
                    Option::Some(v) => spec_parse_usize(v) matches Option::Some(n) && n <= 255,
                    Option::None => true,
                })
                &&& field_num_parses(spec_kv_lookup(result@, "sync_binlog"@))
                &&& field_num_parses(
                    spec_kv_lookup(result@, "innodb_flush_log_at_trx_commit"@),
                )
                &&& field_num_parses(spec_kv_lookup(result@, "server_id"@))
                &&& field_num_parses(spec_kv_lookup(result@, "innodb_buffer_pool_size"@))
            }),
            r is Ok ==> ({
                &&& (match spec_kv_lookup(result@, "read_only"@) {
                    Option::Some(v) => final(self).read_only == (spec_parse_usize(v)
                        == Option::Some(1nat)),
                    Option::None => final(self).read_only == old(self).read_only,
                })
                &&& field_num(
                    spec_kv_lookup(result@, "sync_binlog"@),
                    old(self).sync_binlog as nat,
                    final(self).sync_binlog as nat,
                )
                &&& field_num(
                    spec_kv_lookup(result@, "innodb_flush_log_at_trx_commit"@),
                    old(self).innodb_flush_log_at_trx_commit as nat,
                    final(self).innodb_flush_log_at_trx_commit as nat,
                )
                &&& (match spec_kv_lookup(result@, "version"@) {
                    Option::Some(v) => final(self).version@ == spec_version_of(v),
                    Option::None => final(self).version == old(self).version,
                })
                &&& field_num(
                    spec_kv_lookup(result@, "server_id"@),
                    old(self).server_id as nat,
                    final(self).server_id as nat,
                )
                &&& field_str(
                    spec_kv_lookup(result@, "event_scheduler"@),
                    old(self).event_scheduler@,
                    final(self).event_scheduler@,
                )
                &&& field_num(
                    spec_kv_lookup(result@, "innodb_buffer_pool_size"@),
                    old(self).innodb_buffer_pool_size as nat,
                    final(self).innodb_buffer_pool_size as nat,
                )
                &&& final(self).online == old(self).online
                &&& final(self).role == old(self).role
                &&& final(self).master == old(self).master
                &&& final(self).sql_thread == old(self).sql_thread
                &&& final(self).io_thread == old(self).io_thread
                &&& final(self).seconds_behind == old(self).seconds_behind
                &&& final(self).master_log_file == old(self).master_log_file
                &&& final(self).read_master_log_pos == old(self).read_master_log_pos
                &&& final(self).exec_master_log_pos == old(self).exec_master_log_pos
                &&& final(self).executed_gtid_set == old(self).executed_gtid_set
                &&& final(self).last_sql_error == old(self).last_sql_error
                &&& final(self).last_io_error == old(self).last_io_error
            }),
    {
        let key = "read_only".to_owned();
        if let Some(v) = result.get(&key) {
            match readvalue::parse_usize(v.as_str()) {
                Some(n) => {
                    if n > 255 {
                        return Err(ValueError::OutOfRange);
                    }
                    self.read_only = n == 1;
                },
                None => {
                    return Err(ValueError::NotANumber);
                },
            }
        }

        let key = "sync_binlog".to_owned();
        if let Some(v) = result.get(&key) {
            match readvalue::parse_usize(v.as_str()) {
                Some(n) => {
                    self.sync_binlog = n;
                },
                None => {
                    return Err(ValueError::NotANumber);
                },
            }
        }

        let key = "innodb_flush_log_at_trx_commit".to_owned();
        if let Some(v) = result.get(&key) {
            match readvalue::parse_usize(v.as_str()) {
                Some(n) => {
                    self.innodb_flush_log_at_trx_commit = n;
                },
                None => {
                    return Err(ValueError::NotANumber);
                },
            }
        }

        let key = "version".to_owned();
        if let Some(v) = result.get(&key) {
            self.version = version_prefix(v);
        }

        let key = "server_id".to_owned();
        if let Some(v) = result.get(&key) {
            match readvalue::parse_usize(v.as_str()) {
                Some(n) => {
                    self.server_id = n;
                },
                None => {
                    return Err(ValueError::NotANumber);
                },
            }
        }

        let key = "event_scheduler".to_owned();
        if let Some(v) = result.get(&key) {
            self.event_scheduler = v.clone();
        }

        let key = "innodb_buffer_pool_size".to_owned();
        if let Some(v) = result.get(&key) {
            match readvalue::parse_usize(v.as_str()) {
                Some(n) => {
                    self.innodb_buffer_pool_size = n;
                },
                None => {
                    return Err(ValueError::NotANumber);
                },
            }
        }

        Ok(())
    }
}

} // verus!
