//! Transaction assembler / stream driver.
//!
//! Walks a binlog byte stream event by event, groups events into
//! transactions bounded by GTID/Query-start and Xid-commit markers, renders
//! forward and rollback SQL for row events, and follows Rotate events into
//! the named next log file.  Two size-bound policies exist: a live slice
//! stops as soon as the cursor reaches the declared size, an on-disk file
//! stops once fewer than a full header's worth of bytes remains.
//!
//! A schema resolution failure is fatal to the whole call: accumulated
//! transactions are discarded and the error recorded.  Structural
//! corruption (a header whose implied payload exceeds the stream) surfaces
//! as an error result.

use vstd::prelude::*;
use crate::meta::{spec_resolve_first, SchemaCatalog, SchemaModel, TableSchema};
use crate::readvalue::utf8_lossy_of;
use crate::binlog::getsql;
use crate::binlog::parsevalue;
use crate::binlog::parsevalue::RowValue;
use crate::binlog::readevent::{
    le_at, spec_event_type, BinlogEvent, EventHeader, GtidEvent, QueryEvent, RotateLog, TableMap,
    XidEvent,
};
use crate::binlog::rollback;

verus! {

/// One decoded event, as recorded inside a transaction.
#[derive(Clone, Debug)]
pub enum Traction {
    GtidEvent(GtidEvent),
    QueryEvent(QueryEvent),
    TableMapEvent(TableMap),
    RowEvent(BinlogEvent, RowValue),
    XidEvent(XidEvent),
    RotateLogEvent(RotateLog),
    RowEventStatic { type_code: BinlogEvent, count: usize },
    Unknown,
}

/// One transaction: its recorded events, forward SQL, and rollback SQL.
#[derive(Clone, Debug)]
pub struct TractionValue {
    pub event: Vec<Traction>,
    pub cur_sql: Vec<String>,
    pub rollback_sql: Vec<String>,
}

impl TractionValue {
    /// An empty transaction record.
    pub fn new() -> (r: TractionValue)
        ensures
            r.event@.len() == 0,
            r.cur_sql@.len() == 0,
            r.rollback_sql@.len() == 0,
    {
        TractionValue { event: Vec::new(), cur_sql: Vec::new(), rollback_sql: Vec::new() }
    }

    /// Reset to the empty record.
    pub fn init(&mut self)
        ensures
            final(self).event@.len() == 0,
            final(self).cur_sql@.len() == 0,
            final(self).rollback_sql@.len() == 0,
    {
        self.event = Vec::new();
        self.cur_sql = Vec::new();
        self.rollback_sql = Vec::new();
    }
}

/// The result of one parse call: sealed transactions, an error slot, and a
/// mode tag.  Once the error slot is non-empty the transaction list has
/// been cleared: partial results are never surfaced as complete.
#[derive(Clone, Debug)]
pub struct RowsSql {
    pub sqls: Vec<TractionValue>,
    pub error: String,
    pub etype: String,
}

impl RowsSql {
    /// An empty result.
    pub fn new() -> (r: RowsSql)
        ensures
            r.sqls@.len() == 0,
            r.error@.len() == 0,
            r.etype@.len() == 0,
    {
        RowsSql { sqls: Vec::new(), error: String::new(), etype: String::new() }
    }

    /// Reset to the empty result.
    pub fn init(&mut self)
        ensures
            final(self).sqls@.len() == 0,
            final(self).error@.len() == 0,
            final(self).etype@.len() == 0,
    {
        self.sqls = Vec::new();
        self.error = String::new();
        self.etype = String::new();
    }

    /// Tag the result as rollback output.
    pub fn set_rollback_etype(&mut self)
        ensures
            final(self).etype@ == "rollback"@,
            final(self).sqls == old(self).sqls,
            final(self).error == old(self).error,
    {
        self.etype = "rollback".to_owned();
    }

    /// Tag the result as append (forward replay) output.
    pub fn set_append_etype(&mut self)
        ensures
            final(self).etype@ == "append"@,
            final(self).sqls == old(self).sqls,
            final(self).error == old(self).error,
    {
        self.etype = "append".to_owned();
    }
}

/// Structural failure: the stream contradicts its own framing, or a rotate
/// target cannot be followed.
#[derive(Clone, Debug)]
pub enum BinlogError {
    /// Fewer bytes remain than the event header or payload needs.
    ShortRead { offset: usize },
    /// The header's event length is smaller than the header itself.
    BadEventLength { offset: usize, length: u32 },
    /// A row section failed to decode.
    RowDecode { offset: usize },
    /// A rotate names a log file the directory does not hold.
    RotateTargetMissing { name: String },
    /// Rotations nested deeper than the directory has files.
    RotateDepthExceeded,
}

/// How the walk over one buffer ends.
pub enum WalkOutcome {
    /// The size bound was reached cleanly.
    Done,
    /// The stream contradicts its own framing.
    Corrupt,
    /// A table could not be resolved: fatal, recorded in the error slot.
    SchemaMissing,
    /// A rotate event named the next file; its name bytes follow.
    Rotate(Seq<u8>),
}

/// Seal count and end state of a walk.
pub struct WalkResult {
    pub seals: nat,
    pub outcome: WalkOutcome,
}

/// A finished prefix of `done` seals followed by the rest of a walk.
pub open spec fn walk_join(done: nat, rest: WalkResult) -> WalkResult {
    WalkResult { seals: done + rest.seals, outcome: rest.outcome }
}

/// The schema model behind an optional resolved schema.
pub open spec fn schema_model(o: Option<&TableSchema>) -> Option<SchemaModel> {
    match o {
        Option::None => Option::None,
        Option::Some(s) => Option::Some(s@),
    }
}

/// The assembler's walk over one buffer from `pos`: how many transactions
/// seal, and how the walk ends.  `cur` is the active table schema.
pub open spec fn spec_walk(
    b: Seq<u8>,
    pos: int,
    size: int,
    readfile: bool,
    cat: Seq<SchemaModel>,
    cur: Option<SchemaModel>,
) -> WalkResult
    decreases b.len() - pos,
{
    if (readfile && pos + 19 > size) || (!readfile && pos >= size) {
        WalkResult { seals: 0, outcome: WalkOutcome::Done }
    } else if pos < 0 || pos + 19 > b.len() {
        WalkResult { seals: 0, outcome: WalkOutcome::Corrupt }
    } else {
        let elen = le_at(b, pos + 9, 4) as int;
        if elen < 19 || pos + elen > b.len() {
            WalkResult { seals: 0, outcome: WalkOutcome::Corrupt }
        } else {
            let tc = spec_event_type(b[pos + 4]);
            let payload = b.subrange(pos + 19, pos + elen);
            let next = pos + elen;
            if tc == BinlogEvent::TableMapEvent {
                let dbn = if TableMap::spec_well_formed(payload) {
                    utf8_lossy_of(TableMap::spec_database_bytes(payload))
                } else {
                    Seq::<char>::empty()
                };
                let tbn = if TableMap::spec_well_formed(payload) {
                    utf8_lossy_of(TableMap::spec_table_bytes(payload))
                } else {
                    Seq::<char>::empty()
                };
                match spec_resolve_first(cat, dbn, tbn) {
                    Option::None => WalkResult { seals: 0, outcome: WalkOutcome::SchemaMissing },
                    Option::Some(sm) => spec_walk(b, next, size, readfile, cat, Some(sm)),
                }
            } else if tc == BinlogEvent::WriteEvent || tc == BinlogEvent::UpdateEvent || tc
                == BinlogEvent::DeleteEvent {
                match cur {
                    Option::None => WalkResult { seals: 0, outcome: WalkOutcome::SchemaMissing },
                    Option::Some(sm) => match parsevalue::spec_row_value(payload, sm.columns, tc) {
                        Option::None => WalkResult { seals: 0, outcome: WalkOutcome::Corrupt },
                        Option::Some(_) => spec_walk(b, next, size, readfile, cat, cur),
                    },
                }
            } else if tc == BinlogEvent::XidEvent {
                walk_join(1, spec_walk(b, next, size, readfile, cat, cur))
            } else if tc == BinlogEvent::RotateLogEvent {
                let name = if payload.len() >= 8 {
                    payload.skip(8)
                } else {
                    payload
                };
                WalkResult { seals: 0, outcome: WalkOutcome::Rotate(name) }
            } else {
                spec_walk(b, next, size, readfile, cat, cur)
            }
        }
    }
}

/// The number of Xid events in the stream from `pos` up to the size bound,
/// a rotate, or the end of the buffer.
pub open spec fn spec_xid_count(b: Seq<u8>, pos: int, size: int, readfile: bool) -> nat
    decreases b.len() - pos,
{
    if (readfile && pos + 19 > size) || (!readfile && pos >= size) {
        0
    } else if pos < 0 || pos + 19 > b.len() {
        0
    } else {
        let elen = le_at(b, pos + 9, 4) as int;
        if elen < 19 || pos + elen > b.len() {
            0
        } else {
            let tc = spec_event_type(b[pos + 4]);
            let next = pos + elen;
            if tc == BinlogEvent::RotateLogEvent {
                0
            } else if tc == BinlogEvent::XidEvent {
                1 + spec_xid_count(b, next, size, readfile)
            } else {
                spec_xid_count(b, next, size, readfile)
            }
        }
    }
}

/// Transaction sealing: a walk that ends cleanly (at the size bound or at a
/// rotate) seals exactly one transaction per Xid event it encountered.
pub proof fn lemma_seals_are_xids(
    b: Seq<u8>,
    pos: int,
    size: int,
    readfile: bool,
    cat: Seq<SchemaModel>,
    cur: Option<SchemaModel>,
)
    requires
        spec_walk(b, pos, size, readfile, cat, cur).outcome is Done || spec_walk(
            b,
            pos,
            size,
            readfile,
            cat,
            cur,
        ).outcome is Rotate,
    ensures
        spec_walk(b, pos, size, readfile, cat, cur).seals == spec_xid_count(b, pos, size, readfile),
    decreases b.len() - pos,
{
    if (readfile && pos + 19 > size) || (!readfile && pos >= size) {
    } else if pos < 0 || pos + 19 > b.len() {
    } else {
        let elen = le_at(b, pos + 9, 4) as int;
        if elen < 19 || pos + elen > b.len() {
        } else {
            let tc = spec_event_type(b[pos + 4]);
            let next = pos + elen;
            if tc == BinlogEvent::TableMapEvent {
                let payload = b.subrange(pos + 19, pos + elen);
                let dbn = if TableMap::spec_well_formed(payload) {
                    utf8_lossy_of(TableMap::spec_database_bytes(payload))
                } else {
                    Seq::<char>::empty()
                };
                let tbn = if TableMap::spec_well_formed(payload) {
                    utf8_lossy_of(TableMap::spec_table_bytes(payload))
                } else {
                    Seq::<char>::empty()
                };
                match spec_resolve_first(cat, dbn, tbn) {
                    Option::None => {},
                    Option::Some(sm) => {
                        lemma_seals_are_xids(b, next, size, readfile, cat, Some(sm));
                    },
                }
            } else if tc == BinlogEvent::WriteEvent || tc == BinlogEvent::UpdateEvent || tc
                == BinlogEvent::DeleteEvent {
                match cur {
                    Option::None => {},
                    Option::Some(sm) => {
                        let payload = b.subrange(pos + 19, pos + elen);
                        match parsevalue::spec_row_value(payload, sm.columns, tc) {
                            Option::None => {},
                            Option::Some(_) => {
                                lemma_seals_are_xids(b, next, size, readfile, cat, cur);
                            },
                        }
                    },
                }
            } else if tc == BinlogEvent::XidEvent {
                lemma_seals_are_xids(b, next, size, readfile, cat, cur);
            } else if tc == BinlogEvent::RotateLogEvent {
            } else {
                lemma_seals_are_xids(b, next, size, readfile, cat, cur);
            }
        }
    }
}


/// Handle one Write/Update/Delete event: render its forward SQL and, from
/// the type-code-rewritten buffer, its rollback SQL, into the open
/// transaction record.
#[verifier::rlimit(100)]
fn handle_row_event(
    input: &Vec<u8>,
    pos: usize,
    total: usize,
    schema: &TableSchema,
    tc: BinlogEvent,
    traction_value: &mut TractionValue,
) -> (r: Result<(), BinlogError>)
    requires
        19 <= total,
        pos + total <= input@.len(),
        tc == spec_event_type(input@[pos + 4]),
        tc == BinlogEvent::WriteEvent || tc == BinlogEvent::UpdateEvent || tc
            == BinlogEvent::DeleteEvent,
    ensures
        r is Ok ==> parsevalue::spec_row_value(
            input@.subrange(pos + 19, pos + total),
            schema@.columns,
            tc,
        ) is Some,
        r is Err ==> parsevalue::spec_row_value(
            input@.subrange(pos + 19, pos + total),
            schema@.columns,
            tc,
        ) is None,
{
    let ghost b = input@;
    let blen = input.len();
    proof {
        assert(pos + total <= blen);
    }
    let ghost payload = b.subrange(pos + 19, pos + total);
    let payload_slice = &input[pos + 19..pos + total];
    proof {
        assert(payload_slice@ == payload);
    }
    let rows = match RowValue::read_row_value(payload_slice, schema, tc) {
        Ok(r) => r,
        Err(_) => {
            return Err(BinlogError::RowDecode { offset: pos });
        },
    };
    proof {
        parsevalue::lemma_row_value_len(payload, schema@.columns, tc, rows@);
        assert(forall|k: int|
            0 <= k < rows@.len() ==> (#[trigger] rows@[k]).len() == schema@.columns.len());
    }
    let sqls = getsql::get_command(&rows, &tc, schema);
    traction_value.cur_sql = sqls;
    let mut event_bytes: Vec<u8> = Vec::new();
    event_bytes.extend_from_slice(&input[pos..pos + total]);
    let rbuf = rollback::rollback_row_event(&event_bytes);
    let rheader = EventHeader::new(rbuf.as_slice());
    let r_tc = rheader.type_code;
    let rpayload = &rbuf[19..total];
    proof {
        assert(rbuf@ == rollback::spec_rollback(b.subrange(pos as int, pos + total)));
        assert(rbuf@[4] == rollback::spec_rollback_code(b[pos + 4]));
        assert(r_tc == spec_event_type(rbuf@[4]));
        assert(rpayload@ =~= payload);
        if tc != BinlogEvent::UpdateEvent {
            parsevalue::lemma_row_value_code(payload, schema@.columns, r_tc, tc);
        }
        assert(parsevalue::spec_row_value(payload, schema@.columns, r_tc) is Some);
    }
    let r_rows = match RowValue::read_row_value(rpayload, schema, r_tc) {
        Ok(rr) => rr,
        Err(_) => {
            proof {
                assert(false);
            }
            return Err(BinlogError::RowDecode { offset: pos });
        },
    };
    proof {
        parsevalue::lemma_row_value_len(payload, schema@.columns, r_tc, r_rows@);
        assert(forall|k: int|
            0 <= k < r_rows@.len() ==> (#[trigger] r_rows@[k]).len() == schema@.columns.len());
    }
    let r_rows = if matches!(r_tc, BinlogEvent::UpdateEvent) {
        let ghost rm = r_rows@;
        let swapped = rollback::swap_pairs(r_rows.rows);
        proof {
            rollback::lemma_swap_pairs_lens(rm, schema@.columns.len() as nat);
        }
        RowValue { rows: swapped }
    } else {
        r_rows
    };
    proof {
        assert(forall|k: int|
            0 <= k < r_rows@.len() ==> (#[trigger] r_rows@[k]).len() == schema@.columns.len());
    }
    let rsqls = getsql::get_command(&r_rows, &r_tc, schema);
    traction_value.rollback_sql = rsqls;
    traction_value.event.push(Traction::Unknown);
    Ok(())
}

/// How one parse call's result reflects its walk.
pub open spec fn parse_matches_walk(
    r: Result<(RowsSql, Option<RotateLog>), BinlogError>,
    w: WalkResult,
) -> bool {
    match r {
        Result::Ok((rs, rot)) => {
            &&& rs.etype@.len() == 0
            &&& !(w.outcome is Corrupt)
            &&& (w.outcome is SchemaMissing ==> rs.error@.len() > 0 && rs.sqls@.len() == 0)
            &&& (!(w.outcome is SchemaMissing) ==> rs.error@.len() == 0 && rs.sqls@.len()
                == w.seals)
            &&& (rot is Some <==> w.outcome is Rotate)
            &&& (match (rot, w.outcome) {
                (Option::Some(rl), WalkOutcome::Rotate(nm)) => rl.binlog_file@ == utf8_lossy_of(
                    nm,
                ),
                _ => true,
            })
        },
        Result::Err(_) => w.outcome is Corrupt,
    }
}

/// Walk one buffer from `start`, sealing transactions on Xid events; stop
/// at the size bound or at a rotate event.
#[verifier::rlimit(100)]
pub fn parse_events(
    catalog: &SchemaCatalog,
    input: &Vec<u8>,
    start: usize,
    reader_size: u64,
    readfile: bool,
) -> (r: Result<(RowsSql, Option<RotateLog>), BinlogError>)
    ensures
        parse_matches_walk(
            r,
            spec_walk(
                input@,
                start as int,
                reader_size as int,
                readfile,
                catalog@,
                Option::None,
            ),
        ),
{
    let ghost b = input@;
    let ghost cat = catalog@;
    let ghost size = reader_size as int;
    let blen = input.len();
    let mut row_sql = RowsSql::new();
    let mut traction_value = TractionValue::new();
    let mut cur_schema: Option<&TableSchema> = None;
    let mut pos = start;
    loop
        invariant
            blen == b.len(),
            b == input@,
            cat == catalog@,
            size == reader_size as int,
            row_sql.error@.len() == 0,
            row_sql.etype@.len() == 0,
            spec_walk(b, start as int, size, readfile, cat, Option::None) == walk_join(
                row_sql.sqls@.len() as nat,
                spec_walk(b, pos as int, size, readfile, cat, schema_model(cur_schema)),
            ),
        decreases b.len() - pos,
    {
        let ghost curm = schema_model(cur_schema);
        if readfile {
            if reader_size < 19 || pos as u64 > reader_size - 19 {
                return Ok((row_sql, None));
            }
        } else {
            if pos as u64 >= reader_size {
                return Ok((row_sql, None));
            }
        }
        if pos > blen || blen - pos < 19 {
            return Err(BinlogError::ShortRead { offset: pos });
        }
        let header = EventHeader::new(&input[pos..blen]);
        proof {
            let s = b.subrange(pos as int, blen as int);
            assert(s.subrange(9, 13) =~= b.subrange(pos + 9, pos + 13));
            assert(s.subrange(0, 4) =~= b.subrange(pos as int, pos + 4));
            assert(s[4] == b[pos + 4]);
            assert(header.event_length == le_at(b, pos + 9, 4));
            assert(header.type_code == spec_event_type(b[pos + 4]));
        }
        if header.event_length < 19 {
            return Err(
                BinlogError::BadEventLength { offset: pos, length: header.event_length },
            );
        }
        let total = header.event_length as usize;
        if blen - pos < total {
            return Err(BinlogError::ShortRead { offset: pos });
        }
        let payload_slice = &input[pos + 19..pos + total];
        let ghost payload = b.subrange(pos + 19, pos + total);
        proof {
            assert(payload_slice@ == payload);
        }
        let next = pos + total;
        match header.type_code {
            BinlogEvent::GtidEvent => {
                let v = GtidEvent::read_event(payload_slice);
                traction_value.event.push(Traction::GtidEvent(v));
                proof {
                    assert(spec_walk(b, pos as int, size, readfile, cat, curm) == spec_walk(
                        b, next as int, size, readfile, cat, curm));
                }
            },
            BinlogEvent::QueryEvent => {
                let v = QueryEvent::read_event(payload_slice);
                traction_value.event.push(Traction::QueryEvent(v));
                proof {
                    assert(spec_walk(b, pos as int, size, readfile, cat, curm) == spec_walk(
                        b, next as int, size, readfile, cat, curm));
                }
            },
            BinlogEvent::TableMapEvent => {
                let v = TableMap::read_event(payload_slice);
                proof {
                    if !TableMap::spec_well_formed(payload) {
                        assert(v.database_name@ =~= Seq::<char>::empty());
                        assert(v.table_name@ =~= Seq::<char>::empty());
                    }
                }
                match catalog.resolve(&v.database_name, &v.table_name) {
                    None => {
                        row_sql.init();
                        proof {
                            reveal_strlit("no columns info: ");
                        }
                        let msg = "no columns info: ".to_owned().concat(
                            v.database_name.as_str(),
                        );
                        let msg = msg.concat(".").concat(v.table_name.as_str());
                        row_sql.error = msg;
                        proof {
                            assert(spec_walk(b, pos as int, size, readfile, cat, curm).outcome
                                is SchemaMissing);
                        }
                        return Ok((row_sql, None));
                    },
                    Some(schema) => {
                        cur_schema = Some(schema);
                        traction_value.event.push(Traction::TableMapEvent(v));
                        proof {
                            assert(spec_walk(b, pos as int, size, readfile, cat, curm)
                                == spec_walk(b, next as int, size, readfile, cat,
                                    Option::Some(schema@)));
                        }
                    },
                }
            },
            BinlogEvent::WriteEvent | BinlogEvent::UpdateEvent | BinlogEvent::DeleteEvent => {
                match cur_schema {
                    None => {
                        row_sql.init();
                        proof {
                            reveal_strlit("no columns info");
                        }
                        row_sql.error = "no columns info".to_owned();
                        proof {
                            assert(spec_walk(b, pos as int, size, readfile, cat, curm).outcome
                                is SchemaMissing);
                        }
                        return Ok((row_sql, None));
                    },
                    Some(schema) => {
                        match handle_row_event(
                            input,
                            pos,
                            total,
                            schema,
                            header.type_code,
                            &mut traction_value,
                        ) {
                            Ok(()) => {
                                proof {
                                    assert(spec_walk(b, pos as int, size, readfile, cat, curm)
                                        == spec_walk(b, next as int, size, readfile, cat, curm));
                                }
                            },
                            Err(e) => {
                                proof {
                                    assert(spec_walk(b, pos as int, size, readfile, cat, curm)
                                        .outcome is Corrupt);
                                }
                                return Err(e);
                            },
                        }
                    },
                }
            },
            BinlogEvent::XidEvent => {
                let v = XidEvent::read_event(payload_slice);
                traction_value.event.push(Traction::XidEvent(v));
                row_sql.sqls.push(traction_value);
                traction_value = TractionValue::new();
                proof {
                    assert(spec_walk(b, pos as int, size, readfile, cat, curm) == walk_join(
                        1, spec_walk(b, next as int, size, readfile, cat, curm)));
                }
            },
            BinlogEvent::XAPREPARELOGEVENT => {
                traction_value.event.push(Traction::Unknown);
                proof {
                    assert(spec_walk(b, pos as int, size, readfile, cat, curm) == spec_walk(
                        b, next as int, size, readfile, cat, curm));
                }
            },
            BinlogEvent::UNKNOWNEVENT => {
                proof {
                    assert(spec_walk(b, pos as int, size, readfile, cat, curm) == spec_walk(
                        b, next as int, size, readfile, cat, curm));
                }
            },
            BinlogEvent::RotateLogEvent => {
                let v = RotateLog::read_event(payload_slice);
                proof {
                    if payload.len() >= 8 {
                        assert(payload.subrange(8, payload.len() as int) =~= payload.skip(8));
                    }
                }
                return Ok((row_sql, Some(v)));
            },
        }
        pos = next;
    }
}

/// One binlog file held in memory: its name and its bytes.
#[derive(Clone, Debug)]
pub struct LogFile {
    pub name: String,
    pub data: Vec<u8>,
}

/// Ghost model of a log file.
pub struct LogFileModel {
    pub name: Seq<char>,
    pub data: Seq<u8>,
}

impl View for LogFile {
    type V = LogFileModel;

    open spec fn view(&self) -> LogFileModel {
        LogFileModel { name: self.name@, data: self.data@ }
    }
}

/// The set of log files a rotate may continue into.
#[derive(Clone, Debug)]
pub struct LogDirectory {
    pub files: Vec<LogFile>,
}

impl View for LogDirectory {
    type V = Seq<LogFileModel>;

    open spec fn view(&self) -> Seq<LogFileModel> {
        self.files@.map_values(|f: LogFile| f@)
    }
}

/// The first file in `dir` with the given name.
pub open spec fn spec_dir_lookup(dir: Seq<LogFileModel>, name: Seq<char>) -> Option<LogFileModel>
    decreases dir.len(),
{
    if dir.len() == 0 {
        None
    } else if dir[0].name == name {
        Some(dir[0])
    } else {
        spec_dir_lookup(dir.drop_first(), name)
    }
}

proof fn lemma_dir_lookup_at(dir: Seq<LogFileModel>, name: Seq<char>, i: int)
    requires
        0 <= i < dir.len(),
        dir[i].name == name,
        forall|j: int| 0 <= j < i ==> (#[trigger] dir[j].name) != name,
    ensures
        spec_dir_lookup(dir, name) == Some(dir[i]),
    decreases i,
{
    if i > 0 {
        lemma_dir_lookup_at(dir.drop_first(), name, i - 1);
    }
}

proof fn lemma_dir_lookup_none(dir: Seq<LogFileModel>, name: Seq<char>)
    requires
        forall|j: int| 0 <= j < dir.len() ==> (#[trigger] dir[j].name) != name,
    ensures
        spec_dir_lookup(dir, name) is None,
    decreases dir.len(),
{
    if dir.len() > 0 {
        lemma_dir_lookup_none(dir.drop_first(), name);
    }
}

impl LogDirectory {
    /// Find the first file with this name.
    pub fn lookup(&self, name: &String) -> (r: Option<&LogFile>)
        ensures
            r matches Some(f) ==> spec_dir_lookup(self@, name@) == Some(f@),
            r is None ==> spec_dir_lookup(self@, name@) is None,
    {
        let n = self.files.len();
        for i in 0..n
            invariant
                n == self.files@.len(),
                forall|j: int| 0 <= j < i ==> (#[trigger] self@[j].name) != name@,
        {
            if self.files[i].name.eq(name) {
                proof {
                    assert(self@[i as int] == self.files@[i as int]@);
                    lemma_dir_lookup_at(self@, name@, i as int);
                }
                return Some(&self.files[i]);
            }
        }
        proof {
            lemma_dir_lookup_none(self@, name@);
        }
        None
    }
}

/// How a whole parse call, rotations followed, ends.
pub enum ChainOutcome {
    /// Every walked buffer reached its size bound cleanly.
    Complete,
    /// A schema resolution failure aborted the call; all output discarded.
    Fatal,
    /// Structural corruption, or a rotate that cannot be followed.
    Corrupt,
}

/// Seal count and end state of a rotation-following parse call.
pub struct ChainResult {
    pub seals: nat,
    pub outcome: ChainOutcome,
}

/// The parse call's walk over a buffer and, through rotate events, over the
/// named next files, concatenating sealed transactions.  `fuel` bounds the
/// rotation depth.
pub open spec fn spec_chain(
    cat: Seq<SchemaModel>,
    dir: Seq<LogFileModel>,
    b: Seq<u8>,
    pos: int,
    size: int,
    readfile: bool,
    fuel: nat,
) -> ChainResult
    decreases fuel,
{
    let w = spec_walk(b, pos, size, readfile, cat, Option::None);
    match w.outcome {
        WalkOutcome::Done => ChainResult { seals: w.seals, outcome: ChainOutcome::Complete },
        WalkOutcome::Corrupt => ChainResult { seals: 0, outcome: ChainOutcome::Corrupt },
        WalkOutcome::SchemaMissing => ChainResult { seals: 0, outcome: ChainOutcome::Fatal },
        WalkOutcome::Rotate(nm) => {
            match spec_dir_lookup(dir, utf8_lossy_of(nm)) {
                Option::None => ChainResult { seals: 0, outcome: ChainOutcome::Corrupt },
                Option::Some(f) => {
                    if fuel == 0 {
                        ChainResult { seals: 0, outcome: ChainOutcome::Corrupt }
                    } else {
                        let rest = spec_chain(
                            cat,
                            dir,
                            f.data,
                            4,
                            f.data.len() as int,
                            readfile,
                            (fuel - 1) as nat,
                        );
                        match rest.outcome {
                            ChainOutcome::Complete => ChainResult {
                                seals: w.seals + rest.seals,
                                outcome: ChainOutcome::Complete,
                            },
                            _ => rest,
                        }
                    }
                },
            }
        },
    }
}

/// How a parse call's result reflects its chain.
pub open spec fn parse_matches_chain(r: Result<RowsSql, BinlogError>, c: ChainResult) -> bool {
    match r {
        Result::Ok(rs) => {
            &&& rs.etype@.len() == 0
            &&& !(c.outcome is Corrupt)
            &&& (c.outcome is Fatal ==> rs.error@.len() > 0 && rs.sqls@.len() == 0)
            &&& (c.outcome is Complete ==> rs.error@.len() == 0 && rs.sqls@.len() == c.seals)
        },
        Result::Err(_) => c.outcome is Corrupt,
    }
}

fn parse_chain_from(
    catalog: &SchemaCatalog,
    dir: &LogDirectory,
    data: &Vec<u8>,
    start: usize,
    reader_size: u64,
    readfile: bool,
    fuel: usize,
) -> (r: Result<RowsSql, BinlogError>)
    ensures
        parse_matches_chain(
            r,
            spec_chain(
                catalog@,
                dir@,
                data@,
                start as int,
                reader_size as int,
                readfile,
                fuel as nat,
            ),
        ),
    decreases fuel,
{
    let (mut rs, rot) = match parse_events(catalog, data, start, reader_size, readfile) {
        Ok(t) => t,
        Err(e) => {
            return Err(e);
        },
    };
    if !rs.error.as_str().is_empty() {
        return Ok(rs);
    }
    match rot {
        None => Ok(rs),
        Some(rl) => {
            match dir.lookup(&rl.binlog_file) {
                None => Err(BinlogError::RotateTargetMissing { name: rl.binlog_file }),
                Some(f) => {
                    if fuel == 0 {
                        return Err(BinlogError::RotateDepthExceeded);
                    }
                    let flen = f.data.len();
                    let sub = match parse_chain_from(
                        catalog,
                        dir,
                        &f.data,
                        4,
                        flen as u64,
                        readfile,
                        fuel - 1,
                    ) {
                        Ok(s) => s,
                        Err(e) => {
                            return Err(e);
                        },
                    };
                    if !sub.error.as_str().is_empty() {
                        return Ok(sub);
                    }
                    let mut sub = sub;
                    rs.sqls.append(&mut sub.sqls);
                    Ok(rs)
                },
            }
        },
    }
}

/// Parse a binlog byte stream into sealed transactions with forward and
/// rollback SQL, following rotate events into the named files of `dir`.
///
/// `readfile` selects the size-bound policy: an on-disk file stops once
/// fewer than a full header's worth of bytes remains before `reader_size`,
/// a live slice stops as soon as the cursor reaches it.  A schema
/// resolution failure aborts the call: the result carries the error and no
/// transactions.  Structural corruption is returned as an error.
pub fn parse(
    catalog: &SchemaCatalog,
    dir: &LogDirectory,
    input: &Vec<u8>,
    reader_size: u64,
    readfile: bool,
) -> (r: Result<RowsSql, BinlogError>)
    ensures
        parse_matches_chain(
            r,
            spec_chain(
                catalog@,
                dir@,
                input@,
                0,
                reader_size as int,
                readfile,
                dir@.len() as nat,
            ),
        ),
{
    let fuel = dir.files.len();
    proof {
        assert(dir@.len() == dir.files@.len());
    }
    parse_chain_from(catalog, dir, input, 0, reader_size, readfile, fuel)
}

impl RowsSql {
    /// The rollback statement lists of the sealed transactions, in reverse
    /// transaction order: undo is applied newest first.
    pub fn rollback_order(&self) -> (r: Vec<Vec<String>>)
        ensures
            r@.len() == self.sqls@.len(),
            forall|i: int|
                0 <= i < r@.len() ==> (#[trigger] r@[i])@ == self.sqls@[self.sqls@.len() - 1
                    - i].rollback_sql@,
    {
        let n = self.sqls.len();
        let mut r: Vec<Vec<String>> = Vec::new();
        let mut i: usize = 0;
        while i < n
            invariant
                i <= n,
                n == self.sqls@.len(),
                r@.len() == i,
                forall|j: int|
                    0 <= j < i ==> (#[trigger] r@[j])@ == self.sqls@[n - 1 - j].rollback_sql@,
            decreases n - i,
        {
            r.push(self.sqls[n - 1 - i].rollback_sql.clone());
            i = i + 1;
        }
        r
    }
}

} // verus!
