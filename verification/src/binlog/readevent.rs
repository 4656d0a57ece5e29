//! Event header codec and the per-kind event decoders.
//!
//! A binlog event is a fixed 19-byte header followed by a payload of
//! `event_length - 19` bytes.  The header names the event kind by a type
//! code byte; unrecognized codes map to `UNKNOWNEVENT` without failing.

use vstd::prelude::*;
use crate::readvalue;
use crate::readvalue::le_bytes;

verus! {

/// Fixed length of a binlog event header.
pub const HEADER_LENGTH: u8 = 19;

/// Closed enumeration of the event kinds the engine knows.
#[derive(Clone, Copy, PartialEq, Eq, Structural, Debug)]
pub enum BinlogEvent {
    QueryEvent,
    RotateLogEvent,
    XidEvent,
    TableMapEvent,
    WriteEvent,
    UpdateEvent,
    DeleteEvent,
    GtidEvent,
    XAPREPARELOGEVENT,
    UNKNOWNEVENT,
}

/// Event kind denoted by a header type code byte.
pub open spec fn spec_event_type(code: u8) -> BinlogEvent {
    if code == 2 {
        BinlogEvent::QueryEvent
    } else if code == 4 {
        BinlogEvent::RotateLogEvent
    } else if code == 16 {
        BinlogEvent::XidEvent
    } else if code == 19 {
        BinlogEvent::TableMapEvent
    } else if code == 30 {
        BinlogEvent::WriteEvent
    } else if code == 31 {
        BinlogEvent::UpdateEvent
    } else if code == 32 {
        BinlogEvent::DeleteEvent
    } else if code == 33 {
        BinlogEvent::GtidEvent
    } else if code == 38 {
        BinlogEvent::XAPREPARELOGEVENT
    } else {
        BinlogEvent::UNKNOWNEVENT
    }
}

impl BinlogEvent {
    /// Map a type code byte to the event kind; never fails.
    pub fn from_type_code(code: u8) -> (r: BinlogEvent)
        ensures
            r == spec_event_type(code),
    {
        if code == 2 {
            BinlogEvent::QueryEvent
        } else if code == 4 {
            BinlogEvent::RotateLogEvent
        } else if code == 16 {
            BinlogEvent::XidEvent
        } else if code == 19 {
            BinlogEvent::TableMapEvent
        } else if code == 30 {
            BinlogEvent::WriteEvent
        } else if code == 31 {
            BinlogEvent::UpdateEvent
        } else if code == 32 {
            BinlogEvent::DeleteEvent
        } else if code == 33 {
            BinlogEvent::GtidEvent
        } else if code == 38 {
            BinlogEvent::XAPREPARELOGEVENT
        } else {
            BinlogEvent::UNKNOWNEVENT
        }
    }
}

/// The unsigned integer in bytes `pos .. pos + n` of `b`, little-endian.
pub open spec fn le_at(b: Seq<u8>, pos: int, n: int) -> nat {
    le_bytes(b.subrange(pos, pos + n))
}

/// Decoded 19-byte event header.
#[derive(Clone, Copy, PartialEq, Eq, Structural, Debug)]
pub struct EventHeader {
    pub when: u32,
    pub type_code: BinlogEvent,
    pub server_id: u32,
    pub event_length: u32,
    pub header_length: u8,
    pub next_position: u32,
    pub flags: u16,
}

impl EventHeader {
    /// Payload length implied by the header; meaningful only when
    /// `event_length >= header_length` (the header invariant).
    pub open spec fn spec_payload_len(self) -> int {
        self.event_length - self.header_length
    }

    /// Decode a header from exactly its first 19 bytes.
    pub fn new(buf: &[u8]) -> (r: EventHeader)
        requires
            buf@.len() >= 19,
        ensures
            r.when == le_at(buf@, 0, 4),
            r.type_code == spec_event_type(buf@[4]),
            r.server_id == le_at(buf@, 5, 4),
            r.event_length == le_at(buf@, 9, 4),
            r.header_length == 19,
            r.next_position == le_at(buf@, 13, 4),
            r.flags == le_at(buf@, 17, 2),
    {
        let when = readvalue::read_u32(buf);
        let type_code = BinlogEvent::from_type_code(buf[4]);
        let server_id = readvalue::read_u32(&buf[5..buf.len()]);
        let event_length = readvalue::read_u32(&buf[9..buf.len()]);
        let next_position = readvalue::read_u32(&buf[13..buf.len()]);
        let flags = readvalue::read_u16(&buf[17..buf.len()]);
        proof {
            let b = buf@;
            assert(b.subrange(0, b.len() as int).subrange(0, 4) =~= b.subrange(0, 4));
            assert(b.subrange(5, b.len() as int).subrange(0, 4) =~= b.subrange(5, 9));
            assert(b.subrange(9, b.len() as int).subrange(0, 4) =~= b.subrange(9, 13));
            assert(b.subrange(13, b.len() as int).subrange(0, 4) =~= b.subrange(13, 17));
            assert(b.subrange(17, b.len() as int).subrange(0, 2) =~= b.subrange(17, 19));
        }
        EventHeader {
            when,
            type_code,
            server_id,
            event_length,
            header_length: HEADER_LENGTH,
            next_position,
            flags,
        }
    }
}

/// Transaction-opening GTID marker.
#[derive(Clone, Debug)]
pub struct GtidEvent {
    pub flags: u8,
    pub uuid: Vec<u8>,
    pub gno: u64,
}

impl GtidEvent {
    /// Decode from the event payload; a short payload yields zeroes.
    pub fn read_event(payload: &[u8]) -> (r: GtidEvent)
        ensures
            payload@.len() >= 25 ==> r.flags == payload@[0] && r.uuid@ == payload@.subrange(1, 17)
                && r.gno == le_at(payload@, 17, 8),
            payload@.len() < 25 ==> r.flags == 0 && r.uuid@.len() == 0 && r.gno == 0,
    {
        if payload.len() >= 25 {
            let flags = payload[0];
            let uuid_slice = &payload[1..17];
            let mut uuid: Vec<u8> = Vec::new();
            uuid.extend_from_slice(uuid_slice);
            let gno = readvalue::read_u64(&payload[17..payload.len()]);
            proof {
                let b = payload@;
                assert(b.subrange(17, b.len() as int).subrange(0, 8) =~= b.subrange(17, 25));
                assert(uuid@ =~= b.subrange(1, 17));
            }
            GtidEvent { flags, uuid, gno }
        } else {
            GtidEvent { flags: 0, uuid: Vec::new(), gno: 0 }
        }
    }
}

/// Transaction-opening query statement event.
#[derive(Clone, Debug)]
pub struct QueryEvent {
    pub thread_id: u32,
    pub exec_time: u32,
    pub error_code: u16,
}

impl QueryEvent {
    /// Decode the fixed part of the payload; a short payload yields zeroes.
    pub fn read_event(payload: &[u8]) -> (r: QueryEvent)
        ensures
            payload@.len() >= 13 ==> r.thread_id == le_at(payload@, 0, 4) && r.exec_time == le_at(
                payload@,
                4,
                4,
            ) && r.error_code == le_at(payload@, 9, 2),
            payload@.len() < 13 ==> r.thread_id == 0 && r.exec_time == 0 && r.error_code == 0,
    {
        if payload.len() >= 13 {
            let thread_id = readvalue::read_u32(payload);
            let exec_time = readvalue::read_u32(&payload[4..payload.len()]);
            let error_code = readvalue::read_u16(&payload[9..payload.len()]);
            proof {
                let b = payload@;
                assert(b.subrange(0, b.len() as int).subrange(0, 4) =~= b.subrange(0, 4));
                assert(b.subrange(4, b.len() as int).subrange(0, 4) =~= b.subrange(4, 8));
                assert(b.subrange(9, b.len() as int).subrange(0, 2) =~= b.subrange(9, 11));
            }
            QueryEvent { thread_id, exec_time, error_code }
        } else {
            QueryEvent { thread_id: 0, exec_time: 0, error_code: 0 }
        }
    }
}

/// Transaction commit marker.
#[derive(Clone, Copy, PartialEq, Eq, Structural, Debug)]
pub struct XidEvent {
    pub xid: u64,
}

impl XidEvent {
    /// Decode from the event payload; a short payload yields zero.
    pub fn read_event(payload: &[u8]) -> (r: XidEvent)
        ensures
            payload@.len() >= 8 ==> r.xid == le_at(payload@, 0, 8),
            payload@.len() < 8 ==> r.xid == 0,
    {
        if payload.len() >= 8 {
            let xid = readvalue::read_u64(payload);
            proof {
                let b = payload@;
                assert(b.subrange(0, b.len() as int).subrange(0, 8) =~= b.subrange(0, 8));
            }
            XidEvent { xid }
        } else {
            XidEvent { xid: 0 }
        }
    }
}

/// Log rotation: the stream continues in the named next file.
#[derive(Clone, Debug)]
pub struct RotateLog {
    pub position: u64,
    pub binlog_file: String,
}

impl RotateLog {
    /// Decode from the event payload: an 8-byte start offset, then the next
    /// file's name in the remaining bytes.
    pub fn read_event(payload: &[u8]) -> (r: RotateLog)
        ensures
            payload@.len() >= 8 ==> r.position == le_at(payload@, 0, 8) && r.binlog_file@
                == readvalue::utf8_lossy_of(payload@.subrange(8, payload@.len() as int)),
            payload@.len() < 8 ==> r.position == 0 && r.binlog_file@ == readvalue::utf8_lossy_of(
                payload@,
            ),
    {
        if payload.len() >= 8 {
            let position = readvalue::read_u64(payload);
            let binlog_file = readvalue::read_string_value(&payload[8..payload.len()]);
            proof {
                let b = payload@;
                assert(b.subrange(0, b.len() as int).subrange(0, 8) =~= b.subrange(0, 8));
            }
            RotateLog { position, binlog_file }
        } else {
            RotateLog { position: 0, binlog_file: readvalue::read_string_value(payload) }
        }
    }
}

/// Table map: names the table whose row events follow.
#[derive(Clone, Debug)]
pub struct TableMap {
    pub table_id: u64,
    pub database_name: String,
    pub table_name: String,
}

impl TableMap {
    /// A fresh table map naming no table.
    pub fn new() -> (r: TableMap)
        ensures
            r.table_id == 0,
            r.database_name@.len() == 0,
            r.table_name@.len() == 0,
    {
        TableMap { table_id: 0, database_name: String::new(), table_name: String::new() }
    }

    /// Whether the payload is long enough to carry both zero-terminated
    /// names.
    pub open spec fn spec_well_formed(b: Seq<u8>) -> bool {
        &&& b.len() >= 11
        &&& b.len() >= 11 + b[8]
        &&& b.len() >= 11 + b[8] + b[10 + b[8]] + 1
    }

    /// The database name bytes of a well-formed payload.
    pub open spec fn spec_database_bytes(b: Seq<u8>) -> Seq<u8> {
        b.subrange(9, 9 + b[8])
    }

    /// The table name bytes of a well-formed payload.
    pub open spec fn spec_table_bytes(b: Seq<u8>) -> Seq<u8> {
        b.subrange(11 + b[8], 11 + b[8] + b[10 + b[8]])
    }

    /// Decode from the event payload: a 6-byte table id, 2 flag bytes, then
    /// the length-prefixed, zero-terminated database and table names.  A
    /// malformed payload yields the empty table map.
    pub fn read_event(payload: &[u8]) -> (r: TableMap)
        ensures
            Self::spec_well_formed(payload@) ==> r.table_id == le_at(payload@, 0, 6)
                && r.database_name@ == readvalue::utf8_lossy_of(Self::spec_database_bytes(payload@))
                && r.table_name@ == readvalue::utf8_lossy_of(Self::spec_table_bytes(payload@)),
            !Self::spec_well_formed(payload@) ==> r.table_id == 0 && r.database_name@.len() == 0
                && r.table_name@.len() == 0,
    {
        if payload.len() < 11 {
            return TableMap::new();
        }
        let db_len = payload[8] as usize;
        if payload.len() < 11 + db_len {
            return TableMap::new();
        }
        let tbl_len = payload[10 + db_len] as usize;
        if payload.len() < 11 + db_len + tbl_len + 1 {
            return TableMap::new();
        }
        let table_id_low = readvalue::read_u32(payload);
        let table_id_high = readvalue::read_u16(&payload[4..payload.len()]);
        let table_id: u64 = table_id_low as u64 + (table_id_high as u64) * 0x1_0000_0000;
        let database_name = readvalue::read_string_value(&payload[9..9 + db_len]);
        let table_name = readvalue::read_string_value(&payload[11 + db_len..11 + db_len + tbl_len]);
        proof {
            let b = payload@;
            assert(b.subrange(0, b.len() as int).subrange(0, 4) =~= b.subrange(0, 4));
            assert(b.subrange(4, b.len() as int).subrange(0, 2) =~= b.subrange(4, 6));
            lemma_le_six(b.subrange(0, 6));
            assert(b.subrange(0, 6).subrange(0, 4) =~= b.subrange(0, 4));
            assert(b.subrange(0, 6).drop_first().drop_first().drop_first().drop_first()
                =~= b.subrange(4, 6));
        }
        TableMap { table_id, database_name, table_name }
    }
}

proof fn lemma_le_six(s: Seq<u8>)
    requires
        s.len() == 6,
    ensures
        le_bytes(s) == le_bytes(s.subrange(0, 4)) + le_bytes(
            s.drop_first().drop_first().drop_first().drop_first(),
        ) * 0x1_0000_0000,
{
    reveal_with_fuel(le_bytes, 7);
    assert(s.subrange(0, 4).drop_first() =~= s.drop_first().subrange(0, 3));
    assert(s.drop_first().subrange(0, 3).drop_first() =~= s.drop_first().drop_first().subrange(
        0,
        2,
    ));
    assert(s.drop_first().drop_first().subrange(0, 2).drop_first()
        =~= s.drop_first().drop_first().drop_first().subrange(0, 1));
    assert(s.drop_first().drop_first().drop_first().subrange(0, 1).drop_first() =~= Seq::<
        u8,
    >::empty());
    assert(s.subrange(0, 4)[0] == s[0]);
}

} // verus!
