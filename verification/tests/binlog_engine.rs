//! End-to-end tests of the binlog engine: event decoding, SQL synthesis,
//! rollback synthesis, transaction sealing and rotation.

use mymha_client::binlog::getsql::{get_set_str, get_where_str, out_delete, out_insert, out_update};
use mymha_client::binlog::parsevalue::{decode_value, MySQLValue, RowValue};
use mymha_client::binlog::readbinlog::{parse, parse_events, BinlogError, LogDirectory, LogFile};
use mymha_client::binlog::readevent::{BinlogEvent, EventHeader, RotateLog, TableMap};
use mymha_client::binlog::rollback::{rollback_row_event, swap_pairs};
use mymha_client::meta::{ColumnDescriptor, SchemaCatalog, SqlKind, TableSchema};

fn le32(v: u32) -> [u8; 4] {
    [(v & 0xff) as u8, ((v >> 8) & 0xff) as u8, ((v >> 16) & 0xff) as u8, ((v >> 24) & 0xff) as u8]
}

fn event(type_code: u8, payload: &[u8]) -> Vec<u8> {
    let mut b: Vec<u8> = Vec::new();
    b.extend_from_slice(&le32(0));
    b.push(type_code);
    b.extend_from_slice(&le32(1));
    b.extend_from_slice(&le32(19 + payload.len() as u32));
    b.extend_from_slice(&le32(0));
    b.extend_from_slice(&[0, 0]);
    b.extend_from_slice(payload);
    b
}

fn table_map_payload(db: &str, tbl: &str) -> Vec<u8> {
    let mut p: Vec<u8> = Vec::new();
    p.extend_from_slice(&[7, 0, 0, 0, 0, 0]);
    p.extend_from_slice(&[1, 0]);
    p.push(db.len() as u8);
    p.extend_from_slice(db.as_bytes());
    p.push(0);
    p.push(tbl.len() as u8);
    p.extend_from_slice(tbl.as_bytes());
    p.push(0);
    p
}

/// Row-event payload: table id, flags, extra-data length, packed column
/// count, columns-present bitmaps, then the given image bytes.
fn row_payload(col_count: u8, bitmaps: usize, images: &[u8]) -> Vec<u8> {
    let mut p: Vec<u8> = Vec::new();
    p.extend_from_slice(&[7, 0, 0, 0, 0, 0]);
    p.extend_from_slice(&[1, 0]);
    p.extend_from_slice(&[2, 0]);
    p.push(col_count);
    for _ in 0..bitmaps {
        p.push(0xff);
    }
    p.extend_from_slice(images);
    p
}

fn schema_t1_pk() -> TableSchema {
    TableSchema {
        database_name: "db".to_string(),
        table_name: "t1".to_string(),
        columns: vec![
            ColumnDescriptor {
                name: "id".to_string(),
                sql_type: SqlKind::Long,
                is_primary_key: true,
            },
            ColumnDescriptor {
                name: "v".to_string(),
                sql_type: SqlKind::VarChar,
                is_primary_key: false,
            },
        ],
    }
}

fn schema_t1_no_pk() -> TableSchema {
    let mut s = schema_t1_pk();
    s.columns[0].is_primary_key = false;
    s
}

fn catalog() -> SchemaCatalog {
    SchemaCatalog { tables: vec![schema_t1_pk()] }
}

fn no_dir() -> LogDirectory {
    LogDirectory { files: Vec::new() }
}

/// Image bytes for a `(id, 'x')` row of `t1`: null bitmap, 4-byte
/// little-endian id, packed-length text.
fn image(id: u32, v: &str) -> Vec<u8> {
    let mut b: Vec<u8> = vec![0x00];
    b.extend_from_slice(&le32(id));
    b.push(v.len() as u8);
    b.extend_from_slice(v.as_bytes());
    b
}

fn write_stream() -> Vec<u8> {
    let mut stream = event(19, &table_map_payload("db", "t1"));
    stream.extend_from_slice(&event(30, &row_payload(2, 1, &image(1, "a"))));
    stream.extend_from_slice(&event(16, &[9, 0, 0, 0, 0, 0, 0, 0]));
    stream
}

#[test]
fn write_event_forward_and_rollback_sql() {
    let stream = write_stream();
    let size = stream.len() as u64;
    let r = parse(&catalog(), &no_dir(), &stream, size, false).unwrap();
    assert_eq!(r.error, "");
    assert_eq!(r.sqls.len(), 1);
    assert_eq!(r.sqls[0].cur_sql, vec!["INSERT INTO db.t1 (id,v) VALUES (1,'a');".to_string()]);
    assert_eq!(r.sqls[0].rollback_sql, vec!["DELETE FROM db.t1 WHERE id=1;".to_string()]);
}

#[test]
fn update_event_forward_and_rollback_sql() {
    let mut images = image(1, "a");
    images.extend_from_slice(&image(1, "b"));
    let mut stream = event(19, &table_map_payload("db", "t1"));
    stream.extend_from_slice(&event(31, &row_payload(2, 2, &images)));
    stream.extend_from_slice(&event(16, &[9, 0, 0, 0, 0, 0, 0, 0]));
    let size = stream.len() as u64;
    let r = parse(&catalog(), &no_dir(), &stream, size, false).unwrap();
    assert_eq!(r.error, "");
    assert_eq!(r.sqls.len(), 1);
    assert_eq!(
        r.sqls[0].cur_sql,
        vec!["UPDATE db.t1 SET id=1,v='b' WHERE id=1;".to_string()]
    );
    assert_eq!(
        r.sqls[0].rollback_sql,
        vec!["UPDATE db.t1 SET id=1,v='a' WHERE id=1;".to_string()]
    );
}

#[test]
fn delete_event_sql() {
    let mut stream = event(19, &table_map_payload("db", "t1"));
    stream.extend_from_slice(&event(32, &row_payload(2, 1, &image(7, "z"))));
    stream.extend_from_slice(&event(16, &[9, 0, 0, 0, 0, 0, 0, 0]));
    let size = stream.len() as u64;
    let r = parse(&catalog(), &no_dir(), &stream, size, false).unwrap();
    assert_eq!(r.sqls.len(), 1);
    assert_eq!(r.sqls[0].cur_sql, vec!["DELETE FROM db.t1 WHERE id=7;".to_string()]);
    assert_eq!(r.sqls[0].rollback_sql, vec!["INSERT INTO db.t1 (id,v) VALUES (7,'z');".to_string()]);
}

#[test]
fn sealed_count_equals_xid_count() {
    let mut stream: Vec<u8> = Vec::new();
    for i in 0..3u32 {
        stream.extend_from_slice(&event(19, &table_map_payload("db", "t1")));
        stream.extend_from_slice(&event(30, &row_payload(2, 1, &image(i, "a"))));
        stream.extend_from_slice(&event(16, &[i as u8, 0, 0, 0, 0, 0, 0, 0]));
    }
    let size = stream.len() as u64;
    let r = parse(&catalog(), &no_dir(), &stream, size, false).unwrap();
    assert_eq!(r.sqls.len(), 3);
}

#[test]
fn unsealed_transaction_is_not_emitted() {
    let mut stream = event(19, &table_map_payload("db", "t1"));
    stream.extend_from_slice(&event(30, &row_payload(2, 1, &image(1, "a"))));
    // no Xid: the in-flight transaction is incomplete by definition
    let size = stream.len() as u64;
    let r = parse(&catalog(), &no_dir(), &stream, size, false).unwrap();
    assert_eq!(r.sqls.len(), 0);
    assert_eq!(r.error, "");
}

#[test]
fn unknown_table_aborts_and_discards() {
    let mut stream = event(19, &table_map_payload("db", "t1"));
    stream.extend_from_slice(&event(30, &row_payload(2, 1, &image(1, "a"))));
    stream.extend_from_slice(&event(16, &[9, 0, 0, 0, 0, 0, 0, 0]));
    stream.extend_from_slice(&event(19, &table_map_payload("db", "missing")));
    let size = stream.len() as u64;
    let r = parse(&catalog(), &no_dir(), &stream, size, false).unwrap();
    assert!(r.error.contains("missing"));
    assert_eq!(r.sqls.len(), 0);
}

#[test]
fn short_stream_is_an_error() {
    let mut stream = event(19, &table_map_payload("db", "t1"));
    stream.truncate(stream.len() - 3);
    let size = stream.len() as u64;
    let r = parse(&catalog(), &no_dir(), &stream, size, false);
    assert!(matches!(r, Err(BinlogError::ShortRead { .. })));
}

#[test]
fn rotation_chains_into_named_file() {
    // file A: one sealed transaction, then a rotate to b.000002
    let mut a = write_stream();
    let mut rotate_payload: Vec<u8> = vec![4, 0, 0, 0, 0, 0, 0, 0];
    rotate_payload.extend_from_slice(b"b.000002");
    a.extend_from_slice(&event(4, &rotate_payload));

    // file B: 4 magic bytes, then one Xid-terminated transaction
    let mut b: Vec<u8> = vec![0xfe, 0x62, 0x69, 0x6e];
    b.extend_from_slice(&event(19, &table_map_payload("db", "t1")));
    b.extend_from_slice(&event(30, &row_payload(2, 1, &image(2, "q"))));
    b.extend_from_slice(&event(16, &[2, 0, 0, 0, 0, 0, 0, 0]));

    let dir = LogDirectory {
        files: vec![LogFile { name: "b.000002".to_string(), data: b }],
    };
    let size = a.len() as u64;
    let r = parse(&catalog(), &dir, &a, size, false).unwrap();
    assert_eq!(r.error, "");
    assert_eq!(r.sqls.len(), 2);
    assert_eq!(r.sqls[0].cur_sql, vec!["INSERT INTO db.t1 (id,v) VALUES (1,'a');".to_string()]);
    assert_eq!(r.sqls[1].cur_sql, vec!["INSERT INTO db.t1 (id,v) VALUES (2,'q');".to_string()]);
}

#[test]
fn rotation_to_missing_file_is_an_error() {
    let mut a = write_stream();
    let mut rotate_payload: Vec<u8> = vec![4, 0, 0, 0, 0, 0, 0, 0];
    rotate_payload.extend_from_slice(b"gone.log");
    a.extend_from_slice(&event(4, &rotate_payload));
    let size = a.len() as u64;
    let r = parse(&catalog(), &no_dir(), &a, size, false);
    assert!(matches!(r, Err(BinlogError::RotateTargetMissing { .. })));
}

#[test]
fn rollback_buffer_rewrite_is_involutive() {
    let e = event(30, &row_payload(2, 1, &image(1, "a")));
    let once = rollback_row_event(&e);
    assert_eq!(once[4], 32);
    let twice = rollback_row_event(&once);
    assert_eq!(twice, e);
}

#[test]
fn update_pair_swap_is_involutive() {
    let rows = vec![
        vec![Some(MySQLValue::SignedInteger(1))],
        vec![Some(MySQLValue::SignedInteger(2))],
        vec![Some(MySQLValue::SignedInteger(3))],
        vec![Some(MySQLValue::SignedInteger(4))],
    ];
    let swapped = swap_pairs(rows.clone());
    assert!(matches!(swapped[0][0], Some(MySQLValue::SignedInteger(2))));
    assert!(matches!(swapped[1][0], Some(MySQLValue::SignedInteger(1))));
    let back = swap_pairs(swapped);
    for i in 0..4 {
        match (&back[i][0], &rows[i][0]) {
            (Some(MySQLValue::SignedInteger(x)), Some(MySQLValue::SignedInteger(y))) => {
                assert_eq!(x, y)
            }
            _ => panic!("unexpected value"),
        }
    }
}

#[test]
fn pk_predicate_has_only_key_conjuncts() {
    let schema = schema_t1_pk();
    let row = vec![
        Some(MySQLValue::SignedInteger(1)),
        Some(MySQLValue::Text("a".to_string())),
    ];
    let w = get_where_str(&row, &schema);
    assert_eq!(w, " WHERE id=1;");
}

#[test]
fn no_pk_predicate_uses_every_column() {
    let schema = schema_t1_no_pk();
    let row = vec![
        Some(MySQLValue::SignedInteger(1)),
        Some(MySQLValue::Text("a".to_string())),
    ];
    let w = get_where_str(&row, &schema);
    assert_eq!(w, " WHERE id=1 AND v='a';");
}

#[test]
fn null_renders_is_null_in_predicate_and_null_in_set() {
    let schema = schema_t1_no_pk();
    let row = vec![Some(MySQLValue::SignedInteger(1)), None];
    let w = get_where_str(&row, &schema);
    assert_eq!(w, " WHERE id=1 AND v IS NULL;");
    let s = get_set_str(&row, &schema);
    assert_eq!(s, "id=1,v=Null");
}

#[test]
fn out_insert_update_delete_render() {
    let schema = schema_t1_pk();
    let before = vec![
        Some(MySQLValue::SignedInteger(1)),
        Some(MySQLValue::Text("a".to_string())),
    ];
    let after = vec![
        Some(MySQLValue::SignedInteger(1)),
        Some(MySQLValue::Text("b".to_string())),
    ];
    assert_eq!(out_insert(&before, &schema), "INSERT INTO db.t1 (id,v) VALUES (1,'a');");
    assert_eq!(out_delete(&before, &schema), "DELETE FROM db.t1 WHERE id=1;");
    assert_eq!(out_update(&before, &after, &schema), "UPDATE db.t1 SET id=1,v='b' WHERE id=1;");
}

#[test]
fn header_decode() {
    let e = event(30, &[1, 2, 3]);
    let h = EventHeader::new(&e);
    assert!(matches!(h.type_code, BinlogEvent::WriteEvent));
    assert_eq!(h.event_length, 22);
    assert_eq!(h.header_length, 19);
    assert_eq!(h.server_id, 1);
}

#[test]
fn table_map_decode() {
    let p = table_map_payload("db", "t1");
    let tm = TableMap::read_event(&p);
    assert_eq!(tm.database_name, "db");
    assert_eq!(tm.table_name, "t1");
    assert_eq!(tm.table_id, 7);
}

#[test]
fn rotate_decode() {
    let mut p: Vec<u8> = vec![4, 0, 0, 0, 0, 0, 0, 0];
    p.extend_from_slice(b"next.log");
    let r = RotateLog::read_event(&p);
    assert_eq!(r.position, 4);
    assert_eq!(r.binlog_file, "next.log");
}

#[test]
fn parse_events_reports_rotate_target() {
    let mut a = write_stream();
    let mut rotate_payload: Vec<u8> = vec![4, 0, 0, 0, 0, 0, 0, 0];
    rotate_payload.extend_from_slice(b"b.000002");
    a.extend_from_slice(&event(4, &rotate_payload));
    let size = a.len() as u64;
    let (rs, rot) = parse_events(&catalog(), &a, 0, size, false).unwrap();
    assert_eq!(rs.sqls.len(), 1);
    let rl = rot.expect("rotate expected");
    assert_eq!(rl.binlog_file, "b.000002");
}

#[test]
fn file_mode_tolerates_trailing_partial_header() {
    let mut stream = write_stream();
    stream.extend_from_slice(&[0u8; 10]);
    let size = stream.len() as u64;
    let r = parse(&catalog(), &no_dir(), &stream, size, true).unwrap();
    assert_eq!(r.sqls.len(), 1);
}

#[test]
fn decode_signed_and_null_columns() {
    let schema = schema_t1_pk();
    // null bitmap marks column 1 (v) NULL
    let mut img: Vec<u8> = vec![0x02];
    img.extend_from_slice(&le32(5));
    let payload = row_payload(2, 1, &img);
    let rv = RowValue::read_row_value(&payload, &schema, BinlogEvent::WriteEvent).unwrap();
    assert_eq!(rv.rows.len(), 1);
    assert!(matches!(rv.rows[0][0], Some(MySQLValue::SignedInteger(5))));
    assert!(rv.rows[0][1].is_none());
}

#[test]
fn decode_negative_integer() {
    let b: Vec<u8> = vec![0xfe, 0xff, 0xff, 0xff];
    let (v, p) = decode_value(&b, 0, SqlKind::Long).unwrap();
    assert_eq!(p, 4);
    assert!(matches!(v, MySQLValue::SignedInteger(-2)));
}

#[test]
fn decode_decimal_value() {
    // DECIMAL(5,2) storing 123.45: two integer-part bytes, one fraction
    // byte, sign bit set on the first byte for a positive value
    let b: Vec<u8> = vec![0x80, 0x7b, 0x2d];
    let (v, p) = decode_value(&b, 0, SqlKind::Decimal { precision: 5, scale: 2 }).unwrap();
    assert_eq!(p, 3);
    match v {
        MySQLValue::Decimal(s) => assert_eq!(s, "123.45"),
        _ => panic!("expected a decimal"),
    }
}

#[test]
fn decode_negative_decimal_value() {
    let b: Vec<u8> = vec![!0x80u8, !0x7bu8, !0x2du8];
    let (v, _) = decode_value(&b, 0, SqlKind::Decimal { precision: 5, scale: 2 }).unwrap();
    match v {
        MySQLValue::Decimal(s) => assert_eq!(s, "-123.45"),
        _ => panic!("expected a decimal"),
    }
}

#[test]
fn decode_temporals() {
    // DATE 2024-03-07: day | month<<5 | year<<9
    let v: u32 = 7 | (3 << 5) | (2024 << 9);
    let b = vec![(v & 0xff) as u8, ((v >> 8) & 0xff) as u8, ((v >> 16) & 0xff) as u8];
    let (d, _) = decode_value(&b, 0, SqlKind::Date).unwrap();
    match d {
        MySQLValue::Date { year, month, day } => {
            assert_eq!((year, month, day), (2024, 3, 7));
        }
        _ => panic!("expected a date"),
    }

    let (y, _) = decode_value(&vec![124u8], 0, SqlKind::Year).unwrap();
    assert!(matches!(y, MySQLValue::Year(2024)));
}

#[test]
fn blob_renders_hex_or_null() {
    let schema = TableSchema {
        database_name: "db".to_string(),
        table_name: "t2".to_string(),
        columns: vec![ColumnDescriptor {
            name: "b".to_string(),
            sql_type: SqlKind::Blob { texty: false },
            is_primary_key: false,
        }],
    };
    let row = vec![Some(MySQLValue::Blob(vec![0xde, 0xad]))];
    assert_eq!(out_insert(&row, &schema), "INSERT INTO db.t2 (b) VALUES (0xdead);");
    let empty = vec![Some(MySQLValue::Blob(Vec::new()))];
    assert_eq!(out_insert(&empty, &schema), "INSERT INTO db.t2 (b) VALUES (Null);");
    assert_eq!(get_where_str(&empty, &schema), " WHERE b IS NULL;");
}

#[test]
fn double_and_float_render_through_their_bits() {
    let schema = TableSchema {
        database_name: "db".to_string(),
        table_name: "t3".to_string(),
        columns: vec![ColumnDescriptor {
            name: "d".to_string(),
            sql_type: SqlKind::Double,
            is_primary_key: false,
        }],
    };
    let bits = 1.5f64.to_bits();
    let row = vec![Some(MySQLValue::Double(bits))];
    assert_eq!(out_insert(&row, &schema), "INSERT INTO db.t3 (d) VALUES (1.5);");
    let frow = vec![Some(MySQLValue::Float(2.25f32.to_bits()))];
    assert_eq!(out_insert(&frow, &schema), "INSERT INTO db.t3 (d) VALUES (2.25);");
}

#[test]
fn json_renders_decoded_tree() {
    let schema = TableSchema {
        database_name: "db".to_string(),
        table_name: "t4".to_string(),
        columns: vec![ColumnDescriptor {
            name: "j".to_string(),
            sql_type: SqlKind::Json,
            is_primary_key: false,
        }],
    };
    // binary JSON literal `true`: type byte 0x04, literal byte 0x01
    let row = vec![Some(MySQLValue::Json(vec![0x04, 0x01]))];
    assert_eq!(out_insert(&row, &schema), "INSERT INTO db.t4 (j) VALUES ('true');");
}

#[test]
fn rollback_order_reverses_transactions() {
    let mut stream: Vec<u8> = Vec::new();
    for i in 0..2u32 {
        stream.extend_from_slice(&event(19, &table_map_payload("db", "t1")));
        stream.extend_from_slice(&event(30, &row_payload(2, 1, &image(i, "a"))));
        stream.extend_from_slice(&event(16, &[i as u8, 0, 0, 0, 0, 0, 0, 0]));
    }
    let size = stream.len() as u64;
    let r = parse(&catalog(), &no_dir(), &stream, size, false).unwrap();
    let order = r.rollback_order();
    assert_eq!(order.len(), 2);
    assert_eq!(order[0], r.sqls[1].rollback_sql);
    assert_eq!(order[1], r.sqls[0].rollback_sql);
}

#[test]
fn decode_varchar_markers() {
    // 1-byte length marker
    let b: Vec<u8> = vec![3, b'a', b'b', b'c'];
    let (v, p) = decode_value(&b, 0, SqlKind::VarChar).unwrap();
    assert_eq!(p, 4);
    assert!(matches!(v, MySQLValue::Text(ref s) if s == "abc"));

    // explicit empty marker
    let (v, p) = decode_value(&vec![0xfb], 0, SqlKind::VarChar).unwrap();
    assert_eq!(p, 1);
    assert!(matches!(v, MySQLValue::Text(ref s) if s.is_empty()));

    // 2-byte length marker
    let mut b: Vec<u8> = vec![0xfc, 2, 0];
    b.extend_from_slice(b"hi");
    let (v, p) = decode_value(&b, 0, SqlKind::VarChar).unwrap();
    assert_eq!(p, 5);
    assert!(matches!(v, MySQLValue::Text(ref s) if s == "hi"));
}

#[test]
fn decode_enum_value() {
    let b: Vec<u8> = vec![1, 2];
    let (v, p) = decode_value(&b, 0, SqlKind::Enum).unwrap();
    assert_eq!(p, 2);
    assert!(matches!(v, MySQLValue::Enum(2)));
}

#[test]
fn decode_packed_datetime() {
    // DATETIME2 packs year*13+month into 17 bits above day, hour, minute,
    // second; the five bytes are big-endian
    let ym: u64 = 2024 * 13 + 3;
    let packed: u64 = (ym << 22) | (7 << 17) | (15 << 12) | (30 << 6) | 45;
    let b: Vec<u8> = vec![
        ((packed >> 32) & 0xff) as u8,
        ((packed >> 24) & 0xff) as u8,
        ((packed >> 16) & 0xff) as u8,
        ((packed >> 8) & 0xff) as u8,
        (packed & 0xff) as u8,
    ];
    let (v, p) = decode_value(&b, 0, SqlKind::DateTime { fsp: 0 }).unwrap();
    assert_eq!(p, 5);
    match v {
        MySQLValue::DateTime { year, month, day, hour, minute, second, subsecond } => {
            assert_eq!(
                (year, month, day, hour, minute, second, subsecond),
                (2024, 3, 7, 15, 30, 45, 0)
            );
        }
        _ => panic!("expected a datetime"),
    }
}

#[test]
fn datetime_renders_quoted() {
    let schema = TableSchema {
        database_name: "db".to_string(),
        table_name: "t5".to_string(),
        columns: vec![ColumnDescriptor {
            name: "ts".to_string(),
            sql_type: SqlKind::DateTime { fsp: 0 },
            is_primary_key: false,
        }],
    };
    let row = vec![Some(MySQLValue::DateTime {
        year: 2024,
        month: 3,
        day: 7,
        hour: 15,
        minute: 30,
        second: 45,
        subsecond: 0,
    })];
    assert_eq!(
        out_insert(&row, &schema),
        "INSERT INTO db.t5 (ts) VALUES ('2024-3-7 15:30:45.0');"
    );
    let trow = vec![Some(MySQLValue::Time { hours: 1, minutes: 2, seconds: 3, subseconds: 4 })];
    assert_eq!(out_insert(&trow, &schema), "INSERT INTO db.t5 (ts) VALUES ('1:2:3.4');");
    let tsrow =
        vec![Some(MySQLValue::Timestamp { unix_time: 1700000000, subsecond: 5 })];
    assert_eq!(out_insert(&tsrow, &schema), "INSERT INTO db.t5 (ts) VALUES (1700000000.5);");
}

#[test]
fn text_blob_renders_quoted() {
    let schema = TableSchema {
        database_name: "db".to_string(),
        table_name: "t6".to_string(),
        columns: vec![ColumnDescriptor {
            name: "t".to_string(),
            sql_type: SqlKind::Blob { texty: true },
            is_primary_key: false,
        }],
    };
    let row = vec![Some(MySQLValue::Blob(b"hello".to_vec()))];
    assert_eq!(out_insert(&row, &schema), "INSERT INTO db.t6 (t) VALUES ('hello');");
}

#[test]
fn update_with_multiple_row_pairs() {
    let mut images = image(1, "a");
    images.extend_from_slice(&image(1, "b"));
    images.extend_from_slice(&image(2, "c"));
    images.extend_from_slice(&image(2, "d"));
    let mut stream = event(19, &table_map_payload("db", "t1"));
    stream.extend_from_slice(&event(31, &row_payload(2, 2, &images)));
    stream.extend_from_slice(&event(16, &[9, 0, 0, 0, 0, 0, 0, 0]));
    let size = stream.len() as u64;
    let r = parse(&catalog(), &no_dir(), &stream, size, false).unwrap();
    assert_eq!(r.sqls[0].cur_sql.len(), 2);
    assert_eq!(r.sqls[0].cur_sql[1], "UPDATE db.t1 SET id=2,v='d' WHERE id=2;");
    assert_eq!(r.sqls[0].rollback_sql[1], "UPDATE db.t1 SET id=2,v='c' WHERE id=2;");
}

#[test]
fn slice_mode_stops_at_declared_size() {
    let mut stream = write_stream();
    let size = stream.len() as u64;
    // a second transaction past the declared size bound is not read
    stream.extend_from_slice(&event(19, &table_map_payload("db", "t1")));
    stream.extend_from_slice(&event(30, &row_payload(2, 1, &image(9, "x"))));
    stream.extend_from_slice(&event(16, &[9, 0, 0, 0, 0, 0, 0, 0]));
    let r = parse(&catalog(), &no_dir(), &stream, size, false).unwrap();
    assert_eq!(r.sqls.len(), 1);
}

#[test]
fn etype_tags() {
    let mut r = mymha_client::binlog::readbinlog::RowsSql::new();
    assert_eq!(r.etype, "");
    r.set_rollback_etype();
    assert_eq!(r.etype, "rollback");
    r.set_append_etype();
    assert_eq!(r.etype, "append");
}
