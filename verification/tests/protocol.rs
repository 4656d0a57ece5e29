//! Tests of the protocol codecs, result-row decoding, and the state
//! records.

use mymha_client::io::command::{commquery, unpack_text_value, MetaColumn, TextRow};
use mymha_client::io::response::pack_header;
use mymha_client::io::socketio::PacketHeader;
use mymha_client::mysql::header;
use mymha_client::mysql::monitor::MysqlMonitorStatus;
use mymha_client::mysql::nodecheck::DownNodeCheckStatus;
use mymha_client::mysql::recovery::GetRecoveryInfo;
use mymha_client::mysql::state_check::MysqlState;
use mymha_client::mysql::{MyProtocol, MysqlPacketType};
use mymha_client::readvalue::{
    parse_usize, read_be, read_le, read_signed, read_string_value, read_u16, read_u24, read_u32,
    read_u64, u64_to_dec, u64_to_dec_padded, i64_to_dec, write_u16, write_u24, write_u32,
    write_u64,
};
use mymha_client::{Config, Opt};

fn row(pairs: &[(&str, &str)]) -> TextRow {
    TextRow {
        pairs: pairs.iter().map(|(k, v)| (k.to_string(), v.to_string())).collect(),
    }
}

#[test]
fn little_endian_readers() {
    let b = [0x01u8, 0x02, 0x03, 0x04, 0x05, 0x06, 0x07, 0x08];
    assert_eq!(read_u16(&b), 0x0201);
    assert_eq!(read_u24(&b), 0x030201);
    assert_eq!(read_u32(&b), 0x04030201);
    assert_eq!(read_u64(&b), 0x0807060504030201);
    assert_eq!(read_le(&b, 2, 3), 0x050403);
    assert_eq!(read_be(&b[..3], 3), 0x010203);
}

#[test]
fn signed_reader() {
    assert_eq!(read_signed(&[0xff], 0, 1), -1);
    assert_eq!(read_signed(&[0x80], 0, 1), -128);
    assert_eq!(read_signed(&[0x7f], 0, 1), 127);
    assert_eq!(read_signed(&[0xfe, 0xff], 0, 2), -2);
    assert_eq!(read_signed(&[0, 0, 0, 0, 0, 0, 0, 0x80], 0, 8), i64::MIN);
}

#[test]
fn writers_round_trip() {
    let b = write_u64(0x1122334455667788);
    assert_eq!(read_u64(&b), 0x1122334455667788);
    let c = write_u24(0x030201);
    assert_eq!(c, vec![0x01, 0x02, 0x03]);
    assert_eq!(read_u16(&write_u16(0xbeef)), 0xbeef);
    assert_eq!(read_u32(&write_u32(0xdeadbeef)), 0xdeadbeef);
}

#[test]
fn decimal_text_rendering() {
    assert_eq!(u64_to_dec(0), "0");
    assert_eq!(u64_to_dec(90210), "90210");
    assert_eq!(u64_to_dec_padded(7, 3), "007");
    assert_eq!(i64_to_dec(-42), "-42");
    assert_eq!(i64_to_dec(i64::MIN), "-9223372036854775808");
}

#[test]
fn numeral_parsing() {
    assert_eq!(parse_usize("0"), Some(0));
    assert_eq!(parse_usize("90210"), Some(90210));
    assert_eq!(parse_usize(""), None);
    assert_eq!(parse_usize("12a"), None);
    assert_eq!(parse_usize("-3"), None);
    assert_eq!(parse_usize("99999999999999999999999999"), None);
}

#[test]
fn lossy_text() {
    assert_eq!(read_string_value(b"abc"), "abc");
    assert_eq!(read_string_value(&[]), "");
}

#[test]
fn protocol_codes_round_trip() {
    for code in 0u8..=255 {
        let p = MyProtocol::new(&code);
        if !matches!(p, MyProtocol::UnKnow) {
            assert_eq!(p.get_code(), code);
        }
    }
    assert!(matches!(MyProtocol::new(&0xfe), MyProtocol::MysqlCheck));
    assert!(matches!(MyProtocol::new(&0x42), MyProtocol::UnKnow));
    assert_eq!(MyProtocol::UnKnow.get_code(), 0xff);
}

#[test]
fn packet_type_classification() {
    assert!(matches!(MysqlPacketType::new(255), MysqlPacketType::Error));
    assert!(matches!(MysqlPacketType::new(10), MysqlPacketType::Handshake));
    assert!(matches!(MysqlPacketType::new(0), MysqlPacketType::Okay));
    assert!(matches!(MysqlPacketType::new(0xfe), MysqlPacketType::EOF));
    assert!(matches!(MysqlPacketType::new(77), MysqlPacketType::Unknown));
}

#[test]
fn control_header_layout() {
    let h = header(0x09, 260);
    assert_eq!(h.len(), 9);
    assert_eq!(h[0], 0x09);
    assert_eq!(h[1], 4);
    assert_eq!(h[2], 1);
    assert_eq!(&h[3..], &[0, 0, 0, 0, 0, 0]);
}

#[test]
fn packet_framing() {
    let framed = pack_header(&[1, 2, 3, 4, 5], 7);
    assert_eq!(framed, vec![5, 0, 0, 7]);
    let ph = PacketHeader::new(&[5, 0, 0, 7]);
    assert_eq!(ph.payload, 5);
    assert_eq!(ph.seq_id, 7);
}

#[test]
fn commquery_packet() {
    let p = commquery(&"select 1".to_string());
    assert_eq!(p[0], 9);
    assert_eq!(&p[1..4], &[0, 0, 0]);
    assert_eq!(p[4], 3);
    assert_eq!(&p[5..], b"select 1");
}

#[test]
fn meta_column_decode() {
    let mut b: Vec<u8> = Vec::new();
    for field in ["def", "db", "t1", "t1", "id", "id"] {
        b.push(field.len() as u8);
        b.extend_from_slice(field.as_bytes());
    }
    b.push(0x0c);
    b.extend_from_slice(&[0x21, 0x00]);
    b.extend_from_slice(&[11, 0, 0, 0]);
    b.push(3);
    b.extend_from_slice(&[0x03, 0x42]);
    let col = MetaColumn::new(&b);
    assert_eq!(col.catalog, "def");
    assert_eq!(col.schema, "db");
    assert_eq!(col.table, "t1");
    assert_eq!(col.name, "id");
    assert_eq!(col.character_set, 0x21);
    assert_eq!(col.column_length, 11);
    assert_eq!(col.column_type, 3);
    assert_eq!(col.flag, 0x4203);
}

#[test]
fn text_row_decode() {
    let mut b: Vec<u8> = Vec::new();
    for field in ["def", "db", "t1", "t1", "id", "id"] {
        b.push(field.len() as u8);
        b.extend_from_slice(field.as_bytes());
    }
    b.push(0x0c);
    b.extend_from_slice(&[0x21, 0x00]);
    b.extend_from_slice(&[11, 0, 0, 0]);
    b.push(3);
    b.extend_from_slice(&[0x03, 0x42]);
    let col = MetaColumn::new(&b);

    let mut rowbytes: Vec<u8> = Vec::new();
    rowbytes.push(2);
    rowbytes.extend_from_slice(b"42");
    let row = unpack_text_value(&rowbytes, &vec![col]).unwrap();
    assert_eq!(row.pairs.len(), 1);
    assert_eq!(row.pairs[0].0, "id");
    assert_eq!(row.pairs[0].1, "42");
    assert_eq!(row.get(&"id".to_string()), Some(&"42".to_string()));
    assert_eq!(row.get(&"nope".to_string()), None);
}

#[test]
fn text_row_empty_marker() {
    let mut b: Vec<u8> = Vec::new();
    for field in ["def", "db", "t1", "t1", "v", "v"] {
        b.push(field.len() as u8);
        b.extend_from_slice(field.as_bytes());
    }
    b.push(0x0c);
    b.extend_from_slice(&[0x21, 0x00, 11, 0, 0, 0, 3, 0x03, 0x42]);
    let col = MetaColumn::new(&b);
    let row = unpack_text_value(&vec![0xfb], &vec![col]).unwrap();
    assert_eq!(row.pairs[0].1, "");
}

#[test]
fn slave_state_update() {
    let mut s = MysqlState::new();
    let r = row(&[
        ("Slave_IO_Running", "Yes"),
        ("Slave_SQL_Running", "No"),
        ("Seconds_Behind_Master", "12"),
        ("Master_Log_File", "mysql-bin.000001"),
        ("Read_Master_Log_Pos", "4096"),
        ("Exec_Master_Log_Pos", "2048"),
        ("Master_Host", "10.0.0.1"),
        ("Last_IO_Error", ""),
        ("Last_SQL_Error", ""),
    ]);
    s.update(&r).unwrap();
    assert_eq!(s.role, "slave");
    assert!(s.io_thread);
    assert!(!s.sql_thread);
    assert_eq!(s.seconds_behind, 12);
    assert_eq!(s.master_log_file, "mysql-bin.000001");
    assert_eq!(s.read_master_log_pos, 4096);
    assert_eq!(s.exec_master_log_pos, 2048);
    assert_eq!(s.master, "10.0.0.1");
}

#[test]
fn slave_state_update_bad_number_fails() {
    let mut s = MysqlState::new();
    let r = row(&[("Read_Master_Log_Pos", "four")]);
    assert!(s.update(&r).is_err());
}

#[test]
fn variable_update() {
    let mut s = MysqlState::new();
    let r = row(&[
        ("read_only", "1"),
        ("sync_binlog", "1"),
        ("innodb_flush_log_at_trx_commit", "2"),
        ("version", "8.0.32-debug"),
        ("server_id", "3"),
        ("event_scheduler", "ON"),
        ("innodb_buffer_pool_size", "134217728"),
    ]);
    s.update_variable(&r).unwrap();
    assert!(s.read_only);
    assert_eq!(s.sync_binlog, 1);
    assert_eq!(s.innodb_flush_log_at_trx_commit, 2);
    assert_eq!(s.version, "8.0.32");
    assert_eq!(s.server_id, 3);
    assert_eq!(s.event_scheduler, "ON");
    assert_eq!(s.innodb_buffer_pool_size, 134217728);
}

#[test]
fn variable_update_read_only_range() {
    let mut s = MysqlState::new();
    let r = row(&[("read_only", "300")]);
    assert!(s.update_variable(&r).is_err());
    let r = row(&[("read_only", "0")]);
    s.update_variable(&r).unwrap();
    assert!(!s.read_only);
}

#[test]
fn monitor_counters() {
    let mut m = MysqlMonitorStatus::new();
    let rows = vec![
        row(&[("Variable_name", "Com_insert"), ("Value", "5")]),
        row(&[("Variable_name", "Threads_running"), ("Value", "2")]),
        row(&[("Variable_name", "Something_else"), ("Value", "9")]),
    ];
    m.parse_value(&rows, 1700000000).unwrap();
    assert_eq!(m.com_insert, 5);
    assert_eq!(m.threads_running, 2);
    assert_eq!(m.time, 1700000000);
}

#[test]
fn monitor_bad_value_fails() {
    let mut m = MysqlMonitorStatus::new();
    let rows = vec![row(&[("Variable_name", "Com_insert"), ("Value", "five")])];
    assert!(m.parse_value(&rows, 0).is_err());
}

#[test]
fn recovery_info_state() {
    let mut g = GetRecoveryInfo::new();
    let rows = vec![row(&[
        ("File", "mysql-bin.000009"),
        ("Position", "777"),
        ("Executed_Gtid_Set", "uuid:1-5"),
    ])];
    g.get_state(&rows).unwrap();
    assert_eq!(g.binlog, "mysql-bin.000009");
    assert_eq!(g.position, 777);
    assert_eq!(g.gtid, "uuid:1-5");
}

#[test]
fn down_node_status() {
    let mut st = DownNodeCheckStatus::new("10.0.0.2:9011".to_string());
    assert!(st.client_status && st.db_status);
    st.set_client_status();
    st.set_db_status();
    assert!(!st.client_status && !st.db_status);
    assert_eq!(st.host, "10.0.0.2:9011");
}

fn full_opt() -> Opt {
    Opt {
        slowlog: false,
        audit: false,
        monitor: true,
        port: Some("9012".to_string()),
        user: Some("root".to_string()),
        password: Some("SECRET-REDACTED".to_string()),
        host: Some("127.0.0.1:3306".to_string()),
        repluser: Some("repl".to_string()),
        replpasswd: Some("SECRET-REDACTED".to_string()),
        binlogdir: None,
    }
}

#[test]
fn config_from_options() {
    let c = Config::new(full_opt()).unwrap();
    assert_eq!(c.port, 9012);
    assert_eq!(c.host_info, "127.0.0.1:3306");
    assert_eq!(c.user_name, "root");
    assert_eq!(c.binlogdir, "/usr/local/mysql/data");
    assert_eq!(c.program_name, "rust_test");
    let mut c2 = c.clone_new();
    assert_eq!(c2.host_info, c.host_info);
    c2.alter_host("10.0.0.9:3306".to_string());
    assert_eq!(c2.host_info, "10.0.0.9:3306");
    assert_eq!(c2.port, c.port);
}

#[test]
fn config_requires_each_credential() {
    let mut o = full_opt();
    o.repluser = None;
    assert!(Config::new(o).is_err());
    let mut o = full_opt();
    o.password = None;
    assert!(Config::new(o).is_err());
    let mut o = full_opt();
    o.host = None;
    assert!(Config::new(o).is_err());
}
