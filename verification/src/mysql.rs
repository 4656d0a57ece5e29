//! The agent's control protocol: packet type codes, framing, and the
//! response value shells the handlers exchange.

use vstd::prelude::*;
use crate::readvalue;
use crate::readvalue::le_bytes;

pub mod changemaster;
pub mod monitor;
pub mod nodecheck;
pub mod push_sql;
pub mod recovery;
pub mod state_check;
pub mod syncbinlog;

verus! {

/// Control protocol message kinds.
#[derive(Clone, Copy, PartialEq, Eq, Structural, Debug)]
pub enum MyProtocol {
    MysqlCheck,
    GetMonitor,
    GetSlowLog,
    GetAuditLog,
    SetMaster,
    ChangeMaster,
    PullBinlog,
    PushBinlog,
    RecoveryCluster,
    GetRecoveryInfo,
    RecoveryValue,
    ReplicationStatus,
    DownNodeCheck,
    Ping,
    SetVariables,
    RecoveryVariables,
    Command,
    Okay,
    Error,
    UnKnow,
}

/// Protocol kind denoted by a type code byte.
pub open spec fn spec_protocol_of(code: u8) -> MyProtocol {
    if code == 0xfe {
        MyProtocol::MysqlCheck
    } else if code == 0xfd {
        MyProtocol::GetMonitor
    } else if code == 0xfc {
        MyProtocol::GetSlowLog
    } else if code == 0xfb {
        MyProtocol::GetAuditLog
    } else if code == 0xfa {
        MyProtocol::SetMaster
    } else if code == 0xf9 {
        MyProtocol::ChangeMaster
    } else if code == 0xf8 {
        MyProtocol::PullBinlog
    } else if code == 0xf7 {
        MyProtocol::RecoveryCluster
    } else if code == 0x00 {
        MyProtocol::Okay
    } else if code == 0x09 {
        MyProtocol::Error
    } else if code == 0xf6 {
        MyProtocol::RecoveryValue
    } else if code == 0xf5 {
        MyProtocol::ReplicationStatus
    } else if code == 0xf4 {
        MyProtocol::DownNodeCheck
    } else if code == 0xf3 {
        MyProtocol::GetRecoveryInfo
    } else if code == 0x04 {
        MyProtocol::SetVariables
    } else if code == 0x03 {
        MyProtocol::RecoveryVariables
    } else if code == 0xf2 {
        MyProtocol::PushBinlog
    } else if code == 0x01 {
        MyProtocol::Ping
    } else if code == 0x05 {
        MyProtocol::Command
    } else {
        MyProtocol::UnKnow
    }
}

/// The type code byte of a protocol kind; `UnKnow` carries `0xff`.
pub open spec fn spec_code_of(p: MyProtocol) -> u8 {
    match p {
        MyProtocol::MysqlCheck => 0xfe,
        MyProtocol::GetMonitor => 0xfd,
        MyProtocol::GetSlowLog => 0xfc,
        MyProtocol::GetAuditLog => 0xfb,
        MyProtocol::SetMaster => 0xfa,
        MyProtocol::ChangeMaster => 0xf9,
        MyProtocol::PullBinlog => 0xf8,
        MyProtocol::PushBinlog => 0xf2,
        MyProtocol::RecoveryCluster => 0xf7,
        MyProtocol::Okay => 0x00,
        MyProtocol::Error => 0x09,
        MyProtocol::RecoveryValue => 0xf6,
        MyProtocol::ReplicationStatus => 0xf5,
        MyProtocol::DownNodeCheck => 0xf4,
        MyProtocol::GetRecoveryInfo => 0xf3,
        MyProtocol::SetVariables => 0x04,
        MyProtocol::RecoveryVariables => 0x03,
        MyProtocol::Ping => 0x01,
        MyProtocol::Command => 0x05,
        MyProtocol::UnKnow => 0xff,
    }
}

impl MyProtocol {
    /// Map a type code byte to its protocol kind; unknown codes map to
    /// `UnKnow`.
    pub fn new(code: &u8) -> (r: MyProtocol)
        ensures
            r == spec_protocol_of(*code),
    {
        if *code == 0xfe {
            MyProtocol::MysqlCheck
        } else if *code == 0xfd {
            MyProtocol::GetMonitor
        } else if *code == 0xfc {
            MyProtocol::GetSlowLog
        } else if *code == 0xfb {
            MyProtocol::GetAuditLog
        } else if *code == 0xfa {
            MyProtocol::SetMaster
        } else if *code == 0xf9 {
            MyProtocol::ChangeMaster
        } else if *code == 0xf8 {
            MyProtocol::PullBinlog
        } else if *code == 0xf7 {
            MyProtocol::RecoveryCluster
        } else if *code == 0x00 {
            MyProtocol::Okay
        } else if *code == 0x09 {
            MyProtocol::Error
        } else if *code == 0xf6 {
            MyProtocol::RecoveryValue
        } else if *code == 0xf5 {
            MyProtocol::ReplicationStatus
        } else if *code == 0xf4 {
            MyProtocol::DownNodeCheck
        } else if *code == 0xf3 {
            MyProtocol::GetRecoveryInfo
        } else if *code == 0x04 {
            MyProtocol::SetVariables
        } else if *code == 0x03 {
            MyProtocol::RecoveryVariables
        } else if *code == 0xf2 {
            MyProtocol::PushBinlog
        } else if *code == 0x01 {
            MyProtocol::Ping
        } else if *code == 0x05 {
            MyProtocol::Command
        } else {
            MyProtocol::UnKnow
        }
    }

    /// The type code byte this kind is sent as.
    pub fn get_code(&self) -> (r: u8)
        ensures
            r == spec_code_of(*self),
    {
        match self {
            MyProtocol::MysqlCheck => 0xfe,
            MyProtocol::GetMonitor => 0xfd,
            MyProtocol::GetSlowLog => 0xfc,
            MyProtocol::GetAuditLog => 0xfb,
            MyProtocol::SetMaster => 0xfa,
            MyProtocol::ChangeMaster => 0xf9,
            MyProtocol::PullBinlog => 0xf8,
            MyProtocol::PushBinlog => 0xf2,
            MyProtocol::RecoveryCluster => 0xf7,
            MyProtocol::Okay => 0x00,
            MyProtocol::Error => 0x09,
            MyProtocol::RecoveryValue => 0xf6,
            MyProtocol::ReplicationStatus => 0xf5,
            MyProtocol::DownNodeCheck => 0xf4,
            MyProtocol::GetRecoveryInfo => 0xf3,
            MyProtocol::SetVariables => 0x04,
            MyProtocol::RecoveryVariables => 0x03,
            MyProtocol::Ping => 0x01,
            MyProtocol::Command => 0x05,
            MyProtocol::UnKnow => 0xff,
        }
    }
}

/// First-byte classification of a server packet during the connection
/// handshake.
#[derive(Clone, Copy, PartialEq, Eq, Structural, Debug)]
pub enum MysqlPacketType {
    Okay,
    Error,
    Handshake,
    EOF,
    Unknown,
}

/// Packet kind denoted by the first payload byte.
pub open spec fn spec_packet_type(b: u8) -> MysqlPacketType {
    if b == 255 {
        MysqlPacketType::Error
    } else if b == 10 {
        MysqlPacketType::Handshake
    } else if b == 0 {
        MysqlPacketType::Okay
    } else if b == 0xfe {
        MysqlPacketType::EOF
    } else {
        MysqlPacketType::Unknown
    }
}

impl MysqlPacketType {
    /// Classify a packet by its first byte.
    pub fn new(b: u8) -> (r: MysqlPacketType)
        ensures
            r == spec_packet_type(b),
    {
        if b == 255 {
            MysqlPacketType::Error
        } else if b == 10 {
            MysqlPacketType::Handshake
        } else if b == 0 {
            MysqlPacketType::Okay
        } else if b == 0xfe {
            MysqlPacketType::EOF
        } else {
            MysqlPacketType::Unknown
        }
    }
}

/// The empty body sent where a message needs no payload.
#[derive(Clone, Copy, PartialEq, Eq, Structural, Debug)]
pub struct Null {
    pub default: usize,
}

impl Null {
    /// The canonical empty body.
    pub fn new() -> (r: Null)
        ensures
            r.default == 0,
    {
        Null { default: 0 }
    }
}

/// An error message body.
#[derive(Clone, Debug)]
pub struct ReponseErr {
    pub err: String,
}

impl ReponseErr {
    /// Wrap an error message.
    pub fn new(value: String) -> (r: ReponseErr)
        ensures
            r.err == value,
    {
        ReponseErr { err: value }
    }
}

/// A parsed value did not have the expected numeric form.
#[derive(Clone, Copy, PartialEq, Eq, Structural, Debug)]
pub enum ValueError {
    NotANumber,
    OutOfRange,
}

/// Frame a control message: the type code byte, then the payload length in
/// 8 little-endian bytes.
pub fn header(code: u8, payload: u64) -> (r: Vec<u8>)
    ensures
        r@.len() == 9,
        r@[0] == code,
        le_bytes(r@.subrange(1, 9)) == payload,
{
    let mut buf: Vec<u8> = Vec::new();
    buf.push(code);
    let mut length = readvalue::write_u64(payload);
    let ghost lenbytes = length@;
    buf.append(&mut length);
    proof {
        assert(buf@.subrange(1, 9) =~= lenbytes);
    }
    buf
}

} // verus!
