//! The computational side of the MySQL client protocol: packet headers,
//! the COM_QUERY command packet, and text-protocol result decoding.

pub mod command;
pub mod response;
pub mod socketio;
