//! The binlog engine: event header codec, row value codec, rollback
//! synthesizer, SQL synthesizer, and the transaction assembler.

pub mod getsql;
pub mod parsevalue;
pub mod readbinlog;
pub mod readevent;
pub mod rollback;
