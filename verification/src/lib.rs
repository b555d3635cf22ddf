//! Schema-driven ingestion of delimited sensor records.

pub mod backup;
pub mod codec;
pub mod config;
pub mod datetime;
pub mod decoder;
pub mod message;
pub mod parser_cwb;
pub mod pattern;
pub mod qc_level1;
pub mod reader_loggernet;
pub mod reader_serial_port;
pub mod receiver_raw;
pub mod receiver_sqlite;
pub mod sink;
pub mod template;
pub mod text;
pub mod tracker;

use vstd::prelude::*;

verus! {

/// Start-of-text control character that opens a framed record.
pub const STX: char = '\u{2}';

/// End-of-text control character that closes a framed record.
pub const ETX: char = '\u{3}';

} // verus!
