//! Network reconnaissance library: address arithmetic, probe packets and the
//! parsers for their replies, target and port selection, and report text.
pub mod net;
pub mod ports;
pub mod probes;
pub mod report;
pub mod scanner;
pub mod text;
pub mod types;
