//! Parsing and aggregation engine for a file-sharing service's status
//! reports: turns the loosely formatted process, share and lock tables
//! printed by the status tool into one typed snapshot, and sums
//! per-process operating-system statistics for the reported process ids.

pub mod config;
pub mod process;
pub mod scanner;
pub mod tally;
pub mod text;
pub mod timeparse;
