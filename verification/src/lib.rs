//! A payments machine: per-client balances driven by deposits, withdrawals and
//! the dispute lifecycle, persisted through a two-keyspace byte store.

pub mod client;
pub mod codec;
pub mod data;
pub mod db;
pub mod io;
pub mod keyspace;
pub mod parser;
pub mod transaction;
