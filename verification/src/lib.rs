//! An adapter that exposes a block of delimiter-separated text as a
//! row-oriented, queryable table for an embedded SQL engine's pluggable
//! table mechanism.
//!
//! `table::connect` turns `key=value` construction arguments into a
//! validated configuration and a schema (explicit, taken from a header row,
//! or synthesized as `c0..cN`), and `cursor::Cursor` drives the forward-only,
//! restartable scan: `filter` rewinds to the first data record, `next`
//! yields one record at a time, and `column`/`rowid`/`eof` observe the
//! current state. The record parsing itself is a supplied collaborator (the
//! `csv` crate), held behind the trusted boundary in `stream`.

pub mod cursor;
pub mod errors;
pub mod params;
pub mod schema;
pub mod stream;
pub mod table;
pub mod text;


