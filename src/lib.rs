//! A searchable catalog of strain records: a query compiler that turns a set of
//! filter criteria into one safely escaped SQL statement, the decoding of its
//! result rows into a table of display text, and the planning of a streamed
//! archive of per-record sequence files.

pub mod text;
pub mod model;
pub mod number;
pub mod escaping;
pub mod query;
pub mod table;
pub mod archive;
pub mod export;
pub mod stats;
pub mod color;
pub mod appstate;
