//! Customer records over a single relational table.
//!
//! [`handler`] decides, for each of the four requests, which statement goes
//! to the database and what each outcome becomes for the client; the caller
//! performs the statements. [`statement`] holds their text and parameters.
//! [`model`] says what the statements do to the table, [`table`] is that
//! table in memory, [`service`] handles a request against it from beginning
//! to end, and [`laws`] proves what then holds of every run.

pub mod customer;
pub mod statement;
pub mod handler;
pub mod model;
pub mod table;
pub mod service;
pub mod laws;
