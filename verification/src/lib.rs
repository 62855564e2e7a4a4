//! Loading delimited text files into the tables of a relational store.
//!
//! One file is loaded in two passes over its records. The first pass probes the leading records
//! for a schema ([`probe`]). The schema is then held against the table that the file goes to
//! ([`reconcile`]), which is created where it is not there. The second pass inserts every data
//! record inside one transaction ([`load`]): either all of them stay or none does.
//! [`import`] puts the three together for one file.
//!
//! Records are read through the `csv` crate ([`record`]) and the store is reached through the
//! `rusqlite` crate ([`store`]). What the two do is not proved here. A stream of records
//! remembers the records it has handed out, and a session on the store remembers the operations
//! it has issued and the answers it was given about tables; the contracts of this library say
//! how these relate. [`model`] gives the
//! issued operations their meaning on a store with transactions, and proves what a load leaves
//! behind.
//!
//! Around these stand the options of a run ([`config`]), the table name that a file goes to
//! ([`naming`]), the statements sent to the store as text ([`sql`]), the messages for the user
//! ([`report`]), the count over the files of a run ([`run`]), and result sets as delimited text
//! ([`emit`]).

pub mod config;
pub mod emit;
pub mod error;
pub mod field;
pub mod import;
pub mod load;
pub mod model;
pub mod naming;
pub mod probe;
pub mod reconcile;
pub mod record;
pub mod report;
pub mod run;
pub mod sql;
pub mod store;
pub mod text;
