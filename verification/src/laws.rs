//! What the queries are for, stated over the raw record and the raw profile: if guest memory holds
//! such and such, the answer is this. The statements count addresses, bits and characters
//! themselves, so each can be read without the definitions that the queries are written with.

pub mod bits;
pub mod chains;
pub mod codes;
pub mod files;
pub mod memory;
pub mod naming;
pub mod outcomes;
pub mod processes;
pub mod reporting;
pub mod running;
pub mod symbols;
pub mod tables;
pub mod tracing;
pub mod writing;
