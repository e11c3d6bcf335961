//! A durable, priority-ordered work queue over a relational job table.
//!
//! Producers enqueue typed commands; independent workers claim, execute and
//! retire one job each. Claiming relies on an atomic conditional update on a
//! single row, so no two workers ever process the same job concurrently.

pub mod command;
pub mod laws;
pub mod queue;
pub mod table;
