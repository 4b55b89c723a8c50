//! Lifecycle of a prepared statement of an embedded SQL engine: the rules by
//! which a statement is compiled, bound, stepped, reused and released, and the
//! order in which a connection's worker runs the blocking calls handed to it.
//!
//! The engine itself is driven from outside; this library decides what each of
//! its replies means and which state the statement is in afterwards.


pub mod catalog;
pub mod engine;
pub mod error;
pub mod protocol;
pub mod source;
pub mod statement;
pub mod worker;



