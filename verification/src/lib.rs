//! An incremental frame decoder: a cooperative state machine that sits
//! between a chunked, possibly-suspending byte source and a stateful
//! message decoder, producing one decoded item per operation while
//! preserving unconsumed bytes and ownership of its inputs across
//! suspensions.
//!
//! The crate also carries two small utility fragments: a connection
//! descriptor for write-query results ([`sql`]) and a keyed statistics
//! cache ([`stats`]).

pub mod chain;
pub mod codec;
pub mod line_codec;
pub mod script;
pub mod source;
pub mod sql;
pub mod stats;
