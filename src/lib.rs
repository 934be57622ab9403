//! Locating a single running process by executable name and resolving the
//! base load address of one of its modules.
//!
//! The operating system is reached through a snapshot facility that offers
//! three operations: open a snapshot, advance to its next record, release it.
//! The library never touches that facility itself. It holds every decision in
//! [`locate::Locator`], a state machine that names the next operation to
//! perform and takes the operation's answer as an event. A driver outside the
//! library performs the operations against the live system, or against an
//! in-memory set of records.

pub mod error;
pub mod name;
pub mod locate;
pub mod trace;
