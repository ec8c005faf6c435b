//! Server side of the `SignalOnly` interface: a service that emits typed
//! signals onto a publish/subscribe transport and drains what comes back.
//!
//! The crate holds the rules of the binding and proves them: which topic a
//! signal goes to, which entries its payload has, what one emit hands to the
//! transport and returns from it, and how the inbound loop moves between its
//! states. The transport itself is the caller's: a publish is a function the
//! caller passes in, and inbound frames are values the caller hands over.

pub mod document;
pub mod encoder;
pub mod field;
pub mod server;
pub mod topic;

pub use crate::server::SignalOnlyServer;
