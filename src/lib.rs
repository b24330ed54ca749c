//! A line-oriented chat relay: the server's connection registry, username
//! negotiation, broadcast-then-evict pass and wire messages, and the client's
//! reading of that stream.

mod indexed;
mod seq_facts;

pub mod text;

pub mod client;
pub mod incoming;
pub mod laws;
pub mod protocol;
pub mod registry;
