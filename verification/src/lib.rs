//! A real-time collaborative state-synchronization backend: clients join a
//! named session, mutate a shared set of typed documents, and receive live
//! broadcasts of every mutation. Session state is cached in memory while hot
//! and persisted asynchronously through a write-behind queue.
#![verifier::loop_isolation(false)]

pub mod assoc;
pub mod errors;
pub mod ids;
pub mod json;
pub mod laws;
pub mod lobby;
pub mod messages;
pub mod registry;
pub mod types;
