//! Leader election and term management of the Raft protocol, as a verified
//! state machine: each node handles one event at a time and yields its next
//! state and the messages and timer changes it asks of its runtime.

pub mod types;
pub mod timers;
pub mod messages;
pub mod config;
pub mod state;
pub mod out;
pub mod server;
pub mod update_term;
pub mod election;
pub mod replication;
pub mod checker;
pub mod laws;
pub mod safety;
