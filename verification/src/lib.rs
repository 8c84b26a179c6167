//! A node for clusters that talk in lines of JSON, and the gossip protocol by
//! which such nodes come to share a growing set of integers.
//!
//! [`runtime::Node`] is the runtime: it takes events one at a time, hands them
//! to an [`actor::Actor`], and says what to send. [`gossip::BroadcastActor`]
//! is the actor that broadcasts by gossip; [`echo::EchoActor`] and
//! [`unique_id::UuidActor`] are two small ones. [`queue::EventQueue`] holds the
//! events that wait for the runtime. [`laws`] and [`cluster`] state what holds
//! of every node and of every cluster of them.
//!
//! The library reads no input, writes no output and keeps no time: it is
//! handed lines and ticks, and hands back lines.

pub mod actor;
pub mod chance;
pub mod cluster;
pub mod echo;
pub mod envelope;
pub mod error;
pub mod gossip;
pub mod json;
pub mod laws;
pub mod message;
pub mod queue;
pub mod runtime;
pub mod unique_id;
pub mod wire;
