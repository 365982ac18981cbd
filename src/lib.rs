//! A local metrics relay: framed ingress protocol, payload validation,
//! an in-process message broker, a bounded relay queue and the
//! per-connection session rules.

pub mod frame;
pub mod frame_messages;
pub mod message_broker;
pub mod internal_messages;
pub mod queue;
pub mod listener;
pub mod config;
pub mod socket_relay;
