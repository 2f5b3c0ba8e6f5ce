//! Core of a chat bot for a channel-based messaging service: command
//! dispatch (permission and cooldown gating), the individual command
//! behaviors, reply shaping (mention prefixing, moderation gating and
//! anti-duplicate obfuscation), a FIFO outbound message queue, and the
//! shared set of joined channels.
//!
//! Everything that talks to the outside world (the persistent store, the
//! chat transport, third-party identity and moderation services) is kept
//! behind plain-value interfaces: callers perform the outside calls and
//! hand the outcomes to the verified logic here.

pub mod api;
pub mod channels;
pub mod commandhandler;
pub mod commands;
pub mod messenger;
pub mod text;
pub mod timestamp;
pub mod types;
