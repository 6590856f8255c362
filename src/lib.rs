//! Coordination store for tasks shared between agents, with the message
//! helpers of the chat connectors.
//!
//! The core is [`tasks`] (one list of tasks and its operations), [`store`]
//! (all lists by id) and [`tool`] (the action interface). The other modules
//! hold the connectors' formatting, parsing and access decisions.

pub mod agent_defs;
pub mod discord;
pub mod health;
pub mod memory;
pub mod numbers;
pub mod prompt;
pub mod senders;
pub mod sessions;
pub mod shell_hook;
pub mod slack;
pub mod store;
pub mod tasks;
pub mod text;
pub mod tool;
pub mod xmpp;
