//! XMPP stanzas: an element model, the builders for messages and presence,
//! and the extensions the connector speaks.

pub mod access;
pub mod chat_states;
pub mod config;
pub mod element;
pub mod http_upload;
pub mod muc;
pub mod ns;
pub mod oob;
pub mod outbound;
pub mod reactions;
pub mod stanza;
