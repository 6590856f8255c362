//! Slack connector settings that the library reads.

use vstd::prelude::*;

verus! {

/// How streaming responses are delivered.
#[derive(Debug, Clone, Copy, PartialEq, Eq, Structural)]
pub enum StreamMode {
    /// Edit a placeholder message in place as tokens arrive.
    EditInPlace,
    /// Send the final response as a single message.
    Off,
}

impl Default for StreamMode {
    fn default() -> (r: StreamMode)
        ensures
            r == StreamMode::EditInPlace,
    {
        StreamMode::EditInPlace
    }
}

/// How the connector reaches Slack.
#[derive(Debug, Clone, Copy, PartialEq, Eq, Structural)]
pub enum ConnectionMode {
    /// Socket Mode: a WebSocket, no public endpoint needed.
    Socket,
}

impl Default for ConnectionMode {
    fn default() -> (r: ConnectionMode)
        ensures
            r == ConnectionMode::Socket,
    {
        ConnectionMode::Socket
    }
}

/// When the bot answers in channels.
#[derive(Debug, Clone, Copy, PartialEq, Eq, Structural)]
pub enum ActivationMode {
    /// Only when mentioned.
    Mention,
    /// To every message in allowed channels.
    Always,
    /// Only in threads where the bot takes part.
    ThreadOnly,
}

impl Default for ActivationMode {
    fn default() -> (r: ActivationMode)
        ensures
            r == ActivationMode::Mention,
    {
        ActivationMode::Mention
    }
}

} // verus!
