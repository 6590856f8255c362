//! Settings of the XMPP connector that the library reads.

use vstd::prelude::*;

verus! {

/// Actions the XMPP connector may perform.
#[derive(Debug, Clone)]
pub struct XmppActions {
    /// Whether to send emoji reactions.
    pub reactions: bool,
}

impl Default for XmppActions {
    /// Reactions on.
    fn default() -> (r: XmppActions)
        ensures
            r.reactions,
    {
        XmppActions { reactions: true }
    }
}

/// Per-room overrides.
#[derive(Debug, Clone)]
pub struct MucRoomConfig {
    /// Whether this room is enabled.
    pub enabled: bool,
    /// Override of whether the bot must be mentioned in this room.
    pub require_mention: Option<bool>,
    /// Per-room user allowlist (JID patterns).
    pub users: Vec<String>,
    /// Custom system prompt for this room.
    pub system_prompt: Option<String>,
    /// Skill overrides for this room.
    pub skills: Vec<String>,
}

impl Default for MucRoomConfig {
    /// Enabled, with no overrides.
    fn default() -> (r: MucRoomConfig)
        ensures
            r.enabled,
            r.require_mention is None,
            r.users@.len() == 0,
            r.system_prompt is None,
            r.skills@.len() == 0,
    {
        MucRoomConfig {
            enabled: true,
            require_mention: None,
            users: Vec::new(),
            system_prompt: None,
            skills: Vec::new(),
        }
    }
}

/// What an account lacks to be started.
#[derive(Debug, Clone, Copy, PartialEq, Eq, Structural)]
pub enum CredentialError {
    MissingJid,
    MissingPassword,
}

impl CredentialError {
    pub fn message(&self) -> (r: &'static str)
        ensures
            r@ == (match self {
                CredentialError::MissingJid => "XMPP JID is required"@,
                CredentialError::MissingPassword => "XMPP password is required"@,
            }),
    {
        match self {
            CredentialError::MissingJid => "XMPP JID is required",
            CredentialError::MissingPassword => "XMPP password is required",
        }
    }
}

/// An account can start only with a JID and a password.
pub fn check_credentials(jid: &str, password: &str) -> (r: Result<(), CredentialError>)
    ensures
        r == (if jid@.len() == 0 {
            Err(CredentialError::MissingJid)
        } else if password@.len() == 0 {
            Err(CredentialError::MissingPassword)
        } else {
            Ok(())
        }),
{
    if jid.is_empty() {
        Err(CredentialError::MissingJid)
    } else if password.is_empty() {
        Err(CredentialError::MissingPassword)
    } else {
        Ok(())
    }
}

} // verus!
