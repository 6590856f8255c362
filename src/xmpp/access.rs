//! Access control for inbound XMPP messages: DM and group policies,
//! allowlists, mention mode and per-room overrides.
//!
//! Whether a JID matches an allowlist pattern is decided by the caller's
//! matcher; the decisions here take its answers as input.

use vstd::prelude::*;

use crate::xmpp::config::MucRoomConfig;

verus! {

/// Reason an inbound message was denied.
#[derive(Debug, Clone, Copy, PartialEq, Eq, Structural)]
pub enum AccessDenied {
    DmsDisabled,
    NotOnAllowlist,
    GroupsDisabled,
    GroupNotOnAllowlist,
    RoomDisabled,
    NotOnRoomAllowlist,
    MentionModeNone,
    NotMentioned,
}

pub open spec fn denial_text(d: AccessDenied) -> Seq<char> {
    match d {
        AccessDenied::DmsDisabled => "DMs are disabled"@,
        AccessDenied::NotOnAllowlist => "user not on allowlist"@,
        AccessDenied::GroupsDisabled => "groups are disabled"@,
        AccessDenied::GroupNotOnAllowlist => "group not on allowlist"@,
        AccessDenied::RoomDisabled => "room is disabled"@,
        AccessDenied::NotOnRoomAllowlist => "user not on room allowlist"@,
        AccessDenied::MentionModeNone => "bot does not respond in groups"@,
        AccessDenied::NotMentioned => "bot was not mentioned"@,
    }
}

impl AccessDenied {
    /// The descriptive text of the reason.
    pub fn message(&self) -> (r: &'static str)
        ensures
            r@ == denial_text(*self),
    {
        match self {
            AccessDenied::DmsDisabled => "DMs are disabled",
            AccessDenied::NotOnAllowlist => "user not on allowlist",
            AccessDenied::GroupsDisabled => "groups are disabled",
            AccessDenied::GroupNotOnAllowlist => "group not on allowlist",
            AccessDenied::RoomDisabled => "room is disabled",
            AccessDenied::NotOnRoomAllowlist => "user not on room allowlist",
            AccessDenied::MentionModeNone => "bot does not respond in groups",
            AccessDenied::NotMentioned => "bot was not mentioned",
        }
    }
}

/// Who may message the bot one to one.
#[derive(Debug, Clone, Copy, PartialEq, Eq, Structural)]
pub enum DmPolicy {
    Open,
    Allowlist,
    Disabled,
}

/// Which rooms the bot answers in.
#[derive(Debug, Clone, Copy, PartialEq, Eq, Structural)]
pub enum GroupPolicy {
    Open,
    Allowlist,
    Disabled,
}

/// When the bot answers in a room.
#[derive(Debug, Clone, Copy, PartialEq, Eq, Structural)]
pub enum MentionMode {
    Mention,
    Always,
    Never,
}

/// Where a message came from.
#[derive(Debug, Clone, Copy, PartialEq, Eq, Structural)]
pub enum ChatType {
    Dm,
    Group,
    Channel,
}

/// The account's access settings.
#[derive(Debug, Clone, Copy, PartialEq, Eq, Structural)]
pub struct AccessSettings {
    pub dm_policy: DmPolicy,
    pub group_policy: GroupPolicy,
    pub mention_mode: MentionMode,
}

impl Default for AccessSettings {
    /// Open DMs, open rooms, answer in rooms when mentioned.
    fn default() -> (r: AccessSettings)
        ensures
            r.dm_policy == DmPolicy::Open,
            r.group_policy == GroupPolicy::Open,
            r.mention_mode == MentionMode::Mention,
    {
        AccessSettings {
            dm_policy: DmPolicy::Open,
            group_policy: GroupPolicy::Open,
            mention_mode: MentionMode::Mention,
        }
    }
}

/// The allowlist matcher's answers for one message.
#[derive(Debug, Clone, Copy, PartialEq, Eq, Structural)]
pub struct AllowlistMatches {
    /// The sender matches the DM allowlist.
    pub peer_allowed: bool,
    /// The room (or the empty JID, outside a room) matches the room
    /// allowlist.
    pub room_allowed: bool,
    /// The sender matches the room's own user allowlist.
    pub peer_allowed_in_room: bool,
}

/// The decision for a message; `room` is the configuration of the room it
/// came from, if that room has one.
pub open spec fn access_spec(
    s: AccessSettings,
    chat_type: ChatType,
    room: Option<MucRoomConfig>,
    m: AllowlistMatches,
    bot_mentioned: bool,
) -> Result<(), AccessDenied> {
    match chat_type {
        ChatType::Dm => match s.dm_policy {
            DmPolicy::Disabled => Err(AccessDenied::DmsDisabled),
            DmPolicy::Open => Ok(()),
            DmPolicy::Allowlist => if m.peer_allowed {
                Ok(())
            } else {
                Err(AccessDenied::NotOnAllowlist)
            },
        },
        _ => if s.group_policy == GroupPolicy::Disabled {
            Err(AccessDenied::GroupsDisabled)
        } else if s.group_policy == GroupPolicy::Allowlist && !m.room_allowed {
            Err(AccessDenied::GroupNotOnAllowlist)
        } else if room is Some && !room->Some_0.enabled {
            Err(AccessDenied::RoomDisabled)
        } else if room is Some && room->Some_0.users@.len() > 0 && !m.peer_allowed_in_room {
            Err(AccessDenied::NotOnRoomAllowlist)
        } else if room is Some && room->Some_0.require_mention is Some {
            if room->Some_0.require_mention->Some_0 && !bot_mentioned {
                Err(AccessDenied::NotMentioned)
            } else {
                Ok(())
            }
        } else {
            match s.mention_mode {
                MentionMode::Always => Ok(()),
                MentionMode::Never => Err(AccessDenied::MentionModeNone),
                MentionMode::Mention => if bot_mentioned {
                    Ok(())
                } else {
                    Err(AccessDenied::NotMentioned)
                },
            }
        },
    }
}

fn check_dm_access(s: &AccessSettings, m: &AllowlistMatches) -> (r: Result<(), AccessDenied>)
    ensures
        r == access_spec(*s, ChatType::Dm, None, *m, false),
{
    match s.dm_policy {
        DmPolicy::Disabled => Err(AccessDenied::DmsDisabled),
        DmPolicy::Open => Ok(()),
        DmPolicy::Allowlist => {
            if m.peer_allowed {
                Ok(())
            } else {
                Err(AccessDenied::NotOnAllowlist)
            }
        },
    }
}

fn check_group_access(
    s: &AccessSettings,
    room: Option<&MucRoomConfig>,
    m: &AllowlistMatches,
    bot_mentioned: bool,
) -> (r: Result<(), AccessDenied>)
    ensures
        r == access_spec(
            *s,
            ChatType::Group,
            match room {
                Some(c) => Some(*c),
                None => None,
            },
            *m,
            bot_mentioned,
        ),
{
    match s.group_policy {
        GroupPolicy::Disabled => {
            return Err(AccessDenied::GroupsDisabled);
        },
        GroupPolicy::Allowlist => {
            if !m.room_allowed {
                return Err(AccessDenied::GroupNotOnAllowlist);
            }
        },
        GroupPolicy::Open => {},
    }
    if let Some(rc) = room {
        if !rc.enabled {
            return Err(AccessDenied::RoomDisabled);
        }
        if rc.users.len() > 0 && !m.peer_allowed_in_room {
            return Err(AccessDenied::NotOnRoomAllowlist);
        }
        if let Some(require_mention) = rc.require_mention {
            return if require_mention && !bot_mentioned {
                Err(AccessDenied::NotMentioned)
            } else {
                Ok(())
            };
        }
    }
    match s.mention_mode {
        MentionMode::Always => Ok(()),
        MentionMode::Never => Err(AccessDenied::MentionModeNone),
        MentionMode::Mention => {
            if bot_mentioned {
                Ok(())
            } else {
                Err(AccessDenied::NotMentioned)
            }
        },
    }
}

/// Whether an inbound message should be processed: `Ok` to process it,
/// else the reason it is dropped.
pub fn check_access(
    settings: &AccessSettings,
    chat_type: ChatType,
    room: Option<&MucRoomConfig>,
    matches: &AllowlistMatches,
    bot_mentioned: bool,
) -> (r: Result<(), AccessDenied>)
    ensures
        r == access_spec(
            *settings,
            chat_type,
            match room {
                Some(c) => Some(*c),
                None => None,
            },
            *matches,
            bot_mentioned,
        ),
{
    match chat_type {
        ChatType::Dm => check_dm_access(settings, matches),
        ChatType::Group | ChatType::Channel => check_group_access(
            settings,
            room,
            matches,
            bot_mentioned,
        ),
    }
}

} // verus!
