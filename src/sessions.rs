//! Which sessions an agent may see and message.

use vstd::prelude::*;

use vstd::string::*;

use crate::text::{
    contains_str, contains_string, has_prefix, lower_of, lowercase, occurs_in, starts_with,
    strings_view,
};

verus! {

/// Policy controlling which sessions an agent can access.
#[derive(Debug, Clone)]
pub struct SessionAccessPolicy {
    /// If set, only sessions whose keys start with this prefix are visible
    /// (besides `allowed_keys`).
    pub key_prefix: Option<String>,
    /// Session keys this agent can access in any case.
    pub allowed_keys: Vec<String>,
    /// Whether the agent may send messages to other sessions.
    pub can_send: bool,
    /// Whether the agent may reach sessions of other agents.
    pub cross_agent: bool,
}

/// Whether the policy admits the session key.
pub open spec fn admits(p: SessionAccessPolicy, key: Seq<char>) -> bool {
    strings_view(p.allowed_keys@).contains(key) || match p.key_prefix {
        Some(prefix) => has_prefix(key, prefix@),
        None => true,
    }
}

impl Default for SessionAccessPolicy {
    /// No restriction, no sending, no cross-agent access.
    fn default() -> (r: SessionAccessPolicy)
        ensures
            r.key_prefix is None,
            r.allowed_keys@.len() == 0,
            !r.can_send,
            !r.cross_agent,
    {
        SessionAccessPolicy {
            key_prefix: None,
            allowed_keys: Vec::new(),
            can_send: false,
            cross_agent: false,
        }
    }
}

impl SessionAccessPolicy {
    /// Whether a session key is accessible: an explicitly allowed key, else
    /// one under the prefix, else (with no prefix) any key.
    pub fn can_access(&self, key: &str) -> (r: bool)
        ensures
            r == admits(*self, key@),
    {
        if contains_string(&self.allowed_keys, key) {
            return true;
        }
        match &self.key_prefix {
            Some(prefix) => starts_with(key, prefix.as_str()),
            None => true,
        }
    }
}

/// Why a session tool refused to act.
#[derive(Debug, Clone, PartialEq, Eq)]
pub enum SessionDenied {
    /// The policy hides this session.
    NotAccessible { key: String },
    /// The policy forbids sending.
    SendingNotAllowed,
}

pub open spec fn denied_text(key: Option<Seq<char>>) -> Seq<char> {
    match key {
        Some(k) => "access denied: session '"@ + k + "' is not accessible"@,
        None => "access denied: sending messages is not allowed by policy"@,
    }
}

impl SessionDenied {
    pub fn message(&self) -> (r: String)
        ensures
            r@ == denied_text(match self {
                SessionDenied::NotAccessible { key } => Some(key@),
                SessionDenied::SendingNotAllowed => None,
            }),
    {
        match self {
            SessionDenied::NotAccessible { key } => {
                let mut s = String::from_str("access denied: session '");
                s.append(key.as_str());
                s.append("' is not accessible");
                s
            },
            SessionDenied::SendingNotAllowed => String::from_str(
                "access denied: sending messages is not allowed by policy",
            ),
        }
    }
}

impl SessionAccessPolicy {
    /// Whether the agent may send to session `key`: the session must be
    /// accessible, then sending must be allowed.
    pub fn check_send(&self, key: &str) -> (r: Result<(), SessionDenied>)
        ensures
            match r {
                Ok(()) => admits(*self, key@) && self.can_send,
                Err(SessionDenied::NotAccessible { key: k }) => !admits(*self, key@) && k@ == key@,
                Err(SessionDenied::SendingNotAllowed) => admits(*self, key@) && !self.can_send,
            },
    {
        if !self.can_access(key) {
            return Err(SessionDenied::NotAccessible { key: String::from_str(key) });
        }
        if !self.can_send {
            return Err(SessionDenied::SendingNotAllowed);
        }
        Ok(())
    }
}

/// The message delivered to a session: with a context, it is prefixed by
/// `[From: <context>]` and a blank line.
pub open spec fn composed_message(message: Seq<char>, context: Option<Seq<char>>) -> Seq<char> {
    match context {
        Some(c) => "[From: "@ + c + "]\n\n"@ + message,
        None => message,
    }
}

/// Build the message to deliver.
pub fn compose_message(message: &str, context: Option<&str>) -> (r: String)
    ensures
        r@ == composed_message(message@, match context {
            Some(c) => Some(c@),
            None => None,
        }),
{
    match context {
        Some(c) => {
            let mut s = String::from_str("[From: ");
            s.append(c);
            s.append("]\n\n");
            s.append(message);
            s
        },
        None => String::from_str(message),
    }
}

/// Which messages of a history a read returns: the `limit` (default 20,
/// at most 100) messages that end `offset` messages before the newest.
pub open spec fn history_bounds(total: nat, offset: nat, limit: Option<u64>) -> (int, int) {
    let l: nat = match limit {
        Some(v) => if v < 100 {
            v as nat
        } else {
            100
        },
        None => 20,
    };
    let start = if total >= offset + l {
        total - offset - l
    } else {
        0
    };
    let end = if total >= offset {
        total - offset
    } else {
        0
    };
    (start, end)
}

/// A window of a session's history.
#[derive(Debug, Clone, Copy, PartialEq, Eq, Structural)]
pub struct HistoryWindow {
    pub start: usize,
    pub end: usize,
    /// Whether older messages remain before `start`.
    pub has_more: bool,
}

/// The window of a history of `total` messages to return.
pub fn history_window(total: usize, offset: u64, limit: Option<u64>) -> (r: HistoryWindow)
    ensures
        (r.start as int, r.end as int) == history_bounds(total as nat, offset as nat, limit),
        r.has_more == (r.start > 0),
        r.start <= r.end <= total,
{
    let l: u64 = match limit {
        Some(v) => if v < 100 {
            v
        } else {
            100
        },
        None => 20,
    };
    let t = total as u64;
    let end: u64 = if t >= offset {
        t - offset
    } else {
        0
    };
    let start: u64 = if end >= l {
        end - l
    } else {
        0
    };
    HistoryWindow { start: start as usize, end: end as usize, has_more: start > 0 }
}

/// Whether a session, already in lower case, matches a lower-case filter:
/// the filter occurs in its key or in its label.
pub fn matches_folded(filter: &str, key: &str, label: Option<&str>) -> (r: bool)
    ensures
        r == (occurs_in(key@, filter@) || match label {
            Some(l) => occurs_in(l@, filter@),
            None => false,
        }),
{
    if contains_str(key, filter) {
        return true;
    }
    match label {
        Some(l) => contains_str(l, filter),
        None => false,
    }
}

/// Whether a session is listed: the policy admits its key, and a filter, if
/// given, occurs in its key or label ignoring case.
pub fn session_listed(
    policy: &SessionAccessPolicy,
    key: &str,
    label: Option<&str>,
    filter: Option<&str>,
) -> (r: bool)
    ensures
        r == (admits(*policy, key@) && match filter {
            None => true,
            Some(f) => occurs_in(lower_of(key@), lower_of(f@)) || match label {
                Some(l) => occurs_in(lower_of(l@), lower_of(f@)),
                None => false,
            },
        }),
{
    if !policy.can_access(key) {
        return false;
    }
    match filter {
        None => true,
        Some(f) => {
            let f_lower = lowercase(f);
            let key_lower = lowercase(key);
            match label {
                Some(l) => {
                    let l_lower = lowercase(l);
                    matches_folded(f_lower.as_str(), key_lower.as_str(), Some(l_lower.as_str()))
                },
                None => matches_folded(f_lower.as_str(), key_lower.as_str(), None),
            }
        },
    }
}

} // verus!
