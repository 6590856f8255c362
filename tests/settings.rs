use moltis::discord::config::StreamMode as DiscordStreamMode;
use moltis::sessions::{
    compose_message, history_window, matches_folded, session_listed, SessionAccessPolicy,
    SessionDenied,
};
use moltis::slack::config::{ActivationMode, ConnectionMode, StreamMode};
use moltis::xmpp::access::AccessDenied;
use moltis::xmpp::config::{MucRoomConfig, XmppActions};

#[test]
fn test_access_policy_prefix() {
    let policy = SessionAccessPolicy {
        key_prefix: Some("agent:myagent:".into()),
        ..Default::default()
    };

    assert!(policy.can_access("agent:myagent:main"));
    assert!(policy.can_access("agent:myagent:work"));
    assert!(!policy.can_access("agent:other:main"));
    assert!(!policy.can_access("main"));
}

#[test]
fn test_access_policy_allowed_keys() {
    let policy = SessionAccessPolicy {
        key_prefix: Some("agent:myagent:".into()),
        allowed_keys: vec!["shared:global".into()],
        ..Default::default()
    };

    assert!(policy.can_access("agent:myagent:main"));
    assert!(policy.can_access("shared:global")); // Explicit allow
    assert!(!policy.can_access("agent:other:main"));
}

#[test]
fn test_access_policy_default_allows_all() {
    let policy = SessionAccessPolicy::default();

    assert!(policy.can_access("anything"));
    assert!(policy.can_access("agent:any:session"));
}

#[test]
fn access_policy_prefix_edge_cases() {
    let policy = SessionAccessPolicy {
        key_prefix: Some("a:".into()),
        ..Default::default()
    };
    assert!(policy.can_access("a:"));
    assert!(!policy.can_access("a"));
    assert!(!policy.can_access(""));
}

#[test]
fn muc_room_config_defaults() {
    let room = MucRoomConfig::default();
    assert!(room.enabled);
    assert!(room.require_mention.is_none());
    assert!(room.users.is_empty());
    assert!(room.system_prompt.is_none());
}

#[test]
fn connector_setting_defaults() {
    assert!(XmppActions::default().reactions);
    assert_eq!(DiscordStreamMode::default(), DiscordStreamMode::EditInPlace);
    assert_eq!(StreamMode::default(), StreamMode::EditInPlace);
    assert_eq!(ConnectionMode::default(), ConnectionMode::Socket);
    assert_eq!(ActivationMode::default(), ActivationMode::Mention);
}

#[test]
fn access_denied_messages() {
    assert_eq!(AccessDenied::DmsDisabled.message(), "DMs are disabled");
    assert_eq!(AccessDenied::NotMentioned.message(), "bot was not mentioned");
    assert_eq!(AccessDenied::MentionModeNone.message(), "bot does not respond in groups");
}

#[test]
fn session_send_checks() {
    let policy = SessionAccessPolicy {
        key_prefix: Some("agent:a:".into()),
        can_send: true,
        ..Default::default()
    };
    assert!(policy.check_send("agent:a:main").is_ok());
    let e = policy.check_send("agent:b:main").unwrap_err();
    assert_eq!(e.message(), "access denied: session 'agent:b:main' is not accessible");
    let quiet = SessionAccessPolicy::default();
    assert_eq!(quiet.check_send("x").unwrap_err(), SessionDenied::SendingNotAllowed);
    assert_eq!(
        SessionDenied::SendingNotAllowed.message(),
        "access denied: sending messages is not allowed by policy"
    );
}

#[test]
fn session_message_composition() {
    assert_eq!(compose_message("hi", None), "hi");
    assert_eq!(compose_message("hi", Some("agent:a")), "[From: agent:a]\n\nhi");
}

#[test]
fn session_history_window() {
    let w = history_window(50, 0, None);
    assert_eq!((w.start, w.end, w.has_more), (30, 50, true));
    let w = history_window(50, 10, Some(500));
    assert_eq!((w.start, w.end, w.has_more), (0, 40, false));
    let w = history_window(5, 10, Some(3));
    assert_eq!((w.start, w.end), (0, 0));
    let w = history_window(10, 2, Some(3));
    assert_eq!((w.start, w.end, w.has_more), (5, 8, true));
}

#[test]
fn session_listing_filter_ignores_case() {
    let all = SessionAccessPolicy::default();
    assert!(session_listed(&all, "agent:Main", None, Some("MAIN")));
    assert!(session_listed(&all, "k", Some("Daily Notes"), Some("notes")));
    assert!(!session_listed(&all, "k", None, Some("notes")));
    assert!(session_listed(&all, "k", None, None));
    let prefixed = SessionAccessPolicy {
        key_prefix: Some("agent:a:".into()),
        ..Default::default()
    };
    assert!(!session_listed(&prefixed, "agent:b:x", None, None));
    assert!(matches_folded("ab", "xaby", None));
    assert!(!matches_folded("AB", "xaby", Some("ab")));
}
