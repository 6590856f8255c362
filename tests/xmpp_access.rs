use moltis::xmpp::access::{
    check_access, AccessDenied, AccessSettings, AllowlistMatches, ChatType, DmPolicy, GroupPolicy,
    MentionMode,
};
use moltis::xmpp::config::MucRoomConfig;

fn cfg() -> AccessSettings {
    AccessSettings::default()
}

/// The matcher's answers: whether the sender is on the DM allowlist, the
/// room on the room allowlist, the sender on the room's user list.
fn matched(peer: bool, room: bool, in_room: bool) -> AllowlistMatches {
    AllowlistMatches {
        peer_allowed: peer,
        room_allowed: room,
        peer_allowed_in_room: in_room,
    }
}

#[test]
fn open_dm_allows_all() {
    let c = cfg();
    assert!(check_access(&c, ChatType::Dm, None, &matched(false, false, false), false).is_ok());
}

#[test]
fn disabled_dm_rejects() {
    let mut c = cfg();
    c.dm_policy = DmPolicy::Disabled;
    assert_eq!(
        check_access(&c, ChatType::Dm, None, &matched(false, false, false), false),
        Err(AccessDenied::DmsDisabled)
    );
}

#[test]
fn allowlist_dm_exact_match() {
    let mut c = cfg();
    c.dm_policy = DmPolicy::Allowlist;
    // alice@example.com is on ["alice@example.com"], bob@example.com is not.
    assert!(check_access(&c, ChatType::Dm, None, &matched(true, false, false), false).is_ok());
    assert_eq!(
        check_access(&c, ChatType::Dm, None, &matched(false, false, false), false),
        Err(AccessDenied::NotOnAllowlist)
    );
}

#[test]
fn group_mention_required() {
    let c = cfg(); // mention_mode=Mention by default
    let m = matched(false, false, false);
    assert_eq!(
        check_access(&c, ChatType::Group, None, &m, false),
        Err(AccessDenied::NotMentioned)
    );
    assert!(check_access(&c, ChatType::Group, None, &m, true).is_ok());
}

#[test]
fn group_always_mode() {
    let mut c = cfg();
    c.mention_mode = MentionMode::Always;
    assert!(check_access(&c, ChatType::Group, None, &matched(false, false, false), false).is_ok());
}

#[test]
fn group_never_mode() {
    let mut c = cfg();
    c.mention_mode = MentionMode::Never;
    assert_eq!(
        check_access(&c, ChatType::Channel, None, &matched(false, false, false), true),
        Err(AccessDenied::MentionModeNone)
    );
}

#[test]
fn group_disabled() {
    let mut c = cfg();
    c.group_policy = GroupPolicy::Disabled;
    assert_eq!(
        check_access(&c, ChatType::Group, None, &matched(false, false, false), true),
        Err(AccessDenied::GroupsDisabled)
    );
}

#[test]
fn group_allowlist() {
    let mut c = cfg();
    c.group_policy = GroupPolicy::Allowlist;
    c.mention_mode = MentionMode::Always;
    // room@conf.example.com is on the room allowlist, other@... is not.
    assert!(check_access(&c, ChatType::Group, None, &matched(false, true, false), false).is_ok());
    assert_eq!(
        check_access(&c, ChatType::Group, None, &matched(false, false, false), false),
        Err(AccessDenied::GroupNotOnAllowlist)
    );
}

#[test]
fn per_room_disabled() {
    let mut c = cfg();
    c.mention_mode = MentionMode::Always;
    let room = MucRoomConfig {
        enabled: false,
        ..Default::default()
    };
    assert_eq!(
        check_access(&c, ChatType::Group, Some(&room), &matched(false, false, false), false),
        Err(AccessDenied::RoomDisabled)
    );
}

#[test]
fn per_room_user_allowlist() {
    let mut c = cfg();
    c.mention_mode = MentionMode::Always;
    let room = MucRoomConfig {
        users: vec!["alice@example.com".into()],
        ..Default::default()
    };
    assert!(
        check_access(&c, ChatType::Group, Some(&room), &matched(false, false, true), false).is_ok()
    );
    assert_eq!(
        check_access(&c, ChatType::Group, Some(&room), &matched(false, false, false), false),
        Err(AccessDenied::NotOnRoomAllowlist)
    );
}

#[test]
fn per_room_mention_override() {
    let mut c = cfg();
    c.mention_mode = MentionMode::Always; // Global: always respond
    let room = MucRoomConfig {
        require_mention: Some(true), // Room override: require mention
        ..Default::default()
    };
    let m = matched(false, false, false);
    // Without mention — denied by room override.
    assert_eq!(
        check_access(&c, ChatType::Group, Some(&room), &m, false),
        Err(AccessDenied::NotMentioned)
    );
    // With mention — allowed.
    assert!(check_access(&c, ChatType::Group, Some(&room), &m, true).is_ok());
}

#[test]
fn room_override_can_waive_mention() {
    let c = cfg();
    let room = MucRoomConfig {
        require_mention: Some(false),
        ..Default::default()
    };
    assert!(check_access(&c, ChatType::Group, Some(&room), &matched(false, false, false), false).is_ok());
}

#[test]
fn allowlist_dm_domain_glob() {
    let mut c = cfg();
    c.dm_policy = DmPolicy::Allowlist;
    // anyone@trusted.org matches "*@trusted.org", user@untrusted.com does not.
    assert!(check_access(&c, ChatType::Dm, None, &matched(true, false, false), false).is_ok());
    assert_eq!(
        check_access(&c, ChatType::Dm, None, &matched(false, false, false), false),
        Err(AccessDenied::NotOnAllowlist)
    );
}
