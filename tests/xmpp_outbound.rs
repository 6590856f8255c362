use moltis::xmpp::config::{check_credentials, CredentialError};
use moltis::xmpp::element::Element;
use moltis::xmpp::ns;
use moltis::xmpp::stanza::{stanza_kind, StanzaKind};
use moltis::xmpp::outbound::{full_jid, media_messages, msg_type_for, text_messages};

#[test]
fn message_type_by_room() {
    let rooms = vec!["room@conf.example.com".to_string()];
    let configured = vec!["other@conf.example.com".to_string()];
    assert_eq!(msg_type_for(&rooms, &configured, "room@conf.example.com/nick"), "groupchat");
    assert_eq!(msg_type_for(&rooms, &configured, "other@conf.example.com"), "groupchat");
    assert_eq!(msg_type_for(&rooms, &configured, "user@example.com/phone"), "chat");
}

#[test]
fn sender_full_jid() {
    assert_eq!(full_jid("bot@example.com", "moltis"), "bot@example.com/moltis");
}

#[test]
fn text_split_into_messages() {
    let msgs = text_messages("bot@x/r", "user@x", "chat", "line1\nline2\nline3", 10);
    assert_eq!(msgs.len(), 3);
    let bodies: Vec<String> = msgs
        .iter()
        .map(|m| m.get_child("body", ns::JABBER_CLIENT).unwrap().text())
        .collect();
    assert_eq!(bodies, vec!["line1\n", "line2\n", "line3"]);
    assert_eq!(msgs[0].attr("type"), Some("chat"));
}

#[test]
fn media_reply_forms() {
    let with_url = media_messages("a@x/r", "b@x", "chat", Some("https://x/f.png"), "A file", 100);
    assert_eq!(with_url.len(), 1);
    let x = with_url[0].get_child("x", ns::OOB).unwrap();
    assert_eq!(x.get_child("desc", ns::OOB).unwrap().text(), "A file");
    let bare_url = media_messages("a@x/r", "b@x", "chat", Some("https://x/f.png"), "", 100);
    assert!(bare_url[0].get_child("x", ns::OOB).unwrap().get_child("desc", ns::OOB).is_none());
    let text_only = media_messages("a@x/r", "b@x", "chat", None, "hello", 100);
    assert_eq!(text_only.len(), 1);
    assert!(media_messages("a@x/r", "b@x", "chat", None, "", 100).is_empty());
}

#[test]
fn stanza_kinds() {
    let msg = moltis::xmpp::stanza::build_message("a@x", "b@x", "chat", "hi");
    assert_eq!(stanza_kind(&msg), Ok(StanzaKind::Message));
    let pres = moltis::xmpp::stanza::build_presence("a@x", None);
    assert_eq!(stanza_kind(&pres), Ok(StanzaKind::Presence));
    let (iq, _) = moltis::xmpp::http_upload::build_slot_request("a@x", "up.x", "f", 1, None);
    assert_eq!(stanza_kind(&iq), Ok(StanzaKind::Iq));
    let other = Element::builder("x", ns::MUC).build();
    assert_eq!(stanza_kind(&other), Err("unsupported stanza type: x".to_string()));
}

#[test]
fn account_credentials_required() {
    assert_eq!(check_credentials("", "pass"), Err(CredentialError::MissingJid));
    assert!(check_credentials("", "pass").unwrap_err().message().contains("JID is required"));
    assert_eq!(check_credentials("bot@example.com", ""), Err(CredentialError::MissingPassword));
    assert!(CredentialError::MissingPassword.message().contains("password is required"));
    assert!(check_credentials("bot@example.com", "pass").is_ok());
}
