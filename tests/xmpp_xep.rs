use moltis::xmpp::chat_states::{build_chat_state, parse_chat_state, ChatState};
use moltis::xmpp::element::Element;
use moltis::xmpp::http_upload::{
    build_slot_request, build_slot_request_with_id, parse_slot_response, SlotError,
};
use moltis::xmpp::muc::{build_join_presence, build_leave_presence, extract_nick, is_self_presence};
use moltis::xmpp::ns;
use moltis::xmpp::oob::{build_oob_message, parse_oob_url};
use moltis::xmpp::reactions::build_reaction;

#[test]
fn composing_notification() {
    let el = build_chat_state(
        "bot@example.com",
        "user@example.com",
        "chat",
        ChatState::Composing,
    );
    assert_eq!(el.name(), "message");
    let composing = el.get_child("composing", ns::CHAT_STATES);
    assert!(composing.is_some());
    // No body element
    assert!(el.get_child("body", ns::JABBER_CLIENT).is_none());
}

#[test]
fn parse_active_state() {
    let el = build_chat_state(
        "bot@example.com",
        "user@example.com",
        "chat",
        ChatState::Active,
    );
    assert_eq!(parse_chat_state(&el), Some(ChatState::Active));
}

#[test]
fn parse_no_state() {
    let el = Element::builder("message", ns::JABBER_CLIENT).build();
    assert_eq!(parse_chat_state(&el), None);
}

#[test]
fn parse_each_chat_state() {
    for st in [
        ChatState::Active,
        ChatState::Composing,
        ChatState::Paused,
        ChatState::Inactive,
        ChatState::Gone,
    ] {
        let el = build_chat_state("a@x", "b@x", "chat", st);
        assert_eq!(parse_chat_state(&el), Some(st));
    }
    let unknown = Element::builder("message", ns::JABBER_CLIENT)
        .append(Element::builder("typing", ns::CHAT_STATES).build())
        .build();
    assert_eq!(parse_chat_state(&unknown), None);
}

#[test]
fn slot_request_structure() {
    let (iq, id) = build_slot_request(
        "bot@example.com",
        "upload.example.com",
        "photo.jpg",
        12345,
        Some("image/jpeg"),
    );
    assert_eq!(iq.name(), "iq");
    assert_eq!(iq.attr("type"), Some("get"));
    assert_eq!(iq.attr("id"), Some(id.as_str()));
    assert!(id.starts_with("upload-"));
    let request = iq.get_child("request", ns::HTTP_UPLOAD).unwrap();
    assert_eq!(request.attr("filename"), Some("photo.jpg"));
    assert_eq!(request.attr("size"), Some("12345"));
    assert_eq!(request.attr("content-type"), Some("image/jpeg"));
}

#[test]
fn slot_request_with_given_id() {
    let iq = build_slot_request_with_id("a@x", "up.x", "f.bin", 0, None, "upload-ff");
    assert_eq!(iq.attr("id"), Some("upload-ff"));
    assert_eq!(iq.attr("to"), Some("up.x"));
    let request = iq.get_child("request", ns::HTTP_UPLOAD).unwrap();
    assert_eq!(request.attr("size"), Some("0"));
    assert!(request.attr("content-type").is_none());
}

#[test]
fn parse_slot() {
    let slot_xml = Element::builder("iq", ns::JABBER_CLIENT)
        .attr("type", "result")
        .append(
            Element::builder("slot", ns::HTTP_UPLOAD)
                .append(
                    Element::builder("put", ns::HTTP_UPLOAD)
                        .attr("url", "https://upload.example.com/put/abc")
                        .build(),
                )
                .append(
                    Element::builder("get", ns::HTTP_UPLOAD)
                        .attr("url", "https://upload.example.com/get/abc")
                        .build(),
                )
                .build(),
        )
        .build();

    let slot = parse_slot_response(&slot_xml).unwrap();
    assert_eq!(slot.put_url, "https://upload.example.com/put/abc");
    assert_eq!(slot.get_url, "https://upload.example.com/get/abc");
}

#[test]
fn parse_slot_headers_and_errors() {
    let put = Element::builder("put", ns::HTTP_UPLOAD)
        .attr("url", "https://u/put")
        .append(
            Element::builder("header", ns::HTTP_UPLOAD)
                .attr("name", "Authorization")
                .append_text("Basic abc")
                .build(),
        )
        .append(Element::builder("header", ns::HTTP_UPLOAD).append_text("no name").build())
        .build();
    let get = Element::builder("get", ns::HTTP_UPLOAD).attr("url", "https://u/get").build();
    let iq = Element::builder("iq", ns::JABBER_CLIENT)
        .append(Element::builder("slot", ns::HTTP_UPLOAD).append(put).append(get).build())
        .build();
    let slot = parse_slot_response(&iq).unwrap();
    assert_eq!(
        slot.put_headers,
        vec![("Authorization".to_string(), "Basic abc".to_string())]
    );

    let empty = Element::builder("iq", ns::JABBER_CLIENT).build();
    let err = parse_slot_response(&empty).unwrap_err();
    assert_eq!(err, SlotError::MissingSlot);
    assert_eq!(err.message(), "missing <slot> in upload response");

    let no_get = Element::builder("iq", ns::JABBER_CLIENT)
        .append(
            Element::builder("slot", ns::HTTP_UPLOAD)
                .append(Element::builder("put", ns::HTTP_UPLOAD).build())
                .build(),
        )
        .build();
    assert_eq!(parse_slot_response(&no_get).unwrap_err(), SlotError::MissingGet);

    let no_url = Element::builder("iq", ns::JABBER_CLIENT)
        .append(
            Element::builder("slot", ns::HTTP_UPLOAD)
                .append(Element::builder("put", ns::HTTP_UPLOAD).build())
                .append(Element::builder("get", ns::HTTP_UPLOAD).build())
                .build(),
        )
        .build();
    assert_eq!(parse_slot_response(&no_url).unwrap_err(), SlotError::MissingPutUrl);
}

#[test]
fn join_presence_has_muc_extension() {
    let el = build_join_presence("bot@example.com/moltis", "room@conference.example.com/Bot");
    assert_eq!(el.name(), "presence");
    assert!(el.attr("type").is_none()); // Available presence has no type
    let x = el.get_child("x", ns::MUC);
    assert!(x.is_some());
}

#[test]
fn leave_presence_is_unavailable() {
    let el = build_leave_presence("bot@example.com/moltis", "room@conference.example.com/Bot");
    assert_eq!(el.attr("type"), Some("unavailable"));
}

#[test]
fn extract_nick_works() {
    assert_eq!(extract_nick("room@conference.example.com/Bot"), Some("Bot"));
    assert_eq!(extract_nick("room@conference.example.com"), None);
}

#[test]
fn extract_nick_stops_at_next_slash() {
    assert_eq!(extract_nick("room@x/nick/extra"), Some("nick"));
    assert_eq!(extract_nick("room@x/"), Some(""));
}

#[test]
fn self_presence_detects_status_110() {
    let echo = Element::builder("presence", ns::JABBER_CLIENT)
        .append(
            Element::builder("x", ns::MUC_USER)
                .append(Element::builder("status", ns::MUC_USER).attr("code", "100").build())
                .append(Element::builder("status", ns::MUC_USER).attr("code", "110").build())
                .build(),
        )
        .build();
    assert!(is_self_presence(&echo));
    let other = Element::builder("presence", ns::JABBER_CLIENT)
        .append(
            Element::builder("x", ns::MUC_USER)
                .append(Element::builder("status", ns::MUC_USER).attr("code", "100").build())
                .build(),
        )
        .build();
    assert!(!is_self_presence(&other));
    let join = build_join_presence("a@x", "room@x/a");
    assert!(!is_self_presence(&join));
}

#[test]
fn oob_message_has_url() {
    let el = build_oob_message(
        "bot@example.com",
        "user@example.com",
        "chat",
        "https://example.com/image.png",
        Some("An image"),
    );
    let x = el.get_child("x", ns::OOB).unwrap();
    let url = x.get_child("url", ns::OOB).unwrap();
    assert_eq!(url.text(), "https://example.com/image.png");

    let desc = x.get_child("desc", ns::OOB).unwrap();
    assert_eq!(desc.text(), "An image");
}

#[test]
fn parse_oob() {
    let el = build_oob_message(
        "bot@example.com",
        "user@example.com",
        "chat",
        "https://example.com/file.pdf",
        None,
    );
    assert_eq!(
        parse_oob_url(&el),
        Some("https://example.com/file.pdf".to_string())
    );
}

#[test]
fn parse_no_oob() {
    let el = Element::builder("message", ns::JABBER_CLIENT).build();
    assert_eq!(parse_oob_url(&el), None);
}

#[test]
fn single_reaction() {
    let el = build_reaction("bot@example.com", "user@example.com", "chat", "msg-123", &[
        "\u{1f44d}",
    ]);
    let reactions = el.get_child("reactions", ns::REACTIONS).unwrap();
    assert_eq!(reactions.attr("id"), Some("msg-123"));
    let reaction_children: Vec<_> = reactions
        .children()
        .iter()
        .filter(|c| c.name() == "reaction")
        .collect();
    assert_eq!(reaction_children.len(), 1);
    assert_eq!(reaction_children[0].text(), "\u{1f44d}");
}

#[test]
fn multiple_reactions() {
    let el = build_reaction("bot@example.com", "user@example.com", "chat", "msg-456", &[
        "\u{1f44d}",
        "\u{2764}",
    ]);
    let reactions = el.get_child("reactions", ns::REACTIONS).unwrap();
    let children: Vec<_> = reactions
        .children()
        .iter()
        .filter(|c| c.name() == "reaction")
        .collect();
    assert_eq!(children.len(), 2);
}
