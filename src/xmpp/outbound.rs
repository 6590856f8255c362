//! What the XMPP connector sends for a reply: the sender's full JID, the
//! message type for the recipient, and the stanzas themselves. Handing the
//! stanzas to the connection is the caller's.

use vstd::prelude::*;
use vstd::string::*;

use crate::text::{chars_of, contains_string, find_char_from, next_index_of, strings_view};
use crate::xmpp::element::{shaped, Element};
use crate::xmpp::ns;
use crate::xmpp::oob::build_oob_message;
use crate::xmpp::stanza::{build_message, chunk_text, text_chunks};

verus! {

/// The bare JID of an address: what comes before the first `/`.
pub open spec fn bare_jid(to: Seq<char>) -> Seq<char> {
    to.take(next_index_of(to, '/', 0))
}

/// `groupchat` for a known room, else `chat`.
pub open spec fn message_type(rooms: Seq<Seq<char>>, configured_rooms: Seq<Seq<char>>, to: Seq<char>) -> Seq<char> {
    if rooms.contains(bare_jid(to)) || configured_rooms.contains(bare_jid(to)) {
        "groupchat"@
    } else {
        "chat"@
    }
}

/// The message type for a recipient: `groupchat` when its bare JID is one
/// of the account's rooms (auto-joined or configured), else `chat`.
pub fn msg_type_for(rooms: &Vec<String>, configured_rooms: &Vec<String>, to: &str) -> (r: &'static str)
    ensures
        r@ == message_type(strings_view(rooms@), strings_view(configured_rooms@), to@),
{
    let chars = chars_of(to);
    let cut = find_char_from(&chars, '/', 0);
    let bare = to.substring_char(0, cut);
    assert(bare@ =~= bare_jid(to@));
    if contains_string(rooms, bare) || contains_string(configured_rooms, bare) {
        "groupchat"
    } else {
        "chat"
    }
}

/// The full JID `jid/resource` an account sends from.
pub fn full_jid(jid: &str, resource: &str) -> (r: String)
    ensures
        r@ == jid@ + "/"@ + resource@,
{
    let mut s = String::from_str(jid);
    s.append("/");
    s.append(resource);
    s
}

/// Whether `e` is the chat message carrying `body`.
pub open spec fn is_text_message(e: Element, from: Seq<char>, to: Seq<char>, msg_type: Seq<char>, body: Seq<char>) -> bool {
    &&& shaped(
        e,
        "message"@,
        ns::JABBER_CLIENT@,
        seq![("from"@, from), ("to"@, to), ("type"@, msg_type)],
        1,
        seq![],
    )
    &&& shaped(e.children@[0], "body"@, ns::JABBER_CLIENT@, seq![], 0, body)
}

/// The messages that carry a text: one per chunk of at most `chunk_limit`
/// characters.
pub fn text_messages(from: &str, to: &str, msg_type: &str, text: &str, chunk_limit: usize) -> (r:
    Vec<Element>)
    requires
        chunk_limit > 0,
    ensures
        r@.len() == text_chunks(text@, chunk_limit as int).len(),
        forall|i: int|
            0 <= i < r@.len() ==> is_text_message(
                #[trigger] r@[i],
                from@,
                to@,
                msg_type@,
                text_chunks(text@, chunk_limit as int)[i],
            ),
{
    let chunks = chunk_text(text, chunk_limit);
    let ghost cv = chunks@.map_values(|c: String| c@);
    let mut out: Vec<Element> = Vec::new();
    let mut i: usize = 0;
    while i < chunks.len()
        invariant
            cv == chunks@.map_values(|c: String| c@),
            cv == text_chunks(text@, chunk_limit as int),
            i <= chunks.len(),
            out@.len() == i,
            forall|k: int|
                0 <= k < i ==> is_text_message(#[trigger] out@[k], from@, to@, msg_type@, cv[k]),
        decreases chunks.len() - i,
    {
        let m = build_message(from, to, msg_type, chunks[i].as_str());
        out.push(m);
        assert(cv[i as int] == chunks@[i as int]@);
        i = i + 1;
    }
    out
}

/// The messages for a reply with an optional media URL: an out-of-band
/// message for the URL, with the text (if any) as its description; else the
/// text's messages; else none.
pub fn media_messages(
    from: &str,
    to: &str,
    msg_type: &str,
    media_url: Option<&str>,
    text: &str,
    chunk_limit: usize,
) -> (r: Vec<Element>)
    requires
        chunk_limit > 0,
    ensures
        media_url is Some ==> r@.len() == 1 && shaped(
            r@[0],
            "message"@,
            ns::JABBER_CLIENT@,
            seq![("from"@, from@), ("to"@, to@), ("type"@, msg_type@)],
            2,
            seq![],
        ) && shaped(r@[0].children@[0], "body"@, ns::JABBER_CLIENT@, seq![], 0, media_url->Some_0@)
            && r@[0].children@[1].children.len() == (if text@.len() == 0 {
            1nat
        } else {
            2nat
        }) && shaped(r@[0].children@[1].children@[0], "url"@, ns::OOB@, seq![], 0, media_url->Some_0@)
            && (text@.len() > 0 ==> shaped(
            r@[0].children@[1].children@[1],
            "desc"@,
            ns::OOB@,
            seq![],
            0,
            text@,
        )),
        media_url is None && text@.len() > 0 ==> r@.len() == text_chunks(
            text@,
            chunk_limit as int,
        ).len() && forall|i: int|
            0 <= i < r@.len() ==> is_text_message(
                #[trigger] r@[i],
                from@,
                to@,
                msg_type@,
                text_chunks(text@, chunk_limit as int)[i],
            ),
        media_url is None && text@.len() == 0 ==> r@.len() == 0,
{
    match media_url {
        Some(url) => {
            let description = if text.unicode_len() == 0 {
                None
            } else {
                Some(text)
            };
            let mut v: Vec<Element> = Vec::new();
            v.push(build_oob_message(from, to, msg_type, url, description));
            v
        },
        None => {
            if text.unicode_len() > 0 {
                text_messages(from, to, msg_type, text, chunk_limit)
            } else {
                Vec::new()
            }
        },
    }
}

} // verus!
