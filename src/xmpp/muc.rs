//! Multi-user chat: joining and leaving rooms, and reading room presence.

use vstd::prelude::*;
use vstd::string::*;

use crate::text::{chars_of, str_eq};
use crate::xmpp::element::{attr_value, attrs_view, first_child, shaped, Element};
use crate::xmpp::ns;

verus! {

/// Build the presence that joins a room; `room_jid_with_nick` is
/// `room@service/nick`.
pub fn build_join_presence(from: &str, room_jid_with_nick: &str) -> (r: Element)
    ensures
        shaped(
            r,
            "presence"@,
            ns::JABBER_CLIENT@,
            seq![("from"@, from@), ("to"@, room_jid_with_nick@)],
            1,
            seq![],
        ),
        shaped(r.children@[0], "x"@, ns::MUC@, seq![], 0, seq![]),
{
    let muc_ext = Element::builder("x", ns::MUC).build();
    let r = Element::builder("presence", ns::JABBER_CLIENT).attr("from", from).attr(
        "to",
        room_jid_with_nick,
    ).append(muc_ext).build();
    assert(attrs_view(r.attrs@) =~= seq![("from"@, from@), ("to"@, room_jid_with_nick@)]);
    r
}

/// Build the presence that leaves a room.
pub fn build_leave_presence(from: &str, room_jid_with_nick: &str) -> (r: Element)
    ensures
        shaped(
            r,
            "presence"@,
            ns::JABBER_CLIENT@,
            seq![("from"@, from@), ("to"@, room_jid_with_nick@), ("type"@, "unavailable"@)],
            0,
            seq![],
        ),
{
    let r = Element::builder("presence", ns::JABBER_CLIENT).attr("from", from).attr(
        "to",
        room_jid_with_nick,
    ).attr("type", "unavailable").build();
    assert(attrs_view(r.attrs@) =~= seq![
        ("from"@, from@),
        ("to"@, room_jid_with_nick@),
        ("type"@, "unavailable"@),
    ]);
    r
}

/// The first `/` at or after `from`, or the length.
pub open spec fn next_slash(s: Seq<char>, from: int) -> int
    decreases s.len() - from,
{
    if from < 0 || from >= s.len() {
        s.len() as int
    } else if s[from] == '/' {
        from
    } else {
        next_slash(s, from + 1)
    }
}

/// The second `/`-separated part of a JID: the nickname of a room JID.
pub open spec fn nick_of(s: Seq<char>) -> Option<Seq<char>> {
    let i = next_slash(s, 0);
    if i >= s.len() {
        None
    } else {
        Some(s.subrange(i + 1, next_slash(s, i + 1)))
    }
}

proof fn lemma_next_slash_bounds(s: Seq<char>, from: int)
    requires
        0 <= from <= s.len(),
    ensures
        from <= next_slash(s, from) <= s.len(),
    decreases s.len() - from,
{
    if from < s.len() && s[from] != '/' {
        lemma_next_slash_bounds(s, from + 1);
    }
}

fn find_slash(chars: &Vec<char>, from: usize) -> (r: usize)
    requires
        from <= chars.len(),
    ensures
        r == next_slash(chars@, from as int),
{
    let mut k = from;
    while k < chars.len() && chars[k] != '/'
        invariant
            from <= k <= chars.len(),
            next_slash(chars@, from as int) == next_slash(chars@, k as int),
        decreases chars.len() - k,
    {
        k = k + 1;
    }
    k
}

/// The nickname (resource part) of a full room JID.
pub fn extract_nick(full_jid: &str) -> (r: Option<&str>)
    ensures
        match r {
            Some(n) => nick_of(full_jid@) == Some(n@),
            None => nick_of(full_jid@) is None,
        },
{
    let chars = chars_of(full_jid);
    let i = find_slash(&chars, 0);
    if i >= chars.len() {
        return None;
    }
    let j = find_slash(&chars, i + 1);
    proof {
        lemma_next_slash_bounds(chars@, i as int + 1);
    }
    Some(full_jid.substring_char(i + 1, j))
}

/// Whether a presence is the server's echo of our own join: its room
/// extension has a status child with code 110.
pub open spec fn self_presence(e: Element) -> bool {
    match first_child(e.children@, "x"@, ns::MUC_USER@) {
        None => false,
        Some(x) => exists|i: int|
            0 <= i < x.children.len() && (#[trigger] x.children@[i]).name@ == "status"@ && attr_value(
                attrs_view(x.children@[i].attrs@),
                "code"@,
            ) == Some("110"@),
    }
}

/// Whether a presence is the echo of our own join.
pub fn is_self_presence(element: &Element) -> (r: bool)
    ensures
        r == self_presence(*element),
{
    match element.get_child("x", ns::MUC_USER) {
        None => false,
        Some(x) => {
            let mut i: usize = 0;
            while i < x.children.len()
                invariant
                    first_child(element.children@, "x"@, ns::MUC_USER@) == Some(*x),
                    i <= x.children.len(),
                    forall|j: int|
                        0 <= j < i ==> !((#[trigger] x.children@[j]).name@ == "status"@
                            && attr_value(attrs_view(x.children@[j].attrs@), "code"@) == Some(
                            "110"@,
                        )),
                decreases x.children.len() - i,
            {
                let c = &x.children[i];
                if str_eq(c.name.as_str(), "status") {
                    match c.attr("code") {
                        Some(code) => {
                            if str_eq(code, "110") {
                                assert(x.children@[i as int].name@ == "status"@ && attr_value(
                                    attrs_view(x.children@[i as int].attrs@),
                                    "code"@,
                                ) == Some("110"@));
                                return true;
                            }
                        },
                        None => {},
                    }
                }
                i = i + 1;
            }
            false
        },
    }
}

} // verus!
