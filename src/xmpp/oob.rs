//! Out-of-band data: a media URL attached to a message.

use vstd::prelude::*;

use crate::xmpp::element::{attrs_view, first_child, shaped, Element};
use crate::xmpp::ns;

verus! {

/// Build a `<message>` whose body is the URL and which carries the URL, and
/// optionally a description, in an out-of-band extension.
pub fn build_oob_message(
    from: &str,
    to: &str,
    msg_type: &str,
    url: &str,
    description: Option<&str>,
) -> (r: Element)
    ensures
        shaped(
            r,
            "message"@,
            ns::JABBER_CLIENT@,
            seq![("from"@, from@), ("to"@, to@), ("type"@, msg_type@)],
            2,
            seq![],
        ),
        shaped(r.children@[0], "body"@, ns::JABBER_CLIENT@, seq![], 0, url@),
        shaped(
            r.children@[1],
            "x"@,
            ns::OOB@,
            seq![],
            if description is Some {
                2
            } else {
                1
            },
            seq![],
        ),
        shaped(r.children@[1].children@[0], "url"@, ns::OOB@, seq![], 0, url@),
        description is Some ==> shaped(
            r.children@[1].children@[1],
            "desc"@,
            ns::OOB@,
            seq![],
            0,
            description->Some_0@,
        ),
{
    let url_el = Element::builder("url", ns::OOB).append_text(url).build();
    assert(url_el.text@ =~= url@);
    let mut oob = Element::builder("x", ns::OOB).append(url_el);
    if let Some(desc) = description {
        let desc_el = Element::builder("desc", ns::OOB).append_text(desc).build();
        assert(desc_el.text@ =~= desc@);
        oob = oob.append(desc_el);
    }
    let body = Element::builder("body", ns::JABBER_CLIENT).append_text(url).build();
    assert(body.text@ =~= url@);
    let r = Element::builder("message", ns::JABBER_CLIENT).attr("from", from).attr("to", to).attr(
        "type",
        msg_type,
    ).append(body).append(oob.build()).build();
    assert(attrs_view(r.attrs@) =~= seq![("from"@, from@), ("to"@, to@), ("type"@, msg_type@)]);
    r
}

/// The URL of a message's out-of-band extension.
pub open spec fn oob_url(e: Element) -> Option<Seq<char>> {
    match first_child(e.children@, "x"@, ns::OOB@) {
        None => None,
        Some(x) => match first_child(x.children@, "url"@, ns::OOB@) {
            None => None,
            Some(u) => Some(u.text@),
        },
    }
}

/// The URL carried out of band, if the message has one.
pub fn parse_oob_url(element: &Element) -> (r: Option<String>)
    ensures
        match r {
            Some(u) => oob_url(*element) == Some(u@),
            None => oob_url(*element) is None,
        },
{
    match element.get_child("x", ns::OOB) {
        None => None,
        Some(x) => match x.get_child("url", ns::OOB) {
            None => None,
            Some(u) => Some(u.text()),
        },
    }
}

} // verus!
