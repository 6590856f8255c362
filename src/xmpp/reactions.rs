//! Message reactions.

use vstd::prelude::*;

use crate::xmpp::element::{attrs_view, shaped, Element};
use crate::xmpp::ns;

verus! {

/// Build a reaction to message `message_id`, one `<reaction>` per emoji.
pub fn build_reaction(from: &str, to: &str, msg_type: &str, message_id: &str, emojis: &[&str]) -> (r:
    Element)
    ensures
        shaped(
            r,
            "message"@,
            ns::JABBER_CLIENT@,
            seq![("from"@, from@), ("to"@, to@), ("type"@, msg_type@)],
            1,
            seq![],
        ),
        shaped(
            r.children@[0],
            "reactions"@,
            ns::REACTIONS@,
            seq![("id"@, message_id@)],
            emojis@.len(),
            seq![],
        ),
        forall|i: int|
            0 <= i < emojis@.len() ==> shaped(
                #[trigger] r.children@[0].children@[i],
                "reaction"@,
                ns::REACTIONS@,
                seq![],
                0,
                emojis@[i]@,
            ),
{
    let mut reactions = Element::builder("reactions", ns::REACTIONS).attr("id", message_id);
    assert(attrs_view(reactions.element.attrs@) =~= seq![("id"@, message_id@)]);
    let mut i: usize = 0;
    while i < emojis.len()
        invariant
            i <= emojis@.len(),
            shaped(reactions.element, "reactions"@, ns::REACTIONS@, seq![("id"@, message_id@)], i as nat, seq![]),
            forall|k: int|
                0 <= k < i ==> shaped(
                    #[trigger] reactions.element.children@[k],
                    "reaction"@,
                    ns::REACTIONS@,
                    seq![],
                    0,
                    emojis@[k]@,
                ),
        decreases emojis@.len() - i,
    {
        let e = Element::builder("reaction", ns::REACTIONS).append_text(emojis[i]).build();
        assert(e.text@ =~= emojis@[i as int]@);
        reactions = reactions.append(e);
        i = i + 1;
    }
    let r = Element::builder("message", ns::JABBER_CLIENT).attr("from", from).attr("to", to).attr(
        "type",
        msg_type,
    ).append(reactions.build()).build();
    assert(attrs_view(r.attrs@) =~= seq![("from"@, from@), ("to"@, to@), ("type"@, msg_type@)]);
    r
}

} // verus!
