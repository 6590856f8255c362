//! Chat state notifications: composing, active, paused and the rest.

use vstd::prelude::*;

use crate::text::str_eq;
use crate::xmpp::element::{attrs_view, shaped, Element};
use crate::xmpp::ns;

verus! {

/// The chat states a message can carry.
#[derive(Debug, Clone, Copy, PartialEq, Eq, Structural)]
pub enum ChatState {
    Active,
    Composing,
    Paused,
    Inactive,
    Gone,
}

pub open spec fn chat_state_name(s: ChatState) -> Seq<char> {
    match s {
        ChatState::Active => "active"@,
        ChatState::Composing => "composing"@,
        ChatState::Paused => "paused"@,
        ChatState::Inactive => "inactive"@,
        ChatState::Gone => "gone"@,
    }
}

pub open spec fn chat_state_from_name(n: Seq<char>) -> Option<ChatState> {
    if n == "active"@ {
        Some(ChatState::Active)
    } else if n == "composing"@ {
        Some(ChatState::Composing)
    } else if n == "paused"@ {
        Some(ChatState::Paused)
    } else if n == "inactive"@ {
        Some(ChatState::Inactive)
    } else if n == "gone"@ {
        Some(ChatState::Gone)
    } else {
        None
    }
}

impl ChatState {
    /// The name of the state's element.
    pub fn element_name(self) -> (r: &'static str)
        ensures
            r@ == chat_state_name(self),
    {
        match self {
            ChatState::Active => "active",
            ChatState::Composing => "composing",
            ChatState::Paused => "paused",
            ChatState::Inactive => "inactive",
            ChatState::Gone => "gone",
        }
    }
}

/// Build a `<message>` that carries a chat state and no body.
pub fn build_chat_state(from: &str, to: &str, msg_type: &str, state: ChatState) -> (r: Element)
    ensures
        shaped(
            r,
            "message"@,
            ns::JABBER_CLIENT@,
            seq![("from"@, from@), ("to"@, to@), ("type"@, msg_type@)],
            1,
            seq![],
        ),
        shaped(r.children@[0], chat_state_name(state), ns::CHAT_STATES@, seq![], 0, seq![]),
{
    let child = Element::builder(state.element_name(), ns::CHAT_STATES).build();
    let r = Element::builder("message", ns::JABBER_CLIENT).attr("from", from).attr("to", to).attr(
        "type",
        msg_type,
    ).append(child).build();
    assert(attrs_view(r.attrs@) =~= seq![("from"@, from@), ("to"@, to@), ("type"@, msg_type@)]);
    r
}

/// Whether `i` is the first child in namespace `ns`.
pub open spec fn is_first_in_ns(children: Seq<Element>, ns: Seq<char>, i: int) -> bool {
    &&& 0 <= i < children.len()
    &&& children[i].ns@ == ns
    &&& forall|j: int| 0 <= j < i ==> (#[trigger] children[j]).ns@ != ns
}

/// The state named by the first child in the chat state namespace, if any.
pub open spec fn chat_state_of(children: Seq<Element>) -> Option<ChatState> {
    if exists|i: int| is_first_in_ns(children, ns::CHAT_STATES@, i) {
        chat_state_from_name(
            children[choose|i: int| is_first_in_ns(children, ns::CHAT_STATES@, i)].name@,
        )
    } else {
        None
    }
}

fn chat_state_named(n: &str) -> (r: Option<ChatState>)
    ensures
        r == chat_state_from_name(n@),
{
    if str_eq(n, "active") {
        Some(ChatState::Active)
    } else if str_eq(n, "composing") {
        Some(ChatState::Composing)
    } else if str_eq(n, "paused") {
        Some(ChatState::Paused)
    } else if str_eq(n, "inactive") {
        Some(ChatState::Inactive)
    } else if str_eq(n, "gone") {
        Some(ChatState::Gone)
    } else {
        None
    }
}

/// The chat state of a message, read from its first child in the chat
/// state namespace.
pub fn parse_chat_state(element: &Element) -> (r: Option<ChatState>)
    ensures
        r == chat_state_of(element.children@),
{
    let mut i: usize = 0;
    while i < element.children.len()
        invariant
            i <= element.children.len(),
            forall|j: int| 0 <= j < i ==> (#[trigger] element.children@[j]).ns@ != ns::CHAT_STATES@,
        decreases element.children.len() - i,
    {
        if str_eq(element.children[i].ns.as_str(), ns::CHAT_STATES) {
            proof {
                let c = element.children@;
                assert(is_first_in_ns(c, ns::CHAT_STATES@, i as int));
                let k = choose|k: int| is_first_in_ns(c, ns::CHAT_STATES@, k);
                if k < i as int {
                    assert(c[k].ns@ != ns::CHAT_STATES@);
                } else if k > i as int {
                    assert(c[i as int].ns@ != ns::CHAT_STATES@);
                }
            }
            return chat_state_named(element.children[i].name.as_str());
        }
        i = i + 1;
    }
    None
}

} // verus!
