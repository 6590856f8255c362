//! XMPP namespaces.

use vstd::prelude::*;

verus! {

pub const JABBER_CLIENT: &'static str = "jabber:client";

pub const MUC: &'static str = "http://jabber.org/protocol/muc";

pub const MUC_USER: &'static str = "http://jabber.org/protocol/muc#user";

pub const CHAT_STATES: &'static str = "http://jabber.org/protocol/chatstates";

pub const OOB: &'static str = "jabber:x:oob";

pub const REACTIONS: &'static str = "urn:xmpp:reactions:0";

pub const HTTP_UPLOAD: &'static str = "urn:xmpp:http:upload:0";

} // verus!
