//! Builders for `<message>` and `<presence>` stanzas, and splitting of long
//! message bodies.

use vstd::prelude::*;
use vstd::string::*;

use crate::text::{chars_of, str_eq};
use crate::xmpp::element::{attrs_view, shaped, Element};
use crate::xmpp::ns;

verus! {

/// Build a `<message>` with a `<body>`; `msg_type` is `chat` for one to one
/// and `groupchat` for a room.
pub fn build_message(from: &str, to: &str, msg_type: &str, body: &str) -> (r: Element)
    ensures
        shaped(
            r,
            "message"@,
            ns::JABBER_CLIENT@,
            seq![("from"@, from@), ("to"@, to@), ("type"@, msg_type@)],
            1,
            seq![],
        ),
        shaped(r.children@[0], "body"@, ns::JABBER_CLIENT@, seq![], 0, body@),
{
    let body_el = Element::builder("body", ns::JABBER_CLIENT).append_text(body).build();
    let r = Element::builder("message", ns::JABBER_CLIENT).attr("from", from).attr("to", to).attr(
        "type",
        msg_type,
    ).append(body_el).build();
    assert(attrs_view(r.attrs@) =~= seq![("from"@, from@), ("to"@, to@), ("type"@, msg_type@)]);
    assert(body_el.text@ =~= body@);
    r
}

pub open spec fn opt_attr(name: Seq<char>, v: Option<&str>) -> Seq<(Seq<char>, Seq<char>)> {
    match v {
        Some(s) => seq![(name, s@)],
        None => seq![],
    }
}

/// Build a `<presence>`, initial or directed to `to`.
pub fn build_presence(from: &str, to: Option<&str>) -> (r: Element)
    ensures
        shaped(
            r,
            "presence"@,
            ns::JABBER_CLIENT@,
            seq![("from"@, from@)] + opt_attr("to"@, to),
            0,
            seq![],
        ),
{
    let mut b = Element::builder("presence", ns::JABBER_CLIENT).attr("from", from);
    if let Some(to) = to {
        b = b.attr("to", to);
    }
    let r = b.build();
    assert(attrs_view(r.attrs@) =~= seq![("from"@, from@)] + opt_attr("to"@, to));
    r
}

/// Build a `<presence type="unavailable">`.
pub fn build_unavailable(from: &str, to: Option<&str>) -> (r: Element)
    ensures
        shaped(
            r,
            "presence"@,
            ns::JABBER_CLIENT@,
            seq![("from"@, from@), ("type"@, "unavailable"@)] + opt_attr("to"@, to),
            0,
            seq![],
        ),
{
    let mut b = Element::builder("presence", ns::JABBER_CLIENT).attr("from", from).attr(
        "type",
        "unavailable",
    );
    if let Some(to) = to {
        b = b.attr("to", to);
    }
    let r = b.build();
    assert(attrs_view(r.attrs@) =~= seq![("from"@, from@), ("type"@, "unavailable"@)] + opt_attr(
        "to"@,
        to,
    ));
    r
}

/// Just past the last newline among the first `n` characters, or 0.
pub open spec fn newline_cut(s: Seq<char>, n: int) -> int
    decreases n,
{
    if n <= 0 {
        0
    } else if s[n - 1] == '\n' {
        n
    } else {
        newline_cut(s, n - 1)
    }
}

/// Where the first chunk of an over-long text ends: after the last newline
/// within the limit, else at the limit.
pub open spec fn cut_point(s: Seq<char>, max: int) -> int {
    let c = newline_cut(s, max);
    if c > 0 {
        c
    } else {
        max
    }
}

/// The chunks of a text of at most `max` characters each.
pub open spec fn text_chunks(s: Seq<char>, max: int) -> Seq<Seq<char>>
    decreases s.len(),
{
    let k = cut_point(s, max);
    if s.len() <= max || k <= 0 || k > s.len() {
        seq![s]
    } else {
        seq![s.take(k)] + text_chunks(s.skip(k), max)
    }
}

proof fn lemma_newline_cut_bounds(s: Seq<char>, n: int)
    ensures
        0 <= newline_cut(s, n) <= (if n > 0 { n } else { 0 }),
    decreases n,
{
    if n > 0 {
        lemma_newline_cut_bounds(s, n - 1);
    }
}

/// Split a text into chunks of at most `max_len` characters, cutting just
/// after a newline where one falls within the limit.
pub fn chunk_text(text: &str, max_len: usize) -> (r: Vec<String>)
    requires
        max_len > 0,
    ensures
        r@.map_values(|c: String| c@) == text_chunks(text@, max_len as int),
{
    let chars = chars_of(text);
    let n = chars.len();
    let max = max_len;
    let ghost s = text@;
    let mut out: Vec<String> = Vec::new();
    if n <= max {
        out.push(String::from_str(text));
        assert(out@.map_values(|c: String| c@) =~= seq![s]);
        return out;
    }
    let mut pos: usize = 0;
    assert(s.skip(0) =~= s);
    assert(out@.map_values(|c: String| c@) =~= Seq::<Seq<char>>::empty());
    while n - pos > max
        invariant
            s == text@,
            chars@ == s,
            n == s.len(),
            pos < n,
            max > 0,
            out@.map_values(|c: String| c@) + text_chunks(s.skip(pos as int), max as int) == text_chunks(s, max as int),
        decreases n - pos,
    {
        let ghost t = s.skip(pos as int);
        let mut m: usize = max;
        let mut cut: usize = 0;
        while m > 0
            invariant
                chars@ == s,
                n == s.len(),
                t == s.skip(pos as int),
                m <= max,
                pos + max < n,
                cut == 0 ==> newline_cut(t, max as int) == newline_cut(t, m as int),
                cut > 0 ==> newline_cut(t, max as int) == cut && cut <= max && m == 0,
            decreases m,
        {
            assert(t[m - 1] == s[pos + m - 1]);
            if chars[pos + m - 1] == '\n' {
                assert(newline_cut(t, m as int) == m as int);
                cut = m;
                m = 0;
            } else {
                m = m - 1;
            }
        }
        let k: usize = if cut > 0 { cut } else { max };
        proof {
            lemma_newline_cut_bounds(t, max as int);
            assert(k as int == cut_point(t, max as int));
            assert(t.skip(k as int) =~= s.skip(pos + k));
            assert(t.take(k as int) =~= s.subrange(pos as int, pos + k));
        }
        let piece = text.substring_char(pos, pos + k);
        let ghost before = out@.map_values(|c: String| c@);
        out.push(String::from_str(piece));
        assert(out@.map_values(|c: String| c@) =~= before.push(t.take(k as int)));
        assert(before.push(t.take(k as int)) + text_chunks(s.skip(pos + k), max as int) =~= before + (seq![t.take(k as int)] + text_chunks(t.skip(k as int), max as int)));
        pos = pos + k;
    }
    let ghost before = out@.map_values(|c: String| c@);
    let rest = text.substring_char(pos, n);
    out.push(String::from_str(rest));
    assert(s.skip(pos as int) =~= s.subrange(pos as int, n as int));
    assert(out@.map_values(|c: String| c@) =~= before + seq![s.skip(pos as int)]);
    out
}

/// The top-level stanza kinds a connection sends.
#[derive(Debug, Clone, Copy, PartialEq, Eq, Structural)]
pub enum StanzaKind {
    Message,
    Presence,
    Iq,
}

/// The kind of stanza an element's name gives, if it is one.
pub open spec fn stanza_kind_of(name: Seq<char>) -> Option<StanzaKind> {
    if name == "message"@ {
        Some(StanzaKind::Message)
    } else if name == "presence"@ {
        Some(StanzaKind::Presence)
    } else if name == "iq"@ {
        Some(StanzaKind::Iq)
    } else {
        None
    }
}

/// Which kind of stanza an element is; other elements cannot be sent, and
/// the error names them (`unsupported stanza type: <name>`).
pub fn stanza_kind(element: &Element) -> (r: Result<StanzaKind, String>)
    ensures
        match stanza_kind_of(element.name@) {
            Some(k) => r == Ok::<StanzaKind, String>(k),
            None => r is Err && r->Err_0@ == "unsupported stanza type: "@ + element.name@,
        },
{
    let name = element.name.as_str();
    if str_eq(name, "message") {
        Ok(StanzaKind::Message)
    } else if str_eq(name, "presence") {
        Ok(StanzaKind::Presence)
    } else if str_eq(name, "iq") {
        Ok(StanzaKind::Iq)
    } else {
        let mut s = String::from_str("unsupported stanza type: ");
        s.append(name);
        Err(s)
    }
}

} // verus!
