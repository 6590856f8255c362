//! HTTP file upload: ask the server for an upload slot, and read the slot
//! it grants.

use vstd::prelude::*;
use vstd::string::*;

use crate::numbers::{decimal, decimal_string};
use crate::xmpp::element::{attr_value, attrs_view, first_child, shaped, Element};
use crate::xmpp::ns;
use crate::xmpp::stanza::opt_attr;

verus! {

/// An upload slot: where to PUT the file, where it can then be fetched, and
/// the headers the PUT must carry.
#[derive(Debug, Clone)]
pub struct UploadSlot {
    pub put_url: String,
    pub get_url: String,
    pub put_headers: Vec<(String, String)>,
}

/// What is missing from an upload slot response.
#[derive(Debug, Clone, Copy, PartialEq, Eq, Structural)]
pub enum SlotError {
    MissingSlot,
    MissingPut,
    MissingGet,
    MissingPutUrl,
    MissingGetUrl,
}

pub open spec fn slot_error_message(e: SlotError) -> Seq<char> {
    match e {
        SlotError::MissingSlot => "missing <slot> in upload response"@,
        SlotError::MissingPut => "missing <put> in upload slot"@,
        SlotError::MissingGet => "missing <get> in upload slot"@,
        SlotError::MissingPutUrl => "missing url attribute on <put>"@,
        SlotError::MissingGetUrl => "missing url attribute on <get>"@,
    }
}

impl SlotError {
    /// The descriptive text of the error.
    pub fn message(&self) -> (r: &'static str)
        ensures
            r@ == slot_error_message(*self),
    {
        match self {
            SlotError::MissingSlot => "missing <slot> in upload response",
            SlotError::MissingPut => "missing <put> in upload slot",
            SlotError::MissingGet => "missing <get> in upload slot",
            SlotError::MissingPutUrl => "missing url attribute on <put>",
            SlotError::MissingGetUrl => "missing url attribute on <get>",
        }
    }
}

/// The IQ that asks `upload_service` for a slot for a file, correlated by
/// `id`.
pub open spec fn slot_request_shape(
    iq: Element,
    from: Seq<char>,
    upload_service: Seq<char>,
    filename: Seq<char>,
    size: u64,
    content_type: Option<&str>,
    id: Seq<char>,
) -> bool {
    &&& shaped(
        iq,
        "iq"@,
        ns::JABBER_CLIENT@,
        seq![("from"@, from), ("to"@, upload_service), ("type"@, "get"@), ("id"@, id)],
        1,
        seq![],
    )
    &&& shaped(
        iq.children@[0],
        "request"@,
        ns::HTTP_UPLOAD@,
        seq![("filename"@, filename), ("size"@, decimal(size as nat))] + opt_attr(
            "content-type"@,
            content_type,
        ),
        0,
        seq![],
    )
}

/// Build the slot request IQ with a given correlation id.
pub fn build_slot_request_with_id(
    from: &str,
    upload_service: &str,
    filename: &str,
    size: u64,
    content_type: Option<&str>,
    id: &str,
) -> (r: Element)
    ensures
        slot_request_shape(r, from@, upload_service@, filename@, size, content_type, id@),
{
    let size_text = decimal_string(size);
    let mut request = Element::builder("request", ns::HTTP_UPLOAD).attr("filename", filename).attr(
        "size",
        size_text.as_str(),
    );
    if let Some(ct) = content_type {
        request = request.attr("content-type", ct);
    }
    let req = request.build();
    assert(attrs_view(req.attrs@) =~= seq![("filename"@, filename@), ("size"@, decimal(size as nat))]
        + opt_attr("content-type"@, content_type));
    let r = Element::builder("iq", ns::JABBER_CLIENT).attr("from", from).attr(
        "to",
        upload_service,
    ).attr("type", "get").attr("id", id).append(req).build();
    assert(attrs_view(r.attrs@) =~= seq![
        ("from"@, from@),
        ("to"@, upload_service@),
        ("type"@, "get"@),
        ("id"@, id@),
    ]);
    r
}

/// Relies on the system clock: nanoseconds since the Unix epoch, or 0 for
/// a clock set before it. Nothing is promised of the value.
#[verifier::external_body]
fn clock_nanos() -> u128 {
    match std::time::SystemTime::now().duration_since(std::time::UNIX_EPOCH) {
        Ok(d) => d.as_nanos(),
        Err(_) => 0,
    }
}

/// The digit of a value below sixteen, in lower case.
pub open spec fn hex_digit(d: nat) -> char {
    if d < 10 {
        crate::numbers::digit_char(d)
    } else if d == 10 {
        'a'
    } else if d == 11 {
        'b'
    } else if d == 12 {
        'c'
    } else if d == 13 {
        'd'
    } else if d == 14 {
        'e'
    } else {
        'f'
    }
}

/// Base sixteen in lower case, without prefix or leading zeros.
pub open spec fn lower_hex(n: nat) -> Seq<char>
    decreases n,
{
    if n < 16 {
        seq![hex_digit(n)]
    } else {
        lower_hex(n / 16).push(hex_digit(n % 16))
    }
}

/// Relies on `format!` with `{:x}` (`LowerHex` for `u128`): base sixteen,
/// lower case, no prefix, no leading zeros.
#[verifier::external_body]
fn hex_string(n: u128) -> (r: String)
    ensures
        r@ == lower_hex(n as nat),
{
    format!("{n:x}")
}

/// Build the slot request IQ with a fresh id `upload-<hex>` taken from the
/// clock; the id is returned beside it for matching the response.
pub fn build_slot_request(
    from: &str,
    upload_service: &str,
    filename: &str,
    size: u64,
    content_type: Option<&str>,
) -> (r: (Element, String))
    ensures
        slot_request_shape(r.0, from@, upload_service@, filename@, size, content_type, r.1@),
        exists|n: nat| r.1@ == "upload-"@ + lower_hex(n),
{
    let mut id = String::from_str("upload-");
    let suffix = hex_string(clock_nanos());
    id.append(suffix.as_str());
    let iq = build_slot_request_with_id(from, upload_service, filename, size, content_type, id.as_str());
    (iq, id)
}

/// The headers of a `<put>`: each `<header>` child with a `name`, paired
/// with its text.
pub open spec fn put_headers_of(children: Seq<Element>) -> Seq<(Seq<char>, Seq<char>)>
    decreases children.len(),
{
    if children.len() == 0 {
        Seq::empty()
    } else {
        let rest = put_headers_of(children.drop_last());
        let c = children.last();
        match attr_value(attrs_view(c.attrs@), "name"@) {
            Some(n) => if c.name@ == "header"@ {
                rest.push((n, c.text@))
            } else {
                rest
            },
            None => rest,
        }
    }
}

pub open spec fn pairs_view(v: Seq<(String, String)>) -> Seq<(Seq<char>, Seq<char>)> {
    v.map_values(|p: (String, String)| (p.0@, p.1@))
}

/// What an upload slot response holds: put URL, get URL and put headers.
pub open spec fn slot_of(e: Element) -> Result<
    (Seq<char>, Seq<char>, Seq<(Seq<char>, Seq<char>)>),
    SlotError,
> {
    match first_child(e.children@, "slot"@, ns::HTTP_UPLOAD@) {
        None => Err(SlotError::MissingSlot),
        Some(slot) => match first_child(slot.children@, "put"@, ns::HTTP_UPLOAD@) {
            None => Err(SlotError::MissingPut),
            Some(put) => match first_child(slot.children@, "get"@, ns::HTTP_UPLOAD@) {
                None => Err(SlotError::MissingGet),
                Some(get) => match attr_value(attrs_view(put.attrs@), "url"@) {
                    None => Err(SlotError::MissingPutUrl),
                    Some(put_url) => match attr_value(attrs_view(get.attrs@), "url"@) {
                        None => Err(SlotError::MissingGetUrl),
                        Some(get_url) => Ok((put_url, get_url, put_headers_of(put.children@))),
                    },
                },
            },
        },
    }
}

fn collect_headers(put: &Element) -> (r: Vec<(String, String)>)
    ensures
        pairs_view(r@) == put_headers_of(put.children@),
{
    let mut out: Vec<(String, String)> = Vec::new();
    let mut i: usize = 0;
    while i < put.children.len()
        invariant
            i <= put.children.len(),
            pairs_view(out@) == put_headers_of(put.children@.take(i as int)),
        decreases put.children.len() - i,
    {
        let ghost pre = put.children@.take(i as int + 1);
        assert(pre.drop_last() =~= put.children@.take(i as int));
        let ghost before = out@;
        let c = &put.children[i];
        match c.attr("name") {
            Some(n) => {
                if crate::text::str_eq(c.name.as_str(), "header") {
                    out.push((String::from_str(n), c.text()));
                    assert(pairs_view(out@) =~= pairs_view(before).push((n@, c.text@)));
                }
            },
            None => {},
        }
        i = i + 1;
    }
    assert(put.children@.take(put.children@.len() as int) =~= put.children@);
    out
}

/// Read the slot that an upload slot response grants.
pub fn parse_slot_response(element: &Element) -> (r: Result<UploadSlot, SlotError>)
    ensures
        match slot_of(*element) {
            Ok((p, g, h)) => r is Ok && r->Ok_0.put_url@ == p && r->Ok_0.get_url@ == g
                && pairs_view(r->Ok_0.put_headers@) == h,
            Err(e) => r == Err::<UploadSlot, SlotError>(e),
        },
{
    let slot = match element.get_child("slot", ns::HTTP_UPLOAD) {
        Some(s) => s,
        None => {
            return Err(SlotError::MissingSlot);
        },
    };
    let put = match slot.get_child("put", ns::HTTP_UPLOAD) {
        Some(p) => p,
        None => {
            return Err(SlotError::MissingPut);
        },
    };
    let get = match slot.get_child("get", ns::HTTP_UPLOAD) {
        Some(g) => g,
        None => {
            return Err(SlotError::MissingGet);
        },
    };
    let put_url = match put.attr("url") {
        Some(u) => String::from_str(u),
        None => {
            return Err(SlotError::MissingPutUrl);
        },
    };
    let get_url = match get.attr("url") {
        Some(u) => String::from_str(u),
        None => {
            return Err(SlotError::MissingGetUrl);
        },
    };
    let put_headers = collect_headers(put);
    Ok(UploadSlot { put_url, get_url, put_headers })
}

} // verus!
