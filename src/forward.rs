//! What is sent upstream, and what is sent back to the caller.
use vstd::prelude::*;
use vstd::string::StrSliceExecFns;
use vstd::string::StringExecFns;
use crate::diagnostics::{Header, header_models};

verus! {

/// A request method. Only the first five are proxied.
#[derive(Clone, Debug)]
pub enum Method {
    Get,
    Post,
    Put,
    Patch,
    Delete,
    Other(String),
}

impl Method {
    pub open spec fn supported(&self) -> bool {
        !(self is Other)
    }

    /// The method's name as it appears on the wire.
    pub open spec fn name_text(&self) -> Seq<char> {
        match self {
            Method::Get => "GET"@,
            Method::Post => "POST"@,
            Method::Put => "PUT"@,
            Method::Patch => "PATCH"@,
            Method::Delete => "DELETE"@,
            Method::Other(s) => s@,
        }
    }

    /// The method named `name`; names are case-sensitive.
    pub fn from_name(name: &String) -> (r: Method)
        ensures
            r.name_text() == name@,
            r.supported() <==> (name@ == "GET"@ || name@ == "POST"@ || name@ == "PUT"@ || name@
                == "PATCH"@ || name@ == "DELETE"@),
    {
        if *name == String::from_str("GET") {
            Method::Get
        } else if *name == String::from_str("POST") {
            Method::Post
        } else if *name == String::from_str("PUT") {
            Method::Put
        } else if *name == String::from_str("PATCH") {
            Method::Patch
        } else if *name == String::from_str("DELETE") {
            Method::Delete
        } else {
            Method::Other(name.clone())
        }
    }

    pub fn is_supported(&self) -> (r: bool)
        ensures
            r == self.supported(),
    {
        !matches!(self, Method::Other(_))
    }

    pub fn name(&self) -> (r: String)
        ensures
            r@ == self.name_text(),
    {
        match self {
            Method::Get => String::from_str("GET"),
            Method::Post => String::from_str("POST"),
            Method::Put => String::from_str("PUT"),
            Method::Patch => String::from_str("PATCH"),
            Method::Delete => String::from_str("DELETE"),
            Method::Other(s) => s.clone(),
        }
    }
}

/// The name begins, ignoring ASCII case, with `host`.
pub open spec fn host_prefixed(name: Seq<char>) -> bool {
    &&& name.len() >= 4
    &&& (name[0] == 'h' || name[0] == 'H')
    &&& (name[1] == 'o' || name[1] == 'O')
    &&& (name[2] == 's' || name[2] == 'S')
    &&& (name[3] == 't' || name[3] == 'T')
}

/// A character allowed in a header name.
pub open spec fn is_token_char(c: char) -> bool {
    ('a' <= c && c <= 'z') || ('A' <= c && c <= 'Z') || ('0' <= c && c <= '9') || c == '!' || c
        == '#' || c == '$' || c == '%' || c == '&' || c == '\'' || c == '*' || c == '+' || c
        == '-' || c == '.' || c == '^' || c == '_' || c == '`' || c == '|' || c == '~'
}

/// A byte allowed in a header value.
pub open spec fn is_field_byte(b: u8) -> bool {
    (b >= 32 && b != 127) || b == 9
}

/// A header that can be written on an outgoing message: its name is a
/// non-empty token and its value holds only field bytes.
pub open spec fn encodable(h: (Seq<char>, Seq<u8>)) -> bool {
    &&& h.0.len() > 0
    &&& forall|i: int| 0 <= i < h.0.len() ==> is_token_char(#[trigger] h.0[i])
    &&& forall|i: int| 0 <= i < h.1.len() ==> is_field_byte(#[trigger] h.1[i])
}

/// A header that is passed on to the upstream.
pub open spec fn forwardable(h: (Seq<char>, Seq<u8>)) -> bool {
    encodable(h) && !host_prefixed(h.0)
}

/// The headers that are forwarded upstream (when `forward`) or that can be
/// written at all (otherwise), in their order.
pub open spec fn kept(hs: Seq<(Seq<char>, Seq<u8>)>, forward: bool) -> Seq<(Seq<char>, Seq<u8>)>
    decreases hs.len(),
{
    if hs.len() == 0 {
        Seq::empty()
    } else if keeps(forward, hs.last()) {
        kept(hs.drop_last(), forward).push(hs.last())
    } else {
        kept(hs.drop_last(), forward)
    }
}

/// Whether the header name begins with `host`, in any ASCII case.
pub fn is_host_prefixed(name: &str) -> (r: bool)
    ensures
        r == host_prefixed(name@),
{
    if name.unicode_len() < 4 {
        return false;
    }
    let (c0, c1, c2, c3) = (name.get_char(0), name.get_char(1), name.get_char(2), name.get_char(3));
    (c0 == 'h' || c0 == 'H') && (c1 == 'o' || c1 == 'O') && (c2 == 's' || c2 == 'S') && (c3 == 't'
        || c3 == 'T')
}

fn is_token_name(name: &str) -> (r: bool)
    ensures
        r == (name@.len() > 0 && forall|i: int| 0 <= i < name@.len() ==> is_token_char(#[trigger] name@[i])),
{
    let n = name.unicode_len();
    if n == 0 {
        return false;
    }
    let mut i: usize = 0;
    while i < n
        invariant
            n == name@.len(),
            i <= n,
            forall|j: int| 0 <= j < i ==> is_token_char(#[trigger] name@[j]),
        decreases n - i,
    {
        let c = name.get_char(i);
        let ok = ('a' <= c && c <= 'z') || ('A' <= c && c <= 'Z') || ('0' <= c && c <= '9') || c
            == '!' || c == '#' || c == '$' || c == '%' || c == '&' || c == '\'' || c == '*' || c
            == '+' || c == '-' || c == '.' || c == '^' || c == '_' || c == '`' || c == '|' || c
            == '~';
        if !ok {
            return false;
        }
        i = i + 1;
    }
    true
}

fn is_field_value(v: &Vec<u8>) -> (r: bool)
    ensures
        r == forall|i: int| 0 <= i < v@.len() ==> is_field_byte(#[trigger] v@[i]),
{
    let mut i: usize = 0;
    while i < v.len()
        invariant
            i <= v@.len(),
            forall|j: int| 0 <= j < i ==> is_field_byte(#[trigger] v@[j]),
        decreases v@.len() - i,
    {
        let b = v[i];
        if !((b >= 32 && b != 127) || b == 9) {
            return false;
        }
        i = i + 1;
    }
    true
}

/// Whether the header can be written on an outgoing message.
pub fn is_encodable(h: &Header) -> (r: bool)
    ensures
        r == encodable(h.model()),
{
    let name_ok = is_token_name(h.name.as_str());
    let value_ok = is_field_value(&h.value);
    assert(h.model().0 == h.name@ && h.model().1 == h.value@);
    name_ok && value_ok
}

pub open spec fn keeps(forward: bool, h: (Seq<char>, Seq<u8>)) -> bool {
    if forward {
        forwardable(h)
    } else {
        encodable(h)
    }
}

/// Copies of the headers that `forward` is true of (when `forward`) or that
/// can be written at all (otherwise), in their order.
fn keep_headers(headers: &Vec<Header>, forward: bool) -> (r: Vec<Header>)
    ensures
        header_models(r@) == kept(header_models(headers@), forward),
{
    let mut r: Vec<Header> = Vec::new();
    let mut i: usize = 0;
    while i < headers.len()
        invariant
            i <= headers@.len(),
            header_models(r@) == kept(header_models(headers@.take(i as int)), forward),
        decreases headers@.len() - i,
    {
        let h = &headers[i];
        let ghost prefix = header_models(headers@.take(i + 1));
        assert(prefix.drop_last() =~= header_models(headers@.take(i as int)));
        assert(prefix.last() == h.model());
        let writable = is_encodable(h);
        let ok = if forward {
            writable && !is_host_prefixed(h.name.as_str())
        } else {
            writable
        };
        assert(h.model().0 == h.name@);
        assert(keeps(forward, h.model()) == ok);
        if ok {
            let ghost before = r@;
            let copy = Header { name: h.name.clone(), value: h.value.clone() };
            r.push(copy);
            assert(header_models(r@) =~= header_models(before).push(h.model()));
        }
        i = i + 1;
    }
    assert(headers@.take(i as int) =~= headers@);
    r
}

/// The inbound headers that are passed on upstream: all that can be written,
/// except those whose name begins with `host` in any case.
pub fn forwarded_headers(headers: &Vec<Header>) -> (r: Vec<Header>)
    ensures
        header_models(r@) == kept(header_models(headers@), true),
{
    keep_headers(headers, true)
}

/// A request as it is sent to an upstream.
#[derive(Clone, Debug)]
pub struct OutboundRequest {
    pub method: Method,
    pub url: String,
    pub headers: Vec<Header>,
    pub body: Vec<u8>,
}

/// A response as it is sent back to the caller.
#[derive(Clone, Debug)]
pub struct ClientResponse {
    pub status: u16,
    pub headers: Vec<Header>,
    pub body: Vec<u8>,
}

/// Status codes that can be written: three digits.
pub open spec fn status_valid(code: u16) -> bool {
    100 <= code <= 999
}

/// The upstream's status code, or 500 when it is not a three-digit code.
pub fn client_status(code: u16) -> (r: u16)
    ensures
        r == if status_valid(code) { code } else { 500 },
{
    if 100 <= code && code <= 999 {
        code
    } else {
        500
    }
}

/// The caller's response to an upstream reply: its status (500 when not
/// writable), its writable headers, and its body unchanged.
pub fn build_response(status: u16, headers: &Vec<Header>, body: Vec<u8>) -> (r: ClientResponse)
    ensures
        r.status == if status_valid(status) { status } else { 500 },
        header_models(r.headers@) == kept(header_models(headers@), false),
        r.body@ == body@,
{
    let kept_headers = keep_headers(headers, false);
    ClientResponse { status: client_status(status), headers: kept_headers, body }
}

} // verus!
