//! Human-readable summaries of bodies and headers for the request log.
use vstd::prelude::*;
use vstd::string::StringExecFns;
use vstd::utf8::{valid_utf8, decode_utf8};
use crate::text::{
    push_char, sort_strings, join_with_comma, join_comma, texts_of, sorted_texts,
    sorted_arrangement, lemma_sorted_arrangement, lemma_sorted_texts_unique, lemma_map_keeps_multiset,
};

verus! {

/// One header: its name and its raw value bytes.
#[derive(Clone, Debug)]
pub struct Header {
    pub name: String,
    pub value: Vec<u8>,
}

impl Header {
    pub open spec fn model(self) -> (Seq<char>, Seq<u8>) {
        (self.name@, self.value@)
    }
}

/// The headers as (name, value) pairs.
pub open spec fn header_models(hs: Seq<Header>) -> Seq<(Seq<char>, Seq<u8>)> {
    hs.map_values(|h: Header| h.model())
}

#[verifier::external_type_specification]
#[verifier::external_body]
pub struct ExJsonValue(serde_json::Value);

/// Whether serde_json accepts the text as one JSON document.
pub uninterp spec fn json_accepts(text: Seq<char>) -> bool;

/// Relies on `std::str::from_utf8`: text exactly when the bytes are valid UTF-8.
#[verifier::external_body]
fn utf8_text(b: &[u8]) -> (r: Option<String>)
    ensures
        match r {
            Some(s) => valid_utf8(b@) && s@ == decode_utf8(b@),
            None => !valid_utf8(b@),
        },
{
    std::str::from_utf8(b).ok().map(|s| s.to_string())
}

/// Relies on `serde_json::from_str::<Value>`: a value exactly when the text parses.
#[verifier::external_body]
fn parse_json(text: &str) -> (r: Option<serde_json::Value>)
    ensures
        r is Some <==> json_accepts(text@),
{
    serde_json::from_str::<serde_json::Value>(text).ok()
}

/// Relies on `serde_json::to_string_pretty`: the value as indented JSON text.
#[verifier::external_body]
fn pretty_json(v: &serde_json::Value) -> (r: Option<String>) {
    serde_json::to_string_pretty(v).ok()
}

/// Relies on the `Display` impl of `serde_json::Value`: compact JSON text.
#[verifier::external_body]
fn compact_json(v: &serde_json::Value) -> (r: String) {
    v.to_string()
}

pub open spec fn hex_digit(d: u8) -> char {
    if d < 10 {
        (48 + d) as char
    } else {
        (87 + d) as char
    }
}

/// How one byte is written inside a byte-string literal: the named escapes,
/// printable ASCII as itself, anything else as `\x` and two hex digits.
pub open spec fn byte_escape(b: u8) -> Seq<char> {
    if b == 10 {
        seq!['\\', 'n']
    } else if b == 13 {
        seq!['\\', 'r']
    } else if b == 9 {
        seq!['\\', 't']
    } else if b == 92 || b == 34 {
        seq!['\\', b as char]
    } else if b == 0 {
        seq!['\\', '0']
    } else if 32 <= b < 127 {
        seq![b as char]
    } else {
        seq!['\\', 'x', hex_digit(b / 16), hex_digit(b % 16)]
    }
}

pub open spec fn escaped(s: Seq<u8>) -> Seq<char>
    decreases s.len(),
{
    if s.len() == 0 {
        Seq::empty()
    } else {
        escaped(s.drop_last()) + byte_escape(s.last())
    }
}

/// The bytes as a byte-string literal, `b"..."`.
pub open spec fn byte_literal(s: Seq<u8>) -> Seq<char> {
    seq!['b', '"'] + escaped(s) + seq!['"']
}

fn push_hex_digit(out: &mut String, d: u8)
    requires
        d < 16,
    ensures
        final(out)@ == old(out)@.push(hex_digit(d)),
{
    if d < 10 {
        push_char(out, (48 + d) as char);
    } else {
        push_char(out, (87 + d) as char);
    }
}

fn push_byte_escape(out: &mut String, b: u8)
    ensures
        final(out)@ == old(out)@ + byte_escape(b),
{
    let ghost start = out@;
    if b == 10 {
        push_char(out, '\\');
        push_char(out, 'n');
    } else if b == 13 {
        push_char(out, '\\');
        push_char(out, 'r');
    } else if b == 9 {
        push_char(out, '\\');
        push_char(out, 't');
    } else if b == 92 || b == 34 {
        push_char(out, '\\');
        push_char(out, b as char);
    } else if b == 0 {
        push_char(out, '\\');
        push_char(out, '0');
    } else if 32 <= b && b < 127 {
        push_char(out, b as char);
    } else {
        push_char(out, '\\');
        push_char(out, 'x');
        push_hex_digit(out, b / 16);
        push_hex_digit(out, b % 16);
    }
    assert(out@ =~= start + byte_escape(b));
}

/// Writes the bytes as a byte-string literal, `b"..."`.
pub fn byte_literal_of(bytes: &[u8]) -> (r: String)
    ensures
        r@ == byte_literal(bytes@),
{
    let mut r = String::new();
    push_char(&mut r, 'b');
    push_char(&mut r, '"');
    let mut i: usize = 0;
    while i < bytes.len()
        invariant
            i <= bytes@.len(),
            r@ == seq!['b', '"'] + escaped(bytes@.take(i as int)),
        decreases bytes@.len() - i,
    {
        assert(bytes@.take(i as int + 1).drop_last() =~= bytes@.take(i as int));
        push_byte_escape(&mut r, bytes[i]);
        i = i + 1;
        assert(r@ =~= seq!['b', '"'] + escaped(bytes@.take(i as int)));
    }
    assert(bytes@.take(i as int) =~= bytes@);
    push_char(&mut r, '"');
    r
}

/// What the log says of a body: `None` when empty, the byte literal of
/// anything that is not UTF-8, the text of UTF-8 that is not JSON, and a
/// `JSON` rendering of JSON text.
pub open spec fn describes(body: Seq<u8>, d: Seq<char>) -> bool {
    if body.len() == 0 {
        d == "None"@
    } else if !valid_utf8(body) {
        d == "Binary: "@ + byte_literal(body)
    } else if !json_accepts(decode_utf8(body)) {
        d == "UTF-8 string: "@ + decode_utf8(body)
    } else {
        exists|p: Seq<char>| d == "JSON:\n"@ + p || d == "JSON (unformatted): "@ + p
    }
}

/// The diagnostic text of a request or response body.
pub fn describe(body: &[u8]) -> (r: String)
    ensures
        describes(body@, r@),
{
    if body.len() == 0 {
        return String::from_str("None");
    }
    match utf8_text(body) {
        None => {
            let mut r = String::from_str("Binary: ");
            let lit = byte_literal_of(body);
            r.append(lit.as_str());
            r
        },
        Some(text) => match parse_json(text.as_str()) {
            None => {
                let mut r = String::from_str("UTF-8 string: ");
                r.append(text.as_str());
                r
            },
            Some(value) => match pretty_json(&value) {
                Some(pretty) => {
                    let mut r = String::from_str("JSON:\n");
                    r.append(pretty.as_str());
                    assert(r@ == "JSON:\n"@ + pretty@);
                    r
                },
                None => {
                    let mut r = String::from_str("JSON (unformatted): ");
                    let compact = compact_json(&value);
                    r.append(compact.as_str());
                    assert(r@ == "JSON (unformatted): "@ + compact@);
                    r
                },
            },
        },
    }
}

/// Describing the same bytes twice gives the same text, whenever the bytes
/// are not JSON text.
pub proof fn lemma_describe_deterministic(body: Seq<u8>, d1: Seq<char>, d2: Seq<char>)
    requires
        describes(body, d1),
        describes(body, d2),
        !(valid_utf8(body) && json_accepts(decode_utf8(body))) || body.len() == 0,
    ensures
        d1 == d2,
{
}

/// Bytes that a header value may hold to be shown as text.
pub open spec fn is_visible_ascii(b: u8) -> bool {
    (32 <= b && b < 127) || b == 9
}

/// The header value as text, or `N/A` when it holds a byte that is not visible ASCII.
pub open spec fn value_text(v: Seq<u8>) -> Seq<char> {
    if forall|i: int| 0 <= i < v.len() ==> is_visible_ascii(#[trigger] v[i]) {
        v.map_values(|b: u8| b as char)
    } else {
        "N/A"@
    }
}

/// A header as it is shown in the log: `"name: value"`, quotes included.
pub open spec fn header_line(h: (Seq<char>, Seq<u8>)) -> Seq<char> {
    seq!['"'] + h.0 + seq![':', ' '] + value_text(h.1) + seq!['"']
}

pub open spec fn header_lines(hs: Seq<(Seq<char>, Seq<u8>)>) -> Seq<Seq<char>> {
    hs.map_values(|h: (Seq<char>, Seq<u8>)| header_line(h))
}

/// The header lines in ascending order, joined with `", "`.
pub open spec fn header_summary(hs: Seq<(Seq<char>, Seq<u8>)>) -> Seq<char> {
    join_comma(sorted_arrangement(header_lines(hs).to_multiset()))
}

/// The header summary does not depend on the order in which the headers came.
pub proof fn lemma_header_summary_ignores_order(
    h1: Seq<(Seq<char>, Seq<u8>)>,
    h2: Seq<(Seq<char>, Seq<u8>)>,
)
    requires
        h1.to_multiset() == h2.to_multiset(),
    ensures
        header_summary(h1) == header_summary(h2),
{
    lemma_map_keeps_multiset(h1, h2, |h: (Seq<char>, Seq<u8>)| header_line(h));
}

/// The header summary is the header lines, each counted as often as it
/// occurs, in ascending lexicographic order, joined with `", "`.
pub proof fn lemma_header_summary_sorted(hs: Seq<(Seq<char>, Seq<u8>)>)
    ensures
        header_summary(hs) == join_comma(sorted_arrangement(header_lines(hs).to_multiset())),
        sorted_texts(sorted_arrangement(header_lines(hs).to_multiset())),
        sorted_arrangement(header_lines(hs).to_multiset()).to_multiset() == header_lines(
            hs,
        ).to_multiset(),
{
    lemma_sorted_arrangement(header_lines(hs));
}

fn value_text_of(v: &Vec<u8>) -> (r: String)
    ensures
        r@ == value_text(v@),
{
    let mut r = String::new();
    let mut i: usize = 0;
    while i < v.len()
        invariant
            i <= v@.len(),
            forall|j: int| 0 <= j < i ==> is_visible_ascii(#[trigger] v@[j]),
            r@ == v@.take(i as int).map_values(|b: u8| b as char),
        decreases v@.len() - i,
    {
        let b = v[i];
        if !(32 <= b && b < 127 || b == 9) {
            return String::from_str("N/A");
        }
        push_char(&mut r, b as char);
        i = i + 1;
        assert(r@ =~= v@.take(i as int).map_values(|b: u8| b as char));
    }
    assert(v@.take(i as int) =~= v@);
    r
}

/// The log line of one header.
pub fn header_line_of(h: &Header) -> (r: String)
    ensures
        r@ == header_line(h.model()),
{
    let mut r = String::from_str("\"");
    r.append(h.name.as_str());
    r.append(": ");
    let value = value_text_of(&h.value);
    r.append(value.as_str());
    r.append("\"");
    proof {
        reveal_strlit("\"");
        reveal_strlit(": ");
    }
    assert(r@ =~= header_line(h.model()));
    r
}

/// The headers as one log field: each as `"name: value"`, sorted, joined with `", "`.
pub fn summarize_headers(headers: &Vec<Header>) -> (r: String)
    ensures
        r@ == header_summary(header_models(headers@)),
{
    let mut lines: Vec<String> = Vec::new();
    let mut i: usize = 0;
    while i < headers.len()
        invariant
            i <= headers@.len(),
            texts_of(lines@) == header_lines(header_models(headers@.take(i as int))),
        decreases headers@.len() - i,
    {
        let line = header_line_of(&headers[i]);
        let ghost before = lines@;
        lines.push(line);
        assert(headers@.take(i + 1) =~= headers@.take(i as int).push(headers@[i as int]));
        assert(texts_of(lines@) =~= texts_of(before).push(line@));
        assert(header_lines(header_models(headers@.take(i + 1))) =~= header_lines(
            header_models(headers@.take(i as int)),
        ).push(header_line(headers@[i as int].model())));
        i = i + 1;
    }
    assert(headers@.take(i as int) =~= headers@);
    let ghost unsorted = texts_of(lines@);
    sort_strings(&mut lines);
    proof {
        lemma_sorted_arrangement(texts_of(lines@));
        lemma_sorted_texts_unique(texts_of(lines@), sorted_arrangement(unsorted.to_multiset()));
    }
    join_with_comma(&lines)
}

} // verus!
