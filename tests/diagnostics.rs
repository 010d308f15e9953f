use hdp::diagnostics::{byte_literal_of, describe, header_line_of, summarize_headers, Header};

fn h(name: &str, value: &[u8]) -> Header {
    Header { name: name.to_string(), value: value.to_vec() }
}

#[test]
fn empty_body_is_none() {
    assert_eq!(describe(b""), "None");
}

#[test]
fn invalid_utf8_is_binary() {
    let d = describe(&[0xff, b'A', b'\n']);
    assert!(d.starts_with("Binary: "));
    assert_eq!(d, "Binary: b\"\\xffA\\n\"");
}

#[test]
fn json_body_is_pretty_printed() {
    let d = describe(b"{\"a\":1}");
    assert!(d.starts_with("JSON:\n"));
    assert_eq!(d, "JSON:\n{\n  \"a\": 1\n}");
}

#[test]
fn text_body_is_verbatim() {
    assert_eq!(describe(b"hello world"), "UTF-8 string: hello world");
}

#[test]
fn describe_is_deterministic() {
    for body in [&b"{\"a\":[1,2]}"[..], b"plain", &[0x80, 0x00], b""] {
        assert_eq!(describe(body), describe(body));
    }
}

#[test]
fn byte_literal_escapes() {
    assert_eq!(byte_literal_of(b"a\"\\\t\r\0\x7f"), "b\"a\\\"\\\\\\t\\r\\0\\x7f\"");
    assert_eq!(byte_literal_of(b""), "b\"\"");
}

#[test]
fn header_line_quotes_pair() {
    assert_eq!(header_line_of(&h("accept", b"*/*")), "\"accept: */*\"");
    assert_eq!(header_line_of(&h("x-bin", &[0xc3, 0xa9])), "\"x-bin: N/A\"");
}

#[test]
fn headers_sorted_and_joined() {
    let hs = vec![h("b", b"2"), h("a", b"1"), h("c", b"\x01")];
    assert_eq!(summarize_headers(&hs), "\"a: 1\", \"b: 2\", \"c: N/A\"");
}

#[test]
fn header_summary_ignores_order() {
    let one = vec![h("x", b"1"), h("accept", b"a"), h("x", b"0")];
    let other = vec![h("x", b"0"), h("x", b"1"), h("accept", b"a")];
    assert_eq!(summarize_headers(&one), summarize_headers(&other));
}

#[test]
fn no_headers_summary_is_empty() {
    assert_eq!(summarize_headers(&vec![]), "");
}
