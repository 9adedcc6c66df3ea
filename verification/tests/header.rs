use http_unit::error::Error;
use http_unit::header::{extend_headers, get_all_headers, get_header, has_header, Header};

fn h(line: &str) -> Header {
    Header::parse(line).unwrap()
}

#[test]
fn parse_splits_at_the_first_colon() {
    let header = h("X-Trace: a:b:c");
    assert_eq!(header.name(), "X-Trace");
    assert_eq!(header.value(), "a:b:c");
}

#[test]
fn parse_trims_the_value() {
    let header = h("Content-Length: 42\r\n");
    assert_eq!(header.name(), "Content-Length");
    assert_eq!(header.value(), "42");
    assert_eq!(h("Accept:\t text/html \t").value(), "text/html");
    assert_eq!(h("Accept:a  b").value(), "a  b");
}

#[test]
fn parse_accepts_an_empty_value() {
    let header = h("X-Empty:");
    assert_eq!(header.name(), "X-Empty");
    assert_eq!(header.value(), "");
    assert_eq!(h("X-Empty:   ").value(), "");
}

#[test]
fn parse_accepts_every_token_character() {
    let header = h("aZ09!#$%&'*+-.^_`|~: v");
    assert_eq!(header.name(), "aZ09!#$%&'*+-.^_`|~");
}

#[test]
fn parse_rejects_a_line_without_a_colon() {
    assert!(matches!(Header::parse("no colon here"), Err(Error::BadHeader)));
    assert!(matches!(Header::parse(""), Err(Error::BadHeader)));
}

#[test]
fn parse_rejects_an_empty_name() {
    assert!(matches!(Header::parse(": value"), Err(Error::BadHeader)));
}

#[test]
fn parse_rejects_a_name_that_is_no_token() {
    assert!(matches!(Header::parse("Bad Name: v"), Err(Error::BadHeader)));
    assert!(matches!(Header::parse("Name : v"), Err(Error::BadHeader)));
    assert!(matches!(Header::parse("N(a): v"), Err(Error::BadHeader)));
    assert!(matches!(Header::parse("Näme: v"), Err(Error::BadHeader)));
}

#[test]
fn parse_rejects_control_characters_in_the_value() {
    assert!(matches!(Header::parse("X: a\r\nInjected: b"), Err(Error::BadHeader)));
    assert!(matches!(Header::parse("X: a\u{0}b"), Err(Error::BadHeader)));
    assert!(matches!(Header::parse("X: a\u{7f}b"), Err(Error::BadHeader)));
    assert_eq!(h("X: a\tb").value(), "a\tb");
    assert_eq!(h("X: héllo").value(), "héllo");
}

#[test]
fn clone_keeps_name_and_value() {
    let header = h("Accept: */*");
    let copy = header.clone();
    assert_eq!(copy.name(), "Accept");
    assert_eq!(copy.value(), "*/*");
}

#[test]
fn is_name_ignores_ascii_case() {
    let header = h("Content-Type: text/plain");
    assert!(header.is_name("content-type"));
    assert!(header.is_name("CONTENT-TYPE"));
    assert!(!header.is_name("content-typ"));
    assert!(!header.is_name("content_type"));
}

#[test]
fn get_header_returns_the_first_match() {
    let headers = vec![h("Accept: a"), h("X-Id: 1"), h("x-id: 2")];
    assert_eq!(get_header(&headers, "X-ID"), Some("1"));
    assert_eq!(get_header(&headers, "accept"), Some("a"));
    assert_eq!(get_header(&headers, "missing"), None);
    assert_eq!(get_header(&Vec::new(), "accept"), None);
}

#[test]
fn has_header_tells_presence() {
    let headers = vec![h("Host: example.com")];
    assert!(has_header(&headers, "host"));
    assert!(!has_header(&headers, "hos"));
    assert!(!has_header(&Vec::new(), "host"));
}

#[test]
fn get_all_headers_returns_every_match_in_order() {
    let headers = vec![h("Set-Cookie: a=1"), h("Other: x"), h("set-cookie: b=2"), h("SET-COOKIE: c=3")];
    assert_eq!(get_all_headers(&headers, "Set-Cookie"), vec!["a=1", "b=2", "c=3"]);
    assert_eq!(get_all_headers(&headers, "other"), vec!["x"]);
    assert!(get_all_headers(&headers, "none").is_empty());
}

#[test]
fn extend_headers_appends_copies_in_order() {
    let mut out = vec![h("A: 1")];
    let more = vec![h("B: 2"), h("C: 3")];
    extend_headers(&mut out, &more);
    let names: Vec<&str> = out.iter().map(|x| x.name()).collect();
    let values: Vec<&str> = out.iter().map(|x| x.value()).collect();
    assert_eq!(names, vec!["A", "B", "C"]);
    assert_eq!(values, vec!["1", "2", "3"]);
    assert_eq!(more.len(), 2);
}
