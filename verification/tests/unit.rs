use http_unit::body::Body;
use http_unit::cookie::{Cookie, CookieJar};
use http_unit::error::Error;
use http_unit::header::Header;
use http_unit::unit::{combine_query, Request, Unit};
use http_unit::url::Url;

fn url(scheme: &str, host: Option<&str>, path: &str, query: Option<&str>) -> Url {
    Url {
        scheme: scheme.to_string(),
        host: host.map(|h| h.to_string()),
        port: None,
        path: path.to_string(),
        query: query.map(|q| q.to_string()),
    }
}

fn request(method: &str, headers: &[&str], query: &str) -> Request {
    Request {
        method: method.to_string(),
        headers: headers.iter().map(|l| Header::parse(l).unwrap()).collect(),
        query: query.to_string(),
        timeout_connect: 1000,
        timeout_read: 2000,
        timeout_write: 3000,
    }
}

fn header_lines(unit: &Unit) -> Vec<String> {
    unit.headers.iter().map(|h| format!("{}: {}", h.name(), h.value())).collect()
}

fn jar() -> CookieJar {
    let mut jar = CookieJar::new();
    jar.store(&vec!["sid=1", "tok=2; Secure", "adm=3; Path=/admin"], "example.com");
    jar.store(&vec!["far=4"], "elsewhere.org");
    jar
}

#[test]
fn query_of_url_and_caller_are_joined() {
    let u = url("http", Some("h"), "/p", Some("a=1"));
    assert_eq!(combine_query(&u, "b=2"), "?a=1&b=2");
}

#[test]
fn query_of_the_caller_alone() {
    let u = url("http", Some("h"), "/p", None);
    assert_eq!(combine_query(&u, "b=2"), "?b=2");
}

#[test]
fn query_of_the_url_alone() {
    let u = url("http", Some("h"), "/p", Some("a=1"));
    assert_eq!(combine_query(&u, ""), "?a=1");
}

#[test]
fn no_query_at_all() {
    let u = url("http", Some("h"), "/p", None);
    assert_eq!(combine_query(&u, ""), "");
}

#[test]
fn empty_url_query_still_counts_as_present() {
    let u = url("http", Some("h"), "/p", Some(""));
    assert_eq!(combine_query(&u, ""), "?");
    assert_eq!(combine_query(&u, "b=2"), "?&b=2");
}

#[test]
fn known_size_gives_exactly_one_content_length() {
    let req = request("POST", &["Accept: */*"], "");
    let u = url("http", Some("example.com"), "/", None);
    let unit = Unit::new(&req, &u, &Body::from_bytes(vec![0; 1234]), None);
    assert_eq!(unit.all("content-length"), vec!["1234"]);
    assert_eq!(header_lines(&unit), vec!["Accept: */*", "Content-Length: 1234"]);
    assert!(!unit.is_chunked);
}

#[test]
fn size_zero_is_a_known_size() {
    let req = request("POST", &[], "");
    let u = url("http", Some("example.com"), "/", None);
    let unit = Unit::new(&req, &u, &Body::from_bytes(Vec::new()), None);
    assert_eq!(unit.header("Content-Length"), Some("0"));
}

#[test]
fn unknown_size_gives_no_content_length() {
    let req = request("POST", &[], "");
    let u = url("http", Some("example.com"), "/", None);
    let unit = Unit::new(&req, &u, &Body { size: None, data: vec![1, 2, 3] }, None);
    assert!(!unit.has("content-length"));
    assert!(unit.headers.is_empty());
}

#[test]
fn declared_size_is_what_the_header_says() {
    let req = request("PUT", &[], "");
    let u = url("http", Some("example.com"), "/", None);
    let unit = Unit::new(&req, &u, &Body { size: Some(u64::MAX), data: Vec::new() }, None);
    assert_eq!(unit.header("content-length"), Some("18446744073709551615"));
}

#[test]
fn chunked_request_gets_no_content_length() {
    let req = request("POST", &["Transfer-Encoding: chunked"], "");
    let u = url("http", Some("example.com"), "/", None);
    let unit = Unit::new(&req, &u, &Body::from_bytes(vec![0; 10]), None);
    assert!(unit.is_chunked);
    assert!(!unit.has("content-length"));
    assert_eq!(header_lines(&unit), vec!["Transfer-Encoding: chunked"]);
}

#[test]
fn empty_transfer_encoding_does_not_ask_for_chunking() {
    let req = request("POST", &["Transfer-Encoding:"], "");
    let u = url("http", Some("example.com"), "/", None);
    let unit = Unit::new(&req, &u, &Body::from_bytes(vec![0; 10]), None);
    assert!(!unit.is_chunked);
    assert_eq!(unit.header("content-length"), Some("10"));
}

#[test]
fn first_transfer_encoding_header_decides() {
    let req = request("POST", &["transfer-encoding:", "Transfer-Encoding: chunked"], "");
    let u = url("http", Some("example.com"), "/", None);
    let unit = Unit::new(&req, &u, &Body::empty(), None);
    assert!(!unit.is_chunked);
}

#[test]
fn content_length_of_the_caller_is_kept_and_none_is_added() {
    let req = request("POST", &["content-length: 5"], "");
    let u = url("http", Some("example.com"), "/", None);
    let unit = Unit::new(&req, &u, &Body::from_bytes(vec![0; 10]), None);
    assert_eq!(unit.all("Content-Length"), vec!["5"]);
}

#[test]
fn hostname_falls_back_to_localhost() {
    let req = request("GET", &[], "");
    let unit = Unit::new(&req, &url("http", None, "/", None), &Body::empty(), None);
    assert_eq!(unit.hostname, "localhost");
    let unit = Unit::new(&req, &url("http", Some("example.com"), "/", None), &Body::empty(), None);
    assert_eq!(unit.hostname, "example.com");
}

#[test]
fn head_is_recognised_in_any_case() {
    let u = url("http", Some("h"), "/", None);
    assert!(Unit::new(&request("HEAD", &[], ""), &u, &Body::empty(), None).is_head);
    assert!(Unit::new(&request("head", &[], ""), &u, &Body::empty(), None).is_head);
    assert!(Unit::new(&request("HeAd", &[], ""), &u, &Body::empty(), None).is_head);
    assert!(!Unit::new(&request("GET", &[], ""), &u, &Body::empty(), None).is_head);
    assert!(!Unit::new(&request("HEADS", &[], ""), &u, &Body::empty(), None).is_head);
}

#[test]
fn unit_copies_url_query_and_timeouts() {
    let req = request("GET", &[], "b=2");
    let u = url("https", Some("example.com"), "/p", Some("a=1"));
    let unit = Unit::new(&req, &u, &Body::empty(), None);
    assert_eq!(unit.url.scheme, "https");
    assert_eq!(unit.url.host.as_deref(), Some("example.com"));
    assert_eq!(unit.url.path, "/p");
    assert_eq!(unit.url.query.as_deref(), Some("a=1"));
    assert_eq!(unit.query_string, "?a=1&b=2");
    assert_eq!(unit.timeout_connect, 1000);
    assert_eq!(unit.timeout_read, 2000);
    assert_eq!(unit.timeout_write, 3000);
}

#[test]
fn headers_are_caller_then_cookies_then_synthesized() {
    let req = request("POST", &["Accept: */*", "X-Id: 7"], "");
    let u = url("http", Some("www.example.com"), "/admin/users", None);
    let unit = Unit::new(&req, &u, &Body::from_bytes(vec![0; 3]), Some(&jar()));
    assert_eq!(
        header_lines(&unit),
        vec!["Accept: */*", "X-Id: 7", "Cookie: sid=1", "Cookie: adm=3", "Content-Length: 3"]
    );
}

#[test]
fn secure_cookies_go_out_over_https_only() {
    let req = request("GET", &[], "");
    let plain = Unit::new(&req, &url("http", Some("example.com"), "/", None), &Body::empty(), Some(&jar()));
    assert_eq!(plain.all("cookie"), vec!["sid=1"]);
    let tls = Unit::new(&req, &url("https", Some("example.com"), "/", None), &Body::empty(), Some(&jar()));
    assert_eq!(tls.all("cookie"), vec!["sid=1", "tok=2"]);
    let shouting = Unit::new(&req, &url("HTTPS", Some("example.com"), "/", None), &Body::empty(), Some(&jar()));
    assert_eq!(shouting.all("cookie"), vec!["sid=1", "tok=2"]);
}

#[test]
fn cookies_are_matched_against_the_fallback_host() {
    let mut jar = CookieJar::new();
    jar.add(Cookie {
        name: "l".to_string(),
        value: "1".to_string(),
        domain: Some("localhost".to_string()),
        path: None,
        secure: false,
    });
    let req = request("GET", &[], "");
    let unit = Unit::new(&req, &url("http", None, "/", None), &Body::empty(), Some(&jar));
    assert_eq!(unit.all("cookie"), vec!["l=1"]);
}

#[test]
fn no_jar_means_no_cookies() {
    let req = request("GET", &[], "");
    let unit = Unit::new(&req, &url("http", Some("example.com"), "/", None), &Body::empty(), None);
    assert!(!unit.has("cookie"));
}

#[test]
fn unit_header_has_and_all_look_at_the_final_headers() {
    let req = request("POST", &["X-A: 1", "x-a: 2"], "");
    let u = url("http", Some("example.com"), "/", None);
    let unit = Unit::new(&req, &u, &Body::from_bytes(vec![9]), Some(&jar()));
    assert_eq!(unit.header("X-A"), Some("1"));
    assert_eq!(unit.header("cookie"), Some("sid=1"));
    assert_eq!(unit.header("nope"), None);
    assert!(unit.has("CONTENT-LENGTH"));
    assert!(!unit.has("nope"));
    assert_eq!(unit.all("x-a"), vec!["1", "2"]);
    assert!(unit.all("nope").is_empty());
}

#[test]
fn error_messages_name_the_failure() {
    assert_eq!(Error::BadHeader.message(), "Bad header");
    assert_eq!(Error::BadStatus.message(), "Bad status");
    assert_eq!(Error::UnknownScheme("ftp".to_string()).message(), "Unknown scheme: ftp");
    assert_eq!(Error::BadUrl("Bad redirection: x".to_string()).message(), "Bad url: Bad redirection: x");
    assert_eq!(Error::TooManyRedirects.message(), "Too many redirects");
    assert_eq!(Error::Io("reset".to_string()).message(), "Io: reset");
    assert_eq!(Error::Io("reset".to_string()).clone().message(), "Io: reset");
}
