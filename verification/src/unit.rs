//! The context of one logical request: where it goes, how its body is
//! framed, and the headers it sends.

use vstd::prelude::*;
use vstd::string::*;
use crate::body::Body;
use crate::cookie::{
    cookie_headers, lemma_cookie_headers_names, match_cookies, CookieJar, CookieView,
};
use crate::header::{
    extend_headers, get_all_headers, get_header, has_header, is_field_text, is_token,
    lemma_lookup_absent, lemma_lookup_all_add, lemma_lookup_found, lookup, lookup_all, parsed,
    texts, views, Header, HeaderView,
};
use crate::text::{
    chars_of, decimal, decimal_string, eq_ignore_case, folded, is_space, lemma_decimal_digits,
    lemma_position_at, same_ignoring_case, trim_left, trimmed,
};
use crate::url::{Url, UrlView};

verus! {

/// What the caller asks for.
#[derive(Debug)]
pub struct Request {
    pub method: String,
    pub headers: Vec<Header>,
    /// The caller's query, already rendered as `key=value&...`; empty when
    /// the caller adds none.
    pub query: String,
    pub timeout_connect: u64,
    pub timeout_read: u64,
    pub timeout_write: u64,
}

/// The mathematical value of a [`Request`].
pub struct RequestView {
    pub method: Seq<char>,
    pub headers: Seq<HeaderView>,
    pub query: Seq<char>,
    pub timeout_connect: u64,
    pub timeout_read: u64,
    pub timeout_write: u64,
}

impl View for Request {
    type V = RequestView;

    open spec fn view(&self) -> RequestView {
        RequestView {
            method: self.method@,
            headers: views(self.headers@),
            query: self.query@,
            timeout_connect: self.timeout_connect,
            timeout_read: self.timeout_read,
            timeout_write: self.timeout_write,
        }
    }
}

/// The context of one logical request.
#[derive(Debug)]
pub struct Unit {
    pub url: Url,
    pub is_chunked: bool,
    pub is_head: bool,
    pub hostname: String,
    pub query_string: String,
    pub headers: Vec<Header>,
    pub timeout_connect: u64,
    pub timeout_read: u64,
    pub timeout_write: u64,
}

/// The mathematical value of a [`Unit`].
pub struct UnitView {
    pub url: UrlView,
    pub is_chunked: bool,
    pub is_head: bool,
    pub hostname: Seq<char>,
    pub query_string: Seq<char>,
    pub headers: Seq<HeaderView>,
    pub timeout_connect: u64,
    pub timeout_read: u64,
    pub timeout_write: u64,
}

impl View for Unit {
    type V = UnitView;

    open spec fn view(&self) -> UnitView {
        UnitView {
            url: self.url@,
            is_chunked: self.is_chunked,
            is_head: self.is_head,
            hostname: self.hostname@,
            query_string: self.query_string@,
            headers: views(self.headers@),
            timeout_connect: self.timeout_connect,
            timeout_read: self.timeout_read,
            timeout_write: self.timeout_write,
        }
    }
}

/// The query that goes on the request line: the URL's own query, then the
/// caller's, each only if present.
pub open spec fn combined_query(url_query: Option<Seq<char>>, query: Seq<char>) -> Seq<char> {
    match url_query {
        Some(q) => if query.len() > 0 {
            "?"@ + q + "&"@ + query
        } else {
            "?"@ + q
        },
        None => if query.len() > 0 {
            "?"@ + query
        } else {
            Seq::empty()
        },
    }
}

/// The caller asks for chunked framing: a `transfer-encoding` header with a
/// non-empty value.
pub open spec fn wants_chunked(headers: Seq<HeaderView>) -> bool {
    lookup(headers, "transfer-encoding"@) matches Some(v) && v.len() > 0
}

/// The host a request connects to.
pub open spec fn host_or_local(url: UrlView) -> Seq<char> {
    match url.host {
        Some(h) => h,
        None => "localhost"@,
    }
}

/// The header that declares a body of `n` bytes.
pub open spec fn length_header(n: nat) -> HeaderView {
    HeaderView { name: "Content-Length"@, value: decimal(n) }
}

/// The headers a request adds by itself: the body's length, when it is known,
/// the body is not chunked, and the caller names no length.
pub open spec fn synthesized(headers: Seq<HeaderView>, size: Option<u64>) -> Seq<HeaderView> {
    if !wants_chunked(headers) && lookup(headers, "content-length"@) is None && size is Some {
        seq![length_header(size->0 as nat)]
    } else {
        Seq::empty()
    }
}

/// The `Cookie` headers of a request to `url`, from the jar if there is one.
pub open spec fn jar_headers(jar: Option<Seq<CookieView>>, url: UrlView) -> Seq<HeaderView> {
    match jar {
        Some(cookies) => cookie_headers(
            cookies,
            host_or_local(url),
            url.path,
            eq_ignore_case(url.scheme, "https"@),
        ),
        None => Seq::empty(),
    }
}

/// The context that `req`, sent to `url` with a body of size `size`, is
/// given: the caller's headers, then the cookies, then the synthesized
/// headers.
pub open spec fn built(
    req: RequestView,
    url: UrlView,
    size: Option<u64>,
    jar: Option<Seq<CookieView>>,
) -> UnitView {
    UnitView {
        url,
        is_chunked: wants_chunked(req.headers),
        is_head: eq_ignore_case(req.method, "head"@),
        hostname: host_or_local(url),
        query_string: combined_query(url.query, req.query),
        headers: req.headers + jar_headers(jar, url) + synthesized(req.headers, size),
        timeout_connect: req.timeout_connect,
        timeout_read: req.timeout_read,
        timeout_write: req.timeout_write,
    }
}

/// The cookies of an optional jar.
pub open spec fn jar_view(jar: Option<&CookieJar>) -> Option<Seq<CookieView>> {
    match jar {
        Some(j) => Some(j@),
        None => None,
    }
}

/// The line `Content-Length: <n>` is a header, named `Content-Length`, whose
/// value is `n` in decimal.
pub proof fn lemma_length_line(n: nat)
    ensures
        parsed("Content-Length: "@ + decimal(n)) == Some(length_header(n)),
{
    reveal_strlit("Content-Length: ");
    reveal_strlit("Content-Length");
    lemma_decimal_digits(n);
    let line = "Content-Length: "@ + decimal(n);
    let digits = decimal(n);
    lemma_position_at(line, ':', 14);
    let name = line.subrange(0, 14);
    assert(name =~= "Content-Length"@);
    assert(is_token(name));
    let rest = line.subrange(15, line.len() as int);
    assert(rest.drop_first() =~= digits);
    assert(rest[0] == ' ');
    assert(trim_left(rest) == trim_left(digits));
    assert(!is_space(digits[0]));
    assert(!is_space(digits.last()));
    assert(trimmed(rest) == digits);
    assert(is_field_text(digits));
}

/// No header made from the jar is named `content-length`.
proof fn lemma_cookies_name_no_length(jar: Option<Seq<CookieView>>, url: UrlView)
    ensures
        lookup_all(jar_headers(jar, url), "content-length"@) == Seq::<Seq<char>>::empty(),
{
    reveal_strlit("Cookie");
    reveal_strlit("content-length");
    let hs = jar_headers(jar, url);
    if jar is Some {
        lemma_cookie_headers_names(
            jar->0,
            host_or_local(url),
            url.path,
            eq_ignore_case(url.scheme, "https"@),
        );
    }
    assert forall|i: int| 0 <= i < hs.len() implies !(#[trigger] hs[i]).named(
        "content-length"@,
    ) by {
        assert(folded(hs[i].name).len() != folded("content-length"@).len());
    }
    lemma_lookup_absent(hs, "content-length"@);
}

/// A request whose caller names no length and does not ask for chunking
/// sends, for a body of known size, exactly one `Content-Length` header, and
/// its value is the size.
pub proof fn lemma_declares_length_once(
    req: RequestView,
    url: UrlView,
    size: u64,
    jar: Option<Seq<CookieView>>,
)
    requires
        lookup(req.headers, "content-length"@) is None,
        !wants_chunked(req.headers),
    ensures
        lookup_all(built(req, url, Some(size), jar).headers, "content-length"@) == seq![
            decimal(size as nat),
        ],
{
    reveal(Seq::filter);
    reveal_strlit("Content-Length");
    reveal_strlit("content-length");
    let name = "content-length"@;
    let cookies = jar_headers(jar, url);
    let own = seq![length_header(size as nat)];
    lemma_lookup_found(req.headers, name);
    lemma_lookup_absent(req.headers, name);
    lemma_cookies_name_no_length(jar, url);
    lemma_lookup_all_add(req.headers, cookies, name);
    lemma_lookup_all_add(req.headers + cookies, own, name);
    assert(folded("Content-Length"@) =~= folded(name));
    assert(own.drop_last() =~= Seq::<HeaderView>::empty());
    assert(lookup_all(own, name) =~= seq![decimal(size as nat)]);
    assert(lookup_all(built(req, url, Some(size), jar).headers, name) =~= seq![
        decimal(size as nat),
    ]);
}

/// A chunked request sends no `Content-Length` header but those the caller
/// wrote: chunked framing and a synthesized length never go together.
pub proof fn lemma_chunked_adds_no_length(
    req: RequestView,
    url: UrlView,
    size: Option<u64>,
    jar: Option<Seq<CookieView>>,
)
    requires
        wants_chunked(req.headers),
    ensures
        built(req, url, size, jar).is_chunked,
        lookup_all(built(req, url, size, jar).headers, "content-length"@) == lookup_all(
            req.headers,
            "content-length"@,
        ),
{
    let name = "content-length"@;
    let cookies = jar_headers(jar, url);
    lemma_cookies_name_no_length(jar, url);
    lemma_lookup_all_add(req.headers, cookies, name);
    assert(req.headers + cookies + Seq::<HeaderView>::empty() =~= req.headers + cookies);
    assert(lookup_all(req.headers, name) + Seq::<Seq<char>>::empty() =~= lookup_all(
        req.headers,
        name,
    ));
}

/// Joins the URL's own query and the caller's into what follows the path on
/// the request line.
pub fn combine_query(url: &Url, query: &str) -> (out: String)
    ensures
        out@ == combined_query(url@.query, query@),
{
    let has_query = chars_of(query).len() > 0;
    let mut out = String::new();
    match &url.query {
        Some(urlq) => {
            out.append("?");
            out.append(urlq.as_str());
            if has_query {
                out.append("&");
                out.append(query);
            }
        },
        None => {
            if has_query {
                out.append("?");
                out.append(query);
            }
        },
    }
    assert(out@ =~= combined_query(url@.query, query@));
    out
}

impl Unit {
    /// Builds the context for sending `req` to `url` with `body`, taking the
    /// cookies to send from `jar` if there is one.
    pub fn new(req: &Request, url: &Url, body: &Body, jar: Option<&CookieJar>) -> (out: Unit)
        ensures
            out@ == built(req@, url@, body@.size, jar_view(jar)),
    {
        let is_chunked = match get_header(&req.headers, "transfer-encoding") {
            Some(enc) => chars_of(enc).len() > 0,
            None => false,
        };
        let is_secure = same_ignoring_case(&chars_of(url.scheme.as_str()), &chars_of("https"));
        let is_head = same_ignoring_case(&chars_of(req.method.as_str()), &chars_of("head"));
        let hostname = match &url.host {
            Some(h) => h.clone(),
            None => String::from_str("localhost"),
        };
        let query_string = combine_query(url, req.query.as_str());
        let cookie_headers: Vec<Header> = match jar {
            Some(jar) => match_cookies(jar, hostname.as_str(), url.path.as_str(), is_secure),
            None => Vec::new(),
        };
        let ghost caller = views(req.headers@);
        let ghost cookies = views(cookie_headers@);
        assert(cookies =~= jar_headers(jar_view(jar), url@));
        let mut headers: Vec<Header> = Vec::new();
        extend_headers(&mut headers, &req.headers);
        extend_headers(&mut headers, &cookie_headers);
        assert(views(headers@) =~= caller + cookies);
        let ghost sent = headers@;
        if !is_chunked && !has_header(&req.headers, "content-length") {
            if let Some(size) = body.size {
                let mut line = String::from_str("Content-Length: ");
                line.append(decimal_string(size).as_str());
                proof {
                    lemma_length_line(size as nat);
                }
                if let Ok(h) = Header::parse(line.as_str()) {
                    headers.push(h);
                    assert(views(headers@) =~= views(sent).push(h@));
                }
            }
        }
        assert(views(headers@) =~= caller + cookies + synthesized(caller, body@.size));
        Unit {
            url: url.clone(),
            is_chunked,
            is_head,
            hostname,
            query_string,
            headers,
            timeout_connect: req.timeout_connect,
            timeout_read: req.timeout_read,
            timeout_write: req.timeout_write,
        }
    }

    /// The value of the first header named `name`, if the request sends one.
    pub fn header<'a>(&'a self, name: &str) -> (out: Option<&'a str>)
        ensures
            match out {
                Some(v) => lookup(self@.headers, name@) == Some(v@),
                None => lookup(self@.headers, name@) is None,
            },
    {
        get_header(&self.headers, name)
    }

    /// Tests whether the request sends a header named `name`.
    pub fn has(&self, name: &str) -> (out: bool)
        ensures
            out == lookup(self@.headers, name@).is_some(),
    {
        has_header(&self.headers, name)
    }

    /// The values of all headers named `name` that the request sends, in order.
    pub fn all<'a>(&'a self, name: &str) -> (out: Vec<&'a str>)
        ensures
            texts(out@) == lookup_all(self@.headers, name@),
    {
        get_all_headers(&self.headers, name)
    }
}

} // verus!
