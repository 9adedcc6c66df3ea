//! Cookies, the jar that keeps them, and the choice of which to send.
//!
//! A jar holds at most one cookie per key, where the key is the cookie's
//! name, domain and path. Adding a cookie whose key is already present
//! replaces the one that is there, in its place.

use vstd::prelude::*;
use vstd::string::*;
use crate::header::{parsed, views, Header, HeaderView};
use crate::text::{
    chars_of, clone_opt, contains, has_infix, has_prefix, lemma_position_at, opt_view, same_opt,
    starts_with,
};

verus! {

/// One cookie.
#[derive(Debug)]
pub struct Cookie {
    pub name: String,
    pub value: String,
    pub domain: Option<String>,
    pub path: Option<String>,
    pub secure: bool,
}

/// The mathematical value of a [`Cookie`].
pub struct CookieView {
    pub name: Seq<char>,
    pub value: Seq<char>,
    pub domain: Option<Seq<char>>,
    pub path: Option<Seq<char>>,
    pub secure: bool,
}

impl View for Cookie {
    type V = CookieView;

    open spec fn view(&self) -> CookieView {
        CookieView {
            name: self.name@,
            value: self.value@,
            domain: opt_view(self.domain),
            path: opt_view(self.path),
            secure: self.secure,
        }
    }
}

impl Clone for Cookie {
    fn clone(&self) -> (out: Self)
        ensures
            out@ == self@,
    {
        Cookie {
            name: self.name.clone(),
            value: self.value.clone(),
            domain: clone_opt(&self.domain),
            path: clone_opt(&self.path),
            secure: self.secure,
        }
    }
}

impl CookieView {
    /// The cookie goes out with a request to `host` for `path`.
    ///
    /// It must carry a domain that occurs in `host`; its path, if it has one,
    /// must be a prefix of `path`; and a secure-only cookie needs a secure
    /// request.
    pub open spec fn selects(self, host: Seq<char>, path: Seq<char>, secure: bool) -> bool {
        &&& self.domain matches Some(d) && contains(host, d)
        &&& self.path matches Some(p) ==> starts_with(path, p)
        &&& !self.secure || secure
    }

    /// The header line that sends the cookie.
    pub open spec fn line(self) -> Seq<char> {
        "Cookie: "@ + self.name + "="@ + self.value
    }

    /// Both cookies have the same name, domain and path.
    pub open spec fn same_key(self, other: CookieView) -> bool {
        self.name == other.name && self.domain == other.domain && self.path == other.path
    }
}

/// The views of a list of cookies, in order.
pub open spec fn cookie_views(cs: Seq<Cookie>) -> Seq<CookieView> {
    cs.map_values(|c: Cookie| c@)
}

/// The headers for the cookies of `cs` that go out with a request to `host`
/// for `path`, in jar order. A cookie whose line is not a header is left out.
pub open spec fn cookie_headers(
    cs: Seq<CookieView>,
    host: Seq<char>,
    path: Seq<char>,
    secure: bool,
) -> Seq<HeaderView> {
    cs.filter(|c: CookieView| c.selects(host, path, secure) && parsed(c.line()) is Some).map_values(
        |c: CookieView| parsed(c.line())->0,
    )
}

/// A cookie's line, where it is a header, is a header named `Cookie`.
pub proof fn lemma_cookie_line_name(c: CookieView)
    ensures
        parsed(c.line()) matches Some(h) ==> h.name == "Cookie"@,
{
    reveal_strlit("Cookie: ");
    reveal_strlit("Cookie");
    let line = c.line();
    lemma_position_at(line, ':', 6);
    assert(line.subrange(0, 6) =~= "Cookie"@);
}

/// Every header made from a jar is named `Cookie`.
pub proof fn lemma_cookie_headers_names(
    cs: Seq<CookieView>,
    host: Seq<char>,
    path: Seq<char>,
    secure: bool,
)
    ensures
        forall|i: int|
            0 <= i < cookie_headers(cs, host, path, secure).len() ==> (#[trigger] cookie_headers(
                cs,
                host,
                path,
                secure,
            )[i]).name == "Cookie"@,
{
    let keep = |c: CookieView| c.selects(host, path, secure) && parsed(c.line()) is Some;
    let out = cookie_headers(cs, host, path, secure);
    assert forall|i: int| 0 <= i < out.len() implies (#[trigger] out[i]).name == "Cookie"@ by {
        let c = cs.filter(keep)[i];
        cs.lemma_filter_pred(keep, i);
        lemma_cookie_line_name(c);
    }
}

/// Every header made from a jar is the line of a cookie in the jar that the
/// request selects.
pub proof fn lemma_sent_cookie_is_selected(
    cs: Seq<CookieView>,
    host: Seq<char>,
    path: Seq<char>,
    secure: bool,
    i: int,
)
    requires
        0 <= i < cookie_headers(cs, host, path, secure).len(),
    ensures
        exists|k: int|
            0 <= k < cs.len() && (#[trigger] cs[k]).selects(host, path, secure) && parsed(
                cs[k].line(),
            ) == Some(cookie_headers(cs, host, path, secure)[i]),
{
    let keep = |c: CookieView| c.selects(host, path, secure) && parsed(c.line()) is Some;
    let c = cs.filter(keep)[i];
    cs.lemma_filter_pred(keep, i);
    assert(cs.filter(keep).contains(c));
    cs.lemma_filter_contains_rev(keep, c);
    let k = choose|k: int| 0 <= k < cs.len() && cs[k] == c;
    assert(cs[k].selects(host, path, secure));
}

/// Every cookie in the jar that the request selects, and whose line is a
/// header, has that header among those made from the jar.
pub proof fn lemma_selected_cookie_is_sent(
    cs: Seq<CookieView>,
    host: Seq<char>,
    path: Seq<char>,
    secure: bool,
    k: int,
)
    requires
        0 <= k < cs.len(),
        cs[k].selects(host, path, secure),
        parsed(cs[k].line()) is Some,
    ensures
        cookie_headers(cs, host, path, secure).contains(parsed(cs[k].line())->0),
{
    let keep = |c: CookieView| c.selects(host, path, secure) && parsed(c.line()) is Some;
    let head = |c: CookieView| parsed(c.line())->0;
    cs.lemma_filter_contains(keep, k);
    let i = choose|i: int| 0 <= i < cs.filter(keep).len() && cs.filter(keep)[i] == cs[k];
    assert(cs.filter(keep).map_values(head)[i] == head(cs[k]));
}

/// A request that is not secure sends the headers of the cookies that are
/// not secure-only, and no others.
pub proof fn lemma_plain_request_skips_secure(cs: Seq<CookieView>, host: Seq<char>, path: Seq<char>)
    ensures
        cookie_headers(cs, host, path, false) == cookie_headers(
            cs.filter(|c: CookieView| !c.secure),
            host,
            path,
            false,
        ),
{
    let plain = |c: CookieView| !c.secure;
    let keep = |c: CookieView| c.selects(host, path, false) && parsed(c.line()) is Some;
    assert(cs.filter(keep) == cs.filter(plain).filter(keep)) by {
        lemma_filter_refines(cs, plain, keep);
    }
}

/// A secure request selects a cookie whether or not it is secure-only.
pub proof fn lemma_secure_request_ignores_flag(c: CookieView, host: Seq<char>, path: Seq<char>)
    ensures
        c.selects(host, path, true) == (CookieView { secure: !c.secure, ..c }).selects(
            host,
            path,
            true,
        ),
        c.secure ==> !c.selects(host, path, false),
{
}

/// Filtering by `keep` gives the same whether or not a filter by `wide` goes
/// first, where `keep` holds of nothing that `wide` rejects.
proof fn lemma_filter_refines(
    cs: Seq<CookieView>,
    wide: spec_fn(CookieView) -> bool,
    keep: spec_fn(CookieView) -> bool,
)
    requires
        forall|c: CookieView| #[trigger] keep(c) ==> wide(c),
    ensures
        cs.filter(keep) == cs.filter(wide).filter(keep),
    decreases cs.len(),
{
    reveal(Seq::filter);
    if cs.len() > 0 {
        let front = cs.drop_last();
        let last = cs.last();
        lemma_filter_refines(front, wide, keep);
        if wide(last) {
            let longer = front.filter(wide).push(last);
            assert(longer.drop_last() =~= front.filter(wide));
            assert(longer.last() == last);
        }
    }
}

/// No two cookies of `cs` share a key.
pub open spec fn distinct_keys(cs: Seq<CookieView>) -> bool {
    forall|i: int, j: int| 0 <= i < j < cs.len() ==> !(#[trigger] cs[i]).same_key(#[trigger] cs[j])
}

/// The index of the first cookie of `cs` with the key of `c`, or `cs.len()`.
pub open spec fn key_index(cs: Seq<CookieView>, c: CookieView) -> int
    decreases cs.len(),
{
    if cs.len() == 0 || cs[0].same_key(c) {
        0
    } else {
        1 + key_index(cs.drop_first(), c)
    }
}

/// `cs` after `c` is added: `c` takes the place of the cookie with its key,
/// or goes to the end when no cookie has it.
pub open spec fn added(cs: Seq<CookieView>, c: CookieView) -> Seq<CookieView> {
    let i = key_index(cs, c);
    if i < cs.len() {
        cs.update(i, c)
    } else {
        cs.push(c)
    }
}

/// `key_index` stays in range, stops on the key, and skips no cookie with it.
pub proof fn lemma_key_index(cs: Seq<CookieView>, c: CookieView)
    ensures
        0 <= key_index(cs, c) <= cs.len(),
        key_index(cs, c) < cs.len() ==> cs[key_index(cs, c)].same_key(c),
        forall|j: int| 0 <= j < key_index(cs, c) ==> !(#[trigger] cs[j]).same_key(c),
    decreases cs.len(),
{
    if cs.len() == 0 || cs[0].same_key(c) {
    } else {
        let t = cs.drop_first();
        lemma_key_index(t, c);
        assert forall|j: int| 0 <= j < key_index(cs, c) implies !(#[trigger] cs[j]).same_key(
            c,
        ) by {
            if j > 0 {
                assert(cs[j] == t[j - 1]);
            }
        }
    }
}

/// Adding a cookie keeps the keys of a jar distinct.
pub proof fn lemma_added_distinct(cs: Seq<CookieView>, c: CookieView)
    requires
        distinct_keys(cs),
    ensures
        distinct_keys(added(cs, c)),
{
    lemma_key_index(cs, c);
    let i = key_index(cs, c);
    let out = added(cs, c);
    assert forall|a: int, b: int| 0 <= a < b < out.len() implies !(#[trigger] out[a]).same_key(
        #[trigger] out[b],
    ) by {
        if i < cs.len() {
            assert(cs[i].same_key(c));
            if a == i {
                assert(!cs[i].same_key(cs[b]));
            } else if b == i {
                assert(!cs[a].same_key(cs[i]));
            } else {
                assert(!cs[a].same_key(cs[b]));
            }
        } else {
            if b == cs.len() {
                assert(!cs[a].same_key(c));
            } else {
                assert(!cs[a].same_key(cs[b]));
            }
        }
    }
}

impl Cookie {
    /// Tests whether the cookie goes out with a request to `host` for `path`.
    pub fn selected(&self, host: &Vec<char>, path: &Vec<char>, secure: bool) -> (out: bool)
        ensures
            out == self@.selects(host@, path@, secure),
    {
        let domain_ok = match &self.domain {
            Some(d) => {
                let d = chars_of(d.as_str());
                has_infix(host, &d)
            },
            None => false,
        };
        let path_ok = match &self.path {
            Some(p) => {
                let p = chars_of(p.as_str());
                has_prefix(path, &p)
            },
            None => true,
        };
        domain_ok && path_ok && (!self.secure || secure)
    }

    /// The header line that sends the cookie.
    pub fn render(&self) -> (out: String)
        ensures
            out@ == self@.line(),
    {
        let mut out = String::from_str("Cookie: ");
        out.append(self.name.as_str());
        out.append("=");
        out.append(self.value.as_str());
        out
    }

    /// Tests whether both cookies have the same name, domain and path.
    pub fn has_key_of(&self, other: &Cookie) -> (out: bool)
        ensures
            out == self@.same_key(other@),
    {
        self.name == other.name && same_opt(&self.domain, &other.domain) && same_opt(
            &self.path,
            &other.path,
        )
    }
}

/// A store of cookies, at most one per key.
#[derive(Debug)]
pub struct CookieJar {
    cookies: Vec<Cookie>,
}

impl View for CookieJar {
    type V = Seq<CookieView>;

    closed spec fn view(&self) -> Seq<CookieView> {
        cookie_views(self.cookies@)
    }
}

impl CookieJar {
    /// No two cookies of the jar share a key. Every jar made by [`CookieJar::new`]
    /// and filled by [`CookieJar::add`] is well formed.
    pub open spec fn wf(&self) -> bool {
        distinct_keys(self@)
    }

    /// An empty jar.
    pub fn new() -> (out: CookieJar)
        ensures
            out@ == Seq::<CookieView>::empty(),
            out.wf(),
    {
        let cookies: Vec<Cookie> = Vec::new();
        assert(cookie_views(cookies@) =~= Seq::<CookieView>::empty());
        CookieJar { cookies }
    }

    /// The number of cookies in the jar.
    pub fn len(&self) -> (out: usize)
        ensures
            out == self@.len(),
    {
        self.cookies.len()
    }

    /// The cookie at position `i`.
    pub fn get(&self, i: usize) -> (out: &Cookie)
        requires
            i < self@.len(),
        ensures
            out@ == self@[i as int],
    {
        &self.cookies[i]
    }

    /// Adds `cookie`, in place of the cookie with its key if the jar has one.
    pub fn add(&mut self, cookie: Cookie)
        ensures
            final(self)@ == added(old(self)@, cookie@),
            old(self).wf() ==> final(self).wf(),
    {
        proof {
            lemma_key_index(self@, cookie@);
            if self.wf() {
                lemma_added_distinct(self@, cookie@);
            }
        }
        let ghost before = self@;
        let mut i: usize = 0;
        assert(before.skip(0) =~= before);
        while i < self.cookies.len() && !self.cookies[i].has_key_of(&cookie)
            invariant
                i <= self.cookies.len(),
                before == cookie_views(self.cookies@),
                key_index(before, cookie@) == i + key_index(before.skip(i as int), cookie@),
            decreases self.cookies.len() - i,
        {
            assert(before.skip(i as int).drop_first() =~= before.skip(i + 1));
            i += 1;
        }
        if i < self.cookies.len() {
            assert(cookie_views(self.cookies@.update(i as int, cookie)) =~= added(
                before,
                cookie@,
            ));
            self.cookies.set(i, cookie);
        } else {
            assert(before.skip(i as int) =~= Seq::<CookieView>::empty());
            assert(cookie_views(self.cookies@.push(cookie)) =~= added(before, cookie@));
            self.cookies.push(cookie);
        }
    }
}

/// The `Cookie` headers for a request to `domain` for `path`, in jar order.
pub fn match_cookies(jar: &CookieJar, domain: &str, path: &str, is_secure: bool) -> (out: Vec<
    Header,
>)
    ensures
        views(out@) == cookie_headers(jar@, domain@, path@, is_secure),
{
    let host = chars_of(domain);
    let target = chars_of(path);
    let ghost all = jar@;
    let ghost keep = |c: CookieView|
        c.selects(domain@, path@, is_secure) && parsed(c.line()) is Some;
    let ghost head = |c: CookieView| parsed(c.line())->0;
    let mut out: Vec<Header> = Vec::new();
    let mut i: usize = 0;
    proof {
        reveal(Seq::filter);
        assert(all.take(0).filter(keep) =~= Seq::<CookieView>::empty());
        assert(views(out@) =~= all.take(0).filter(keep).map_values(head));
    }
    while i < jar.cookies.len()
        invariant
            i <= jar.cookies.len(),
            all == jar@,
            host@ == domain@,
            target@ == path@,
            keep == |c: CookieView|
                c.selects(domain@, path@, is_secure) && parsed(c.line()) is Some,
            head == |c: CookieView| parsed(c.line())->0,
            views(out@) == all.take(i as int).filter(keep).map_values(head),
        decreases jar.cookies.len() - i,
    {
        let ghost before = out@;
        let ghost kept = all.take(i as int).filter(keep);
        let cookie = &jar.cookies[i];
        proof {
            reveal(Seq::filter);
            assert(all.take(i + 1).drop_last() =~= all.take(i as int));
            assert(all.take(i + 1).last() == cookie@);
        }
        if cookie.selected(&host, &target, is_secure) {
            let line = cookie.render();
            match Header::parse(line.as_str()) {
                Ok(h) => {
                    out.push(h);
                    proof {
                        assert(views(out@) =~= views(before).push(h@));
                        assert(kept.push(cookie@).map_values(head) =~= kept.map_values(head).push(
                            h@,
                        ));
                    }
                },
                Err(_) => {},
            }
        }
        i += 1;
    }
    assert(all.take(jar.cookies.len() as int) =~= all);
    out
}

} // verus!
