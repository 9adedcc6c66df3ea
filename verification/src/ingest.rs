//! Reading `Set-Cookie` values and keeping what they hold.
//!
//! A value is a list of pieces separated by semicolons. The first piece is
//! `name=value`; it must hold an equals sign and a non-empty name. Every
//! later piece is an attribute, `key` or `key=value`, applied from left to
//! right: `Secure` marks the cookie secure-only, `Domain` sets its domain
//! (one leading dot is dropped, and an empty domain is ignored), `Path`
//! sets its path, and any other attribute is skipped. Keys compare without
//! regard to ASCII case, and names, keys and values lose their surrounding
//! whitespace.

use vstd::prelude::*;
use vstd::string::*;
use crate::cookie::{added, Cookie, CookieJar, CookieView};
use crate::header::texts;
use crate::text::{
    chars_of, contains, copy_range, eq_ignore_case, find_in, fold_case, folded, has_infix,
    position, same_ignoring_case, trim_bounds, trimmed,
};

verus! {

/// The key of an attribute piece: what stands before its first equals sign.
pub open spec fn piece_key(p: Seq<char>) -> Seq<char> {
    trimmed(p.subrange(0, position(p, '=') as int))
}

/// The value of an attribute piece: what follows its first equals sign, or
/// nothing when it has none.
pub open spec fn piece_value(p: Seq<char>) -> Seq<char> {
    let eq = position(p, '=') as int;
    if eq < p.len() {
        trimmed(p.subrange(eq + 1, p.len() as int))
    } else {
        Seq::empty()
    }
}

/// A domain attribute's value without its leading dot.
pub open spec fn bare_domain(v: Seq<char>) -> Seq<char> {
    if v.len() > 0 && v[0] == '.' {
        v.drop_first()
    } else {
        v
    }
}

/// `c` after the attribute piece `p` is applied to it.
pub open spec fn with_attribute(c: CookieView, p: Seq<char>) -> CookieView {
    let key = piece_key(p);
    let domain = bare_domain(piece_value(p));
    if eq_ignore_case(key, "secure"@) {
        CookieView { secure: true, ..c }
    } else if eq_ignore_case(key, "domain"@) {
        if domain.len() > 0 {
            CookieView { domain: Some(domain), ..c }
        } else {
            c
        }
    } else if eq_ignore_case(key, "path"@) {
        CookieView { path: Some(piece_value(p)), ..c }
    } else {
        c
    }
}

/// `c` after the attribute pieces of `s` from index `from` on are applied,
/// left to right.
pub open spec fn with_attributes(c: CookieView, s: Seq<char>, from: int) -> CookieView
    decreases s.len() - from,
{
    if 0 <= from < s.len() {
        let end = from + position(s.subrange(from, s.len() as int), ';');
        let next = with_attribute(c, s.subrange(from, end));
        if end < s.len() {
            with_attributes(next, s, end + 1)
        } else {
            next
        }
    } else {
        c
    }
}

/// The cookie that a `Set-Cookie` value holds, or `None` when its first
/// piece is not `name=value`.
pub open spec fn parsed_cookie(s: Seq<char>) -> Option<CookieView> {
    let end = position(s, ';') as int;
    let first = s.subrange(0, end);
    let eq = position(first, '=') as int;
    let name = trimmed(first.subrange(0, eq));
    if eq < first.len() && name.len() > 0 {
        let value = trimmed(first.subrange(eq + 1, first.len() as int));
        let plain = CookieView { name, value, domain: None, path: None, secure: false };
        Some(with_attributes(plain, s, end + 1))
    } else {
        None
    }
}

/// A received value, given the domain `host` unless it names one itself.
pub open spec fn completed(raw: Seq<char>, host: Seq<char>) -> Seq<char> {
    if contains(folded(raw), "domain="@) {
        raw
    } else {
        raw + "; Domain="@ + host
    }
}

/// `jar` after the received values `raws` from `host` are taken in, in
/// order. A value that holds no cookie changes nothing.
pub open spec fn stored(jar: Seq<CookieView>, raws: Seq<Seq<char>>, host: Seq<char>) -> Seq<
    CookieView,
>
    decreases raws.len(),
{
    if raws.len() == 0 {
        jar
    } else {
        let next = match parsed_cookie(completed(raws[0], host)) {
            Some(c) => added(jar, c),
            None => jar,
        };
        stored(next, raws.drop_first(), host)
    }
}

/// The view of an optional cookie.
pub open spec fn opt_cookie(o: Option<Cookie>) -> Option<CookieView> {
    match o {
        Some(c) => Some(c@),
        None => None,
    }
}

/// Applies the attribute piece `cs[from..to]` to `cookie`.
fn apply_attribute(cookie: &mut Cookie, text: &str, cs: &Vec<char>, from: usize, to: usize)
    requires
        text@ == cs@,
        from <= to <= cs.len(),
    ensures
        final(cookie)@ == with_attribute(old(cookie)@, cs@.subrange(from as int, to as int)),
{
    let ghost p = cs@.subrange(from as int, to as int);
    let eq = find_in(cs, '=', from, to);
    let (ka, kb) = trim_bounds(cs, from, eq);
    let key = copy_range(cs, ka, kb);
    let (va, vb) = if eq < to {
        trim_bounds(cs, eq + 1, to)
    } else {
        (to, to)
    };
    proof {
        assert(p.subrange(0, eq - from) =~= cs@.subrange(from as int, eq as int));
        if eq < to {
            assert(p.subrange(eq - from + 1, p.len() as int) =~= cs@.subrange(eq + 1, to as int));
        } else {
            assert(cs@.subrange(to as int, to as int) =~= Seq::<char>::empty());
        }
        assert(key@ == piece_key(p));
        assert(cs@.subrange(va as int, vb as int) == piece_value(p));
    }
    if same_ignoring_case(&key, &chars_of("secure")) {
        cookie.secure = true;
    } else if same_ignoring_case(&key, &chars_of("domain")) {
        let da = if va < vb && cs[va] == '.' {
            va + 1
        } else {
            va
        };
        proof {
            let v = cs@.subrange(va as int, vb as int);
            if va < vb {
                assert(v[0] == cs[va as int]);
            }
            assert(cs@.subrange(da as int, vb as int) =~= bare_domain(v));
        }
        if da < vb {
            cookie.domain = Some(String::from_str(text.substring_char(da, vb)));
        }
    } else if same_ignoring_case(&key, &chars_of("path")) {
        cookie.path = Some(String::from_str(text.substring_char(va, vb)));
    }
}

impl Cookie {
    /// Reads the cookie that a `Set-Cookie` value holds.
    pub fn parse(text: &str) -> (out: Option<Cookie>)
        ensures
            opt_cookie(out) == parsed_cookie(text@),
    {
        let cs = chars_of(text);
        let n = cs.len();
        let end = find_in(&cs, ';', 0, n);
        let eq = find_in(&cs, '=', 0, end);
        let ghost first = cs@.subrange(0, end as int);
        proof {
            assert(cs@.subrange(0, n as int) =~= cs@);
            assert(first.subrange(0, eq as int) =~= cs@.subrange(0, eq as int));
        }
        if eq >= end {
            return None;
        }
        let (na, nb) = trim_bounds(&cs, 0, eq);
        if na == nb {
            assert(cs@.subrange(na as int, nb as int).len() == 0);
            return None;
        }
        let (va, vb) = trim_bounds(&cs, eq + 1, end);
        proof {
            assert(first.subrange(eq + 1, first.len() as int) =~= cs@.subrange(eq + 1, end as int));
        }
        let mut cookie = Cookie {
            name: String::from_str(text.substring_char(na, nb)),
            value: String::from_str(text.substring_char(va, vb)),
            domain: None,
            path: None,
            secure: false,
        };
        let ghost plain = cookie@;
        if end < n {
            let mut from: usize = end + 1;
            while from < n
                invariant
                    from <= n,
                    n == cs.len(),
                    text@ == cs@,
                    with_attributes(plain, cs@, end + 1) == with_attributes(
                        cookie@,
                        cs@,
                        from as int,
                    ),
                decreases n - from,
            {
                let stop = find_in(&cs, ';', from, n);
                apply_attribute(&mut cookie, text, &cs, from, stop);
                if stop == n {
                    from = n;
                } else {
                    from = stop + 1;
                }
            }
        }
        Some(cookie)
    }
}

/// Gives a received value the domain `hostname` unless it names one itself.
pub fn complete(raw: &str, hostname: &str) -> (out: String)
    ensures
        out@ == completed(raw@, hostname@),
{
    let low = fold_case(&chars_of(raw));
    let mut out = String::from_str(raw);
    if !has_infix(&low, &chars_of("domain=")) {
        out.append("; Domain=");
        out.append(hostname);
    }
    out
}

impl CookieJar {
    /// Takes in the `Set-Cookie` values `raws` received from `hostname`, in
    /// order. A value that holds no cookie is passed over.
    pub fn store(&mut self, raws: &Vec<&str>, hostname: &str)
        ensures
            final(self)@ == stored(old(self)@, texts(raws@), hostname@),
            old(self).wf() ==> final(self).wf(),
    {
        let ghost all = texts(raws@);
        let mut i: usize = 0;
        assert(all.skip(0) =~= all);
        while i < raws.len()
            invariant
                i <= raws.len(),
                all == texts(raws@),
                stored(old(self)@, all, hostname@) == stored(self@, all.skip(i as int), hostname@),
                old(self).wf() ==> self.wf(),
            decreases raws.len() - i,
        {
            proof {
                assert(all.skip(i as int)[0] == raws[i as int]@);
                assert(all.skip(i as int).drop_first() =~= all.skip(i + 1));
            }
            let text = complete(raws[i], hostname);
            match Cookie::parse(text.as_str()) {
                Some(cookie) => {
                    self.add(cookie);
                },
                None => {},
            }
            i += 1;
        }
    }
}

} // verus!
