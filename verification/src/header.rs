//! Header lines: one validated name/value pair each, and lookups over an
//! ordered list of them.
//!
//! A line is `name ":" value`. The name is everything before the first colon
//! and must be a non-empty HTTP token. The value is the rest of the line with
//! surrounding whitespace removed, and may hold tabs and printable characters
//! only. Names compare without regard to ASCII case.

use vstd::prelude::*;
use vstd::string::*;
use crate::error::Error;
use crate::text::{
    chars_of, eq_ignore_case, find_in, lemma_position_at, position, same_ignoring_case,
    trim_bounds, trimmed,
};

verus! {

/// A character allowed in a header name.
pub open spec fn is_token_char(c: char) -> bool {
    ||| 'a' <= c && c <= 'z'
    ||| 'A' <= c && c <= 'Z'
    ||| '0' <= c && c <= '9'
    ||| c == '!' || c == '#' || c == '$' || c == '%' || c == '&' || c == '\'' || c == '*'
    ||| c == '+' || c == '-' || c == '.' || c == '^' || c == '_' || c == '`' || c == '|'
    ||| c == '~'
}

/// A non-empty run of token characters.
pub open spec fn is_token(s: Seq<char>) -> bool {
    s.len() > 0 && forall|i: int| 0 <= i < s.len() ==> is_token_char(#[trigger] s[i])
}

/// A character allowed in a header value: a tab, or anything that is not a
/// control character.
pub open spec fn is_field_char(c: char) -> bool {
    c == '\t' || (' ' <= c && c != '\x7f')
}

/// Text made of value characters only.
pub open spec fn is_field_text(s: Seq<char>) -> bool {
    forall|i: int| 0 <= i < s.len() ==> is_field_char(#[trigger] s[i])
}

/// The mathematical value of a [`Header`].
pub struct HeaderView {
    pub name: Seq<char>,
    pub value: Seq<char>,
}

impl HeaderView {
    /// The name is a token and the value is printable.
    pub open spec fn valid(self) -> bool {
        is_token(self.name) && is_field_text(self.value)
    }

    /// The header goes by `name`, ASCII case aside.
    pub open spec fn named(self, name: Seq<char>) -> bool {
        eq_ignore_case(self.name, name)
    }
}

/// What a header line parses to, or `None` when the line is not a header.
pub open spec fn parsed(line: Seq<char>) -> Option<HeaderView> {
    let colon = position(line, ':') as int;
    if colon < line.len() {
        let name = line.subrange(0, colon);
        let value = trimmed(line.subrange(colon + 1, line.len() as int));
        if is_token(name) && is_field_text(value) {
            Some(HeaderView { name, value })
        } else {
            None
        }
    } else {
        None
    }
}

/// The views of a list of headers, in order.
pub open spec fn views(hs: Seq<Header>) -> Seq<HeaderView> {
    hs.map_values(|h: Header| h@)
}

/// The value of the first header named `name`.
pub open spec fn lookup(hs: Seq<HeaderView>, name: Seq<char>) -> Option<Seq<char>>
    decreases hs.len(),
{
    if hs.len() == 0 {
        None
    } else if hs[0].named(name) {
        Some(hs[0].value)
    } else {
        lookup(hs.drop_first(), name)
    }
}

/// The values of all headers named `name`, in order.
pub open spec fn lookup_all(hs: Seq<HeaderView>, name: Seq<char>) -> Seq<Seq<char>> {
    hs.filter(|h: HeaderView| h.named(name)).map_values(|h: HeaderView| h.value)
}

/// A valid header whose value has no whitespace around it is what its own
/// line, `name: value`, parses to.
pub proof fn lemma_line_round_trip(h: HeaderView)
    requires
        h.valid(),
        trimmed(h.value) == h.value,
    ensures
        parsed(h.name + ": "@ + h.value) == Some(h),
{
    reveal_strlit(": ");
    let line = h.name + ": "@ + h.value;
    let n = h.name.len() as int;
    assert forall|j: int| 0 <= j < n implies line[j] != ':' by {
        assert(line[j] == h.name[j]);
    }
    lemma_position_at(line, ':', n);
    assert(line.subrange(0, n) =~= h.name);
    let rest = line.subrange(n + 1, line.len() as int);
    assert(rest[0] == ' ');
    assert(rest.drop_first() =~= h.value);
}

/// Looking up all values in a list made of two parts gives the values of
/// the first part, then those of the second.
pub proof fn lemma_lookup_all_add(a: Seq<HeaderView>, b: Seq<HeaderView>, name: Seq<char>)
    ensures
        lookup_all(a + b, name) == lookup_all(a, name) + lookup_all(b, name),
{
    let pred = |h: HeaderView| h.named(name);
    Seq::filter_distributes_over_add(a, b, pred);
    assert(lookup_all(a + b, name) =~= lookup_all(a, name) + lookup_all(b, name));
}

/// A list without a header named `name` yields no first value and no values.
pub proof fn lemma_lookup_absent(hs: Seq<HeaderView>, name: Seq<char>)
    requires
        forall|i: int| 0 <= i < hs.len() ==> !(#[trigger] hs[i]).named(name),
    ensures
        lookup(hs, name) is None,
        lookup_all(hs, name) == Seq::<Seq<char>>::empty(),
    decreases hs.len(),
{
    reveal(Seq::filter);
    if hs.len() > 0 {
        let front = hs.drop_last();
        let rest = hs.drop_first();
        assert forall|i: int| 0 <= i < front.len() implies !(#[trigger] front[i]).named(name) by {
            assert(front[i] == hs[i]);
        }
        assert forall|i: int| 0 <= i < rest.len() implies !(#[trigger] rest[i]).named(name) by {
            assert(rest[i] == hs[i + 1]);
        }
        lemma_lookup_absent(front, name);
        lemma_lookup_absent(rest, name);
        assert(!hs.last().named(name));
        assert(!hs[0].named(name));
    }
    assert(lookup_all(hs, name) =~= Seq::<Seq<char>>::empty());
}

/// A list yields a first value for `name` exactly if it holds a header
/// named `name`.
pub proof fn lemma_lookup_found(hs: Seq<HeaderView>, name: Seq<char>)
    ensures
        lookup(hs, name) is Some <==> exists|i: int| 0 <= i < hs.len() && (#[trigger] hs[i]).named(
            name,
        ),
    decreases hs.len(),
{
    if hs.len() > 0 {
        let rest = hs.drop_first();
        lemma_lookup_found(rest, name);
        if hs[0].named(name) {
        } else if lookup(rest, name) is Some {
            let i = choose|i: int| 0 <= i < rest.len() && (#[trigger] rest[i]).named(name);
            assert(hs[i + 1] == rest[i]);
        } else {
            assert forall|i: int| 0 <= i < hs.len() implies !(#[trigger] hs[i]).named(name) by {
                if i > 0 {
                    assert(hs[i] == rest[i - 1]);
                }
            }
        }
    }
}

/// The views of a list of borrowed texts, in order.
pub open spec fn texts(ss: Seq<&str>) -> Seq<Seq<char>> {
    ss.map_values(|s: &str| s@)
}

/// One header: a name and a value.
#[derive(Debug)]
pub struct Header {
    name: String,
    value: String,
}

impl View for Header {
    type V = HeaderView;

    closed spec fn view(&self) -> HeaderView {
        HeaderView { name: self.name@, value: self.value@ }
    }
}

impl Clone for Header {
    fn clone(&self) -> (out: Self)
        ensures
            out@ == self@,
    {
        proof {
            use_type_invariant(self);
        }
        Header { name: self.name.clone(), value: self.value.clone() }
    }
}

impl Header {
    #[verifier::type_invariant]
    spec fn well_formed(self) -> bool {
        self@.valid()
    }

    /// Parses one header line.
    pub fn parse(line: &str) -> (out: Result<Header, Error>)
        ensures
            match out {
                Ok(h) => parsed(line@) == Some(h@),
                Err(e) => parsed(line@) is None && e@ == crate::error::ErrorView::BadHeader,
            },
    {
        let cs = chars_of(line);
        let colon = find_in(&cs, ':', 0, cs.len());
        assert(cs@.subrange(0, cs.len() as int) =~= cs@);
        if colon >= cs.len() {
            return Err(Error::BadHeader);
        }
        if !token(&cs, colon) {
            return Err(Error::BadHeader);
        }
        let (from, to) = trim_bounds(&cs, colon + 1, cs.len());
        if !field_text(&cs, from, to) {
            return Err(Error::BadHeader);
        }
        let name = String::from_str(line.substring_char(0, colon));
        let value = String::from_str(line.substring_char(from, to));
        Ok(Header { name, value })
    }

    /// The header's name, as it was written.
    pub fn name(&self) -> (out: &str)
        ensures
            out@ == self@.name,
            self@.valid(),
    {
        proof {
            use_type_invariant(self);
        }
        self.name.as_str()
    }

    /// The header's value, without surrounding whitespace.
    pub fn value(&self) -> (out: &str)
        ensures
            out@ == self@.value,
            self@.valid(),
    {
        proof {
            use_type_invariant(self);
        }
        self.value.as_str()
    }

    /// Tests whether the header goes by `name`, ASCII case aside.
    pub fn is_name(&self, name: &str) -> (out: bool)
        ensures
            out == self@.named(name@),
    {
        let mine = chars_of(self.name.as_str());
        let theirs = chars_of(name);
        same_ignoring_case(&mine, &theirs)
    }
}

/// Tests whether `s[..to]` is a token.
fn token(s: &Vec<char>, to: usize) -> (out: bool)
    requires
        to <= s.len(),
    ensures
        out == is_token(s@.subrange(0, to as int)),
{
    if to == 0 {
        return false;
    }
    let mut i: usize = 0;
    while i < to
        invariant
            i <= to <= s.len(),
            forall|j: int| 0 <= j < i ==> is_token_char(s[j]),
        decreases to - i,
    {
        let c = s[i];
        let ok = ('a' <= c && c <= 'z') || ('A' <= c && c <= 'Z') || ('0' <= c && c <= '9') || c
            == '!' || c == '#' || c == '$' || c == '%' || c == '&' || c == '\'' || c == '*' || c
            == '+' || c == '-' || c == '.' || c == '^' || c == '_' || c == '`' || c == '|' || c
            == '~';
        if !ok {
            assert(s@.subrange(0, to as int)[i as int] == c);
            return false;
        }
        i += 1;
    }
    assert forall|j: int| 0 <= j < to implies is_token_char(
        #[trigger] s@.subrange(0, to as int)[j],
    ) by {
        assert(s@.subrange(0, to as int)[j] == s[j]);
    }
    true
}

/// Tests whether `s[from..to]` is value text.
fn field_text(s: &Vec<char>, from: usize, to: usize) -> (out: bool)
    requires
        from <= to <= s.len(),
    ensures
        out == is_field_text(s@.subrange(from as int, to as int)),
{
    let mut i: usize = from;
    while i < to
        invariant
            from <= i <= to <= s.len(),
            forall|j: int| from <= j < i ==> is_field_char(s[j]),
        decreases to - i,
    {
        let c = s[i];
        if !(c == '\t' || (' ' <= c && c != '\x7f')) {
            assert(s@.subrange(from as int, to as int)[i - from] == c);
            return false;
        }
        i += 1;
    }
    assert forall|j: int| 0 <= j < to - from implies is_field_char(
        #[trigger] s@.subrange(from as int, to as int)[j],
    ) by {
        assert(s@.subrange(from as int, to as int)[j] == s[from + j]);
    }
    true
}

/// Appends copies of the headers of `more` to `out`, in order.
pub fn extend_headers(out: &mut Vec<Header>, more: &Vec<Header>)
    ensures
        views(final(out)@) == views(old(out)@) + views(more@),
{
    let mut i: usize = 0;
    assert(views(out@) =~= views(old(out)@) + views(more@).take(0));
    while i < more.len()
        invariant
            i <= more.len(),
            views(out@) == views(old(out)@) + views(more@).take(i as int),
        decreases more.len() - i,
    {
        let ghost before = out@;
        out.push(more[i].clone());
        assert(views(out@) =~= views(before).push(more[i as int]@));
        assert(views(out@) =~= views(old(out)@) + views(more@).take(i + 1));
        i += 1;
    }
    assert(views(more@).take(more.len() as int) =~= views(more@));
}

/// The value of the first header named `name`, if there is one.
pub fn get_header<'a>(headers: &'a Vec<Header>, name: &str) -> (out: Option<&'a str>)
    ensures
        match out {
            Some(v) => lookup(views(headers@), name@) == Some(v@),
            None => lookup(views(headers@), name@) is None,
        },
{
    let ghost all = views(headers@);
    let mut i: usize = 0;
    assert(all.skip(0) =~= all);
    while i < headers.len()
        invariant
            i <= headers.len(),
            all == views(headers@),
            lookup(all, name@) == lookup(all.skip(i as int), name@),
        decreases headers.len() - i,
    {
        proof {
            assert(all.skip(i as int)[0] == headers[i as int]@);
            assert(all.skip(i as int).drop_first() =~= all.skip(i + 1));
        }
        if headers[i].is_name(name) {
            return Some(headers[i].value());
        }
        i += 1;
    }
    None
}

/// Tests whether some header is named `name`.
pub fn has_header(headers: &Vec<Header>, name: &str) -> (out: bool)
    ensures
        out == lookup(views(headers@), name@).is_some(),
{
    get_header(headers, name).is_some()
}

/// The values of all headers named `name`, in order.
pub fn get_all_headers<'a>(headers: &'a Vec<Header>, name: &str) -> (out: Vec<&'a str>)
    ensures
        texts(out@) == lookup_all(views(headers@), name@),
{
    let ghost all = views(headers@);
    let ghost pred = |h: HeaderView| h.named(name@);
    let ghost val = |h: HeaderView| h.value;
    let mut out: Vec<&'a str> = Vec::new();
    let mut i: usize = 0;
    proof {
        reveal(Seq::filter);
        assert(all.take(0).filter(pred) =~= Seq::<HeaderView>::empty());
        assert(texts(out@) =~= all.take(0).filter(pred).map_values(val));
    }
    while i < headers.len()
        invariant
            i <= headers.len(),
            all == views(headers@),
            pred == |h: HeaderView| h.named(name@),
            val == |h: HeaderView| h.value,
            texts(out@) == all.take(i as int).filter(pred).map_values(val),
        decreases headers.len() - i,
    {
        let ghost before = out@;
        proof {
            reveal(Seq::filter);
            assert(all.take(i + 1).drop_last() =~= all.take(i as int));
            assert(all.take(i + 1).last() == headers[i as int]@);
        }
        if headers[i].is_name(name) {
            out.push(headers[i].value());
            proof {
                let kept = all.take(i as int).filter(pred);
                assert(texts(out@) =~= texts(before).push(headers[i as int]@.value));
                assert(kept.push(headers[i as int]@).map_values(val) =~= kept.map_values(val).push(
                    headers[i as int]@.value,
                ));
            }
        }
        i += 1;
    }
    assert(all.take(headers.len() as int) =~= all);
    out
}

} // verus!
