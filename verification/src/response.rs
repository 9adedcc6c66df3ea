//! Responses: the head that is read before the body, and the answer that a
//! request ends with.
//!
//! A status line is `HTTP/<version> <code>` with a code of exactly three
//! digits, optionally followed by a space and a reason. Surrounding
//! whitespace does not count.

use vstd::prelude::*;
use crate::error::{Error, ErrorView};
use crate::header::{parsed, texts, views, Header, HeaderView};
use crate::text::{
    chars_of, copy_range, find_in, position, same_chars, starts_with, trim_bounds, trimmed,
};

verus! {

/// A decimal digit.
pub open spec fn is_digit(c: char) -> bool {
    '0' <= c && c <= '9'
}

/// The number that three digits spell.
pub open spec fn three_digits(a: char, b: char, c: char) -> u16 {
    (100 * (a as u8 - 48) + 10 * (b as u8 - 48) + (c as u8 - 48)) as u16
}

/// The status code that a status line holds, or `None` when the line is no
/// status line.
pub open spec fn status_of(line: Seq<char>) -> Option<u16> {
    let text = trimmed(line);
    let space = position(text, ' ') as int;
    if starts_with(text, "HTTP/"@) && space + 4 <= text.len() && is_digit(text[space + 1])
        && is_digit(text[space + 2]) && is_digit(text[space + 3]) && (space + 4 == text.len()
        || text[space + 4] == ' ') {
        Some(three_digits(text[space + 1], text[space + 2], text[space + 3]))
    } else {
        None
    }
}

/// The headers that a list of lines holds, or `None` when a line is no header.
pub open spec fn all_parsed(lines: Seq<Seq<char>>) -> Option<Seq<HeaderView>> {
    if forall|i: int| 0 <= i < lines.len() ==> parsed(#[trigger] lines[i]) is Some {
        Some(lines.map_values(|line: Seq<char>| parsed(line)->0))
    } else {
        None
    }
}

/// What a status line and the header lines after it hold.
pub open spec fn parsed_head(status: Seq<char>, lines: Seq<Seq<char>>) -> Result<
    ResponseHeadView,
    ErrorView,
> {
    match status_of(status) {
        None => Err(ErrorView::BadStatus),
        Some(code) => match all_parsed(lines) {
            None => Err(ErrorView::BadHeader),
            Some(headers) => Ok(ResponseHeadView { status: code, headers }),
        },
    }
}

/// The status and headers of a response, read before its body.
#[derive(Debug)]
pub struct ResponseHead {
    pub status: u16,
    pub headers: Vec<Header>,
}

/// The mathematical value of a [`ResponseHead`].
pub struct ResponseHeadView {
    pub status: u16,
    pub headers: Seq<HeaderView>,
}

impl View for ResponseHead {
    type V = ResponseHeadView;

    open spec fn view(&self) -> ResponseHeadView {
        ResponseHeadView { status: self.status, headers: views(self.headers@) }
    }
}

/// The response that ends a request. Its body is still on the stream;
/// `is_head` says that none will come.
#[derive(Debug)]
pub struct Response {
    pub status: u16,
    pub headers: Vec<Header>,
    pub is_head: bool,
}

/// The mathematical value of a [`Response`].
pub struct ResponseView {
    pub status: u16,
    pub headers: Seq<HeaderView>,
    pub is_head: bool,
}

impl View for Response {
    type V = ResponseView;

    open spec fn view(&self) -> ResponseView {
        ResponseView {
            status: self.status,
            headers: views(self.headers@),
            is_head: self.is_head,
        }
    }
}

/// The view of the outcome of reading a response head.
pub open spec fn head_outcome(out: Result<ResponseHead, Error>) -> Result<
    ResponseHeadView,
    ErrorView,
> {
    match out {
        Ok(head) => Ok(head@),
        Err(error) => Err(error@),
    }
}

/// Tests one character for a decimal digit.
fn digit(c: char) -> (out: bool)
    ensures
        out == is_digit(c),
{
    '0' <= c && c <= '9'
}

/// Reads the status code of a status line.
pub fn read_status(line: &str) -> (out: Option<u16>)
    ensures
        out == status_of(line@),
{
    let cs = chars_of(line);
    let (from, to) = trim_bounds(&cs, 0, cs.len());
    let ghost text = cs@.subrange(from as int, to as int);
    assert(cs@.subrange(0, cs.len() as int) =~= cs@);
    let space = find_in(&cs, ' ', from, to);
    let prefix = chars_of("HTTP/");
    let versioned = to - from >= prefix.len() && {
        let start = copy_range(&cs, from, from + prefix.len());
        assert(start@ =~= text.subrange(0, prefix.len() as int));
        same_chars(&start, &prefix)
    };
    if !versioned || to - space < 4 {
        return None;
    }
    let a = cs[space + 1];
    let b = cs[space + 2];
    let c = cs[space + 3];
    proof {
        assert(text[space - from + 1] == a);
        assert(text[space - from + 2] == b);
        assert(text[space - from + 3] == c);
        if space + 4 < to {
            assert(text[space - from + 4] == cs[space + 4]);
        }
    }
    if !digit(a) || !digit(b) || !digit(c) {
        return None;
    }
    if space + 4 != to && cs[space + 4] != ' ' {
        return None;
    }
    Some(100 * (a as u8 - 48) as u16 + 10 * (b as u8 - 48) as u16 + (c as u8 - 48) as u16)
}

impl ResponseHead {
    /// Reads a response head from its status line and the header lines that
    /// follow it.
    pub fn parse(status: &str, lines: &Vec<&str>) -> (out: Result<ResponseHead, Error>)
        ensures
            head_outcome(out) == parsed_head(status@, texts(lines@)),
    {
        let code = match read_status(status) {
            Some(code) => code,
            None => {
                return Err(Error::BadStatus);
            },
        };
        let ghost all = texts(lines@);
        let mut headers: Vec<Header> = Vec::new();
        let mut i: usize = 0;
        while i < lines.len()
            invariant
                i <= lines.len(),
                all == texts(lines@),
                status_of(status@) == Some(code),
                headers.len() == i,
                forall|j: int| 0 <= j < i ==> parsed(#[trigger] all[j]) == Some(headers[j]@),
            decreases lines.len() - i,
        {
            assert(all[i as int] == lines[i as int]@);
            match Header::parse(lines[i]) {
                Ok(header) => {
                    headers.push(header);
                },
                Err(_) => {
                    assert(parsed(all[i as int]) is None);
                    return Err(Error::BadHeader);
                },
            }
            i += 1;
        }
        assert(views(headers@) =~= all.map_values(|line: Seq<char>| parsed(line)->0));
        Ok(ResponseHead { status: code, headers })
    }
}

} // verus!
