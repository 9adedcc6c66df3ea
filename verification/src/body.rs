//! Request bodies and their framing on the wire.
//!
//! A body goes out in one of two ways. Fixed framing writes its bytes as they
//! are. Chunked framing writes the bytes as one chunk, unless there are none,
//! and then the empty chunk that ends the body. A chunk is its length in
//! lower-case hexadecimal, CR LF, its bytes, CR LF.

use vstd::prelude::*;

verus! {

/// The ASCII code of the hexadecimal digit `d`, `0 <= d < 16`.
pub open spec fn hex_digit(d: nat) -> u8 {
    if d < 10 {
        (48 + d) as u8
    } else {
        (87 + d) as u8
    }
}

/// `n` in lower-case hexadecimal, as ASCII codes, without leading zeros.
pub open spec fn hex(n: nat) -> Seq<u8>
    decreases n,
{
    if n < 16 {
        seq![hex_digit(n)]
    } else {
        hex(n / 16).push(hex_digit(n % 16))
    }
}

/// Carriage return, line feed.
pub open spec fn crlf() -> Seq<u8> {
    seq![13u8, 10u8]
}

/// One chunk that carries `data`.
pub open spec fn chunk(data: Seq<u8>) -> Seq<u8> {
    hex(data.len()) + crlf() + data + crlf()
}

/// `data` as it goes out on the wire.
pub open spec fn framed(data: Seq<u8>, chunked: bool) -> Seq<u8> {
    if !chunked {
        data
    } else if data.len() > 0 {
        chunk(data) + chunk(Seq::empty())
    } else {
        chunk(Seq::empty())
    }
}

/// A request body: its bytes, and its length where the sender declares one.
#[derive(Debug)]
pub struct Body {
    pub size: Option<u64>,
    pub data: Vec<u8>,
}

/// The mathematical value of a [`Body`].
pub struct BodyView {
    pub size: Option<u64>,
    pub data: Seq<u8>,
}

impl View for Body {
    type V = BodyView;

    open spec fn view(&self) -> BodyView {
        BodyView { size: self.size, data: self.data@ }
    }
}

impl Clone for Body {
    fn clone(&self) -> (out: Self)
        ensures
            out@ == self@,
    {
        Body { size: self.size, data: self.data.clone() }
    }
}

impl Body {
    /// The body without bytes and without a declared length.
    pub fn empty() -> (out: Body)
        ensures
            out@ == (BodyView { size: None, data: Seq::empty() }),
    {
        Body { size: None, data: Vec::new() }
    }

    /// A body of known length.
    pub fn from_bytes(data: Vec<u8>) -> (out: Body)
        ensures
            out@ == (BodyView { size: Some(data.len() as u64), data: data@ }),
    {
        let size = data.len() as u64;
        Body { size: Some(size), data }
    }
}

/// Appends `n` in lower-case hexadecimal to `out`.
pub fn push_hex(out: &mut Vec<u8>, n: usize)
    ensures
        final(out)@ == old(out)@ + hex(n as nat),
    decreases n,
{
    if n >= 16 {
        push_hex(out, n / 16);
    }
    let d = (n % 16) as u8;
    let code = if d < 10 {
        48 + d
    } else {
        87 + d
    };
    out.push(code);
    assert(out@ =~= old(out)@ + hex(n as nat));
}

/// Appends one chunk that carries `data` to `out`.
pub fn push_chunk(out: &mut Vec<u8>, data: &Vec<u8>)
    ensures
        final(out)@ == old(out)@ + chunk(data@),
{
    push_hex(out, data.len());
    out.push(13);
    out.push(10);
    out.extend_from_slice(data.as_slice());
    out.push(13);
    out.push(10);
    assert(out@ =~= old(out)@ + chunk(data@));
}

/// The bytes that send `body`, chunked or not.
pub fn frame_body(body: &Body, is_chunked: bool) -> (out: Vec<u8>)
    ensures
        out@ == framed(body@.data, is_chunked),
{
    if !is_chunked {
        return body.data.clone();
    }
    let mut out: Vec<u8> = Vec::new();
    if body.data.len() > 0 {
        push_chunk(&mut out, &body.data);
    }
    let end: Vec<u8> = Vec::new();
    push_chunk(&mut out, &end);
    assert(out@ =~= framed(body@.data, is_chunked));
    out
}

} // verus!
