//! The parts of a URL that a request reads.

use vstd::prelude::*;
use crate::text::{clone_opt, opt_view};

verus! {

/// A URL, taken apart: `scheme://host:port/path?query`.
///
/// `path` starts at the slash after the host and port. `query` is the text
/// after the question mark, without it; `None` means the URL has no question
/// mark. `port` is `None` where the URL names none.
#[derive(Debug)]
pub struct Url {
    pub scheme: String,
    pub host: Option<String>,
    pub port: Option<u16>,
    pub path: String,
    pub query: Option<String>,
}

/// The mathematical value of a [`Url`].
pub struct UrlView {
    pub scheme: Seq<char>,
    pub host: Option<Seq<char>>,
    pub port: Option<u16>,
    pub path: Seq<char>,
    pub query: Option<Seq<char>>,
}

impl View for Url {
    type V = UrlView;

    open spec fn view(&self) -> UrlView {
        UrlView {
            scheme: self.scheme@,
            host: opt_view(self.host),
            port: self.port,
            path: self.path@,
            query: opt_view(self.query),
        }
    }
}

impl Clone for Url {
    fn clone(&self) -> (out: Self)
        ensures
            out@ == self@,
    {
        Url {
            scheme: self.scheme.clone(),
            host: clone_opt(&self.host),
            port: self.port,
            path: self.path.clone(),
            query: clone_opt(&self.query),
        }
    }
}

} // verus!
