//! The failures a request can end in.

use vstd::prelude::*;
use vstd::string::*;

verus! {

/// Why a request could not be built or completed.
#[derive(Debug)]
pub enum Error {
    /// A header line is not `name: value` with a token for a name and
    /// printable text for a value.
    BadHeader,
    /// A response does not start with a status line.
    BadStatus,
    /// No transport exists for this URL scheme.
    UnknownScheme(String),
    /// A redirect target could not be resolved against the current URL.
    BadUrl(String),
    /// A redirect was pending when the hop budget was already spent.
    TooManyRedirects,
    /// The transport failed while connecting, reading or writing.
    Io(String),
}

/// The mathematical value of an [`Error`].
pub enum ErrorView {
    BadHeader,
    BadStatus,
    UnknownScheme(Seq<char>),
    BadUrl(Seq<char>),
    TooManyRedirects,
    Io(Seq<char>),
}

impl View for Error {
    type V = ErrorView;

    open spec fn view(&self) -> ErrorView {
        match self {
            Error::BadHeader => ErrorView::BadHeader,
            Error::BadStatus => ErrorView::BadStatus,
            Error::UnknownScheme(s) => ErrorView::UnknownScheme(s@),
            Error::BadUrl(s) => ErrorView::BadUrl(s@),
            Error::TooManyRedirects => ErrorView::TooManyRedirects,
            Error::Io(s) => ErrorView::Io(s@),
        }
    }
}

impl Clone for Error {
    fn clone(&self) -> (out: Self)
        ensures
            out@ == self@,
    {
        match self {
            Error::BadHeader => Error::BadHeader,
            Error::BadStatus => Error::BadStatus,
            Error::UnknownScheme(s) => Error::UnknownScheme(s.clone()),
            Error::BadUrl(s) => Error::BadUrl(s.clone()),
            Error::TooManyRedirects => Error::TooManyRedirects,
            Error::Io(s) => Error::Io(s.clone()),
        }
    }
}

impl Error {
    /// A one-line description of the failure.
    pub fn message(&self) -> (out: String)
        ensures
            out@ == self@.message(),
    {
        match self {
            Error::BadHeader => String::from_str("Bad header"),
            Error::BadStatus => String::from_str("Bad status"),
            Error::UnknownScheme(s) => {
                let mut out = String::from_str("Unknown scheme: ");
                out.append(s.as_str());
                out
            },
            Error::BadUrl(s) => {
                let mut out = String::from_str("Bad url: ");
                out.append(s.as_str());
                out
            },
            Error::TooManyRedirects => String::from_str("Too many redirects"),
            Error::Io(s) => {
                let mut out = String::from_str("Io: ");
                out.append(s.as_str());
                out
            },
        }
    }
}

impl ErrorView {
    /// The description that [`Error::message`] renders.
    pub open spec fn message(self) -> Seq<char> {
        match self {
            ErrorView::BadHeader => "Bad header"@,
            ErrorView::BadStatus => "Bad status"@,
            ErrorView::UnknownScheme(s) => "Unknown scheme: "@ + s,
            ErrorView::BadUrl(s) => "Bad url: "@ + s,
            ErrorView::TooManyRedirects => "Too many redirects"@,
            ErrorView::Io(s) => "Io: "@ + s,
        }
    }
}

} // verus!
