//! The per-request dispatch core of an HTTP client.
//!
//! A request is prepared once, as a [`unit::Unit`]: the host it goes to,
//! the query on its request line, whether its body is chunked, and the
//! headers it sends, which are the caller's, then the cookies chosen from
//! the jar, then a `Content-Length` where one is due. It is then carried
//! out hop by hop by the state machine in [`redirect`], which says what to
//! write and read, takes in the cookies of every response, and follows
//! redirects until a response is final or the request has failed.
//!
//! Nothing here touches a socket, a clock or a lock. The machine hands out
//! actions and is told what came of them, so every decision it makes is a
//! function of what it was given, and is stated as one.

pub mod body;
pub mod cookie;
pub mod error;
pub mod header;
pub mod ingest;
pub mod redirect;
pub mod response;
pub mod text;
pub mod unit;
pub mod url;
