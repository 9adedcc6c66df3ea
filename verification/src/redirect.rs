//! One request from its first connection to its last, as a state machine.
//!
//! The machine does no I/O. [`Unit::connect`] starts a hop and says what to
//! do on the wire; [`Unit::proceed`] takes what came of it and says what to
//! do next. Whoever drives the machine performs each [`Action`] and answers
//! with the matching [`Event`], until a step asks for nothing more:
//!
//! * `Exchange` is answered by `Head`, or by `Broken`;
//! * `Resolve` is answered by `Resolved`;
//! * `Send` is answered by `Sent`, or by `Broken`.
//!
//! An event that does not answer the pending action fails the request.

use vstd::prelude::*;
use vstd::string::*;
use crate::body::{frame_body, framed, Body, BodyView};
use crate::cookie::{CookieJar, CookieView};
use crate::error::{Error, ErrorView};
use crate::header::{
    get_all_headers, get_header, has_header, lookup, lookup_all, views, HeaderView,
};
use crate::ingest::stored;
use crate::response::{Response, ResponseHead, ResponseHeadView, ResponseView};
use crate::text::same_text;
use crate::unit::{host_or_local, Unit, UnitView};
use crate::url::{Url, UrlView};

verus! {

/// How the bytes of a connection travel.
#[derive(Clone, Copy, Debug, PartialEq, Eq, Structural)]
pub enum Transport {
    /// Plain TCP, for `http`.
    Plain,
    /// TLS over TCP, for `https`.
    Tls,
    /// An in-memory stream, for `test`.
    Memory,
}

/// What one hop sends, and how many redirects may still follow it.
#[derive(Debug)]
pub struct Hop {
    pub url: Url,
    pub method: String,
    pub redirects: u32,
    pub body: Body,
}

/// The mathematical value of a [`Hop`].
pub struct HopView {
    pub url: UrlView,
    pub method: Seq<char>,
    pub redirects: u32,
    pub body: BodyView,
}

impl View for Hop {
    type V = HopView;

    open spec fn view(&self) -> HopView {
        HopView {
            url: self.url@,
            method: self.method@,
            redirects: self.redirects,
            body: self.body@,
        }
    }
}

/// Where a request stands while the wire is busy, or how it ended.
#[derive(Debug)]
pub enum State {
    /// The request of `hop` is on its way; status and headers are awaited.
    AwaitingResponseHeaders { hop: Hop },
    /// The response to `hop` redirects to `location`, which is being resolved.
    EvaluatingRedirect { hop: Hop, status: u16, location: String },
    /// The body of the redirected hop is being written; `next` follows.
    SendingBody { next: Hop },
    /// The body is being written; `response` is the answer.
    Finalizing { response: Response },
    /// The request succeeded.
    Done { response: Response },
    /// The request failed.
    Failed { error: Error },
}

/// The mathematical value of a [`State`].
pub enum StateView {
    AwaitingResponseHeaders { hop: HopView },
    EvaluatingRedirect { hop: HopView, status: u16, location: Seq<char> },
    SendingBody { next: HopView },
    Finalizing { response: ResponseView },
    Done { response: ResponseView },
    Failed { error: ErrorView },
}

impl View for State {
    type V = StateView;

    open spec fn view(&self) -> StateView {
        match self {
            State::AwaitingResponseHeaders { hop } => StateView::AwaitingResponseHeaders {
                hop: hop@,
            },
            State::EvaluatingRedirect { hop, status, location } => StateView::EvaluatingRedirect {
                hop: hop@,
                status: *status,
                location: location@,
            },
            State::SendingBody { next } => StateView::SendingBody { next: next@ },
            State::Finalizing { response } => StateView::Finalizing { response: response@ },
            State::Done { response } => StateView::Done { response: response@ },
            State::Failed { error } => StateView::Failed { error: error@ },
        }
    }
}

/// What came of an action.
#[derive(Debug)]
pub enum Event {
    /// The request went out and the response's status and headers came in.
    Head(ResponseHead),
    /// The redirect target resolved to a URL, or could not be resolved.
    Resolved(Option<Url>),
    /// The bytes were written.
    Sent,
    /// The transport failed; the text says how.
    Broken(String),
}

/// The mathematical value of an [`Event`].
pub enum EventView {
    Head(ResponseHeadView),
    Resolved(Option<UrlView>),
    Sent,
    Broken(Seq<char>),
}

/// The view of an optional URL.
pub open spec fn opt_url(o: Option<Url>) -> Option<UrlView> {
    match o {
        Some(u) => Some(u@),
        None => None,
    }
}

impl View for Event {
    type V = EventView;

    open spec fn view(&self) -> EventView {
        match self {
            Event::Head(head) => EventView::Head(head@),
            Event::Resolved(url) => EventView::Resolved(opt_url(*url)),
            Event::Sent => EventView::Sent,
            Event::Broken(text) => EventView::Broken(text@),
        }
    }
}

/// What to do on the wire next.
#[derive(Debug)]
pub enum Action {
    /// Open a stream to `hostname` over `transport` with these timeouts, on
    /// `port` or on the transport's own port where there is none; write
    /// `prelude` to it in one piece; and read the response's status line and
    /// headers, leaving the body unread.
    Exchange {
        transport: Transport,
        hostname: String,
        port: Option<u16>,
        timeout_connect: u64,
        timeout_read: u64,
        timeout_write: u64,
        prelude: String,
    },
    /// Resolve `location`, which may be relative, against `base`.
    Resolve { base: Url, location: String },
    /// Write `bytes` to the open stream.
    Send { bytes: Vec<u8> },
}

/// The mathematical value of an [`Action`].
pub enum ActionView {
    Exchange {
        transport: Transport,
        hostname: Seq<char>,
        port: Option<u16>,
        timeout_connect: u64,
        timeout_read: u64,
        timeout_write: u64,
        prelude: Seq<char>,
    },
    Resolve { base: UrlView, location: Seq<char> },
    Send { bytes: Seq<u8> },
}

impl View for Action {
    type V = ActionView;

    open spec fn view(&self) -> ActionView {
        match self {
            Action::Exchange {
                transport,
                hostname,
                port,
                timeout_connect,
                timeout_read,
                timeout_write,
                prelude,
            } => ActionView::Exchange {
                transport: *transport,
                hostname: hostname@,
                port: *port,
                timeout_connect: *timeout_connect,
                timeout_read: *timeout_read,
                timeout_write: *timeout_write,
                prelude: prelude@,
            },
            Action::Resolve { base, location } => ActionView::Resolve {
                base: base@,
                location: location@,
            },
            Action::Send { bytes } => ActionView::Send { bytes: bytes@ },
        }
    }
}

/// The view of an optional action.
pub open spec fn opt_action(o: Option<Action>) -> Option<ActionView> {
    match o {
        Some(a) => Some(a@),
        None => None,
    }
}

/// One step of the machine: the state it is in now, and the action whose
/// outcome it waits for. A finished request asks for no action.
#[derive(Debug)]
pub struct Step {
    pub state: State,
    pub action: Option<Action>,
}

/// The mathematical value of a [`Step`].
pub struct StepView {
    pub state: StateView,
    pub action: Option<ActionView>,
}

impl View for Step {
    type V = StepView;

    open spec fn view(&self) -> StepView {
        StepView { state: self.state@, action: opt_action(self.action) }
    }
}

/// The cookies of an optional jar.
pub open spec fn opt_jar(o: Option<CookieJar>) -> Option<Seq<CookieView>> {
    match o {
        Some(j) => Some(j@),
        None => None,
    }
}

/// The transport that serves a URL scheme.
pub open spec fn transport_for(scheme: Seq<char>) -> Option<Transport> {
    if scheme == "http"@ {
        Some(Transport::Plain)
    } else if scheme == "https"@ {
        Some(Transport::Tls)
    } else if scheme == "test"@ {
        Some(Transport::Memory)
    } else {
        None
    }
}

/// The header lines of a request, each ended by CR LF.
pub open spec fn header_lines(headers: Seq<HeaderView>) -> Seq<char>
    decreases headers.len(),
{
    if headers.len() == 0 {
        Seq::empty()
    } else {
        header_lines(headers.drop_last()) + headers.last().name + ": "@ + headers.last().value
            + "\r\n"@
    }
}

/// The `Host` line of a request to `url`, unless the request names a host itself.
pub open spec fn host_line(headers: Seq<HeaderView>, url: UrlView) -> Seq<char> {
    if lookup(headers, "host"@) is None {
        "Host: "@ + host_or_local(url) + "\r\n"@
    } else {
        Seq::empty()
    }
}

/// Everything a hop writes before its body: the request line, the `Host`
/// line where the request names no host, the request's headers, and an
/// empty line.
pub open spec fn prelude(unit: UnitView, hop: HopView) -> Seq<char> {
    hop.method + " "@ + hop.url.path + unit.query_string + " HTTP/1.1\r\n"@ + host_line(
        unit.headers,
        hop.url,
    ) + header_lines(unit.headers) + "\r\n"@
}

/// A status of the redirect class.
pub open spec fn is_redirect(status: u16) -> bool {
    300 <= status <= 399
}

/// A status whose redirect is followed with `GET` and without a body.
pub open spec fn resets_method(status: u16) -> bool {
    status == 301 || status == 302 || status == 303
}

/// The step that starts `hop`: an exchange over the transport of its
/// scheme, or failure when no transport serves the scheme.
pub open spec fn started(unit: UnitView, hop: HopView) -> StepView {
    match transport_for(hop.url.scheme) {
        Some(transport) => StepView {
            state: StateView::AwaitingResponseHeaders { hop },
            action: Some(
                ActionView::Exchange {
                    transport,
                    hostname: unit.hostname,
                    port: unit.url.port,
                    timeout_connect: unit.timeout_connect,
                    timeout_read: unit.timeout_read,
                    timeout_write: unit.timeout_write,
                    prelude: prelude(unit, hop),
                },
            ),
        },
        None => failed(ErrorView::UnknownScheme(hop.url.scheme)),
    }
}

/// The step that ends a request in failure.
pub open spec fn failed(error: ErrorView) -> StepView {
    StepView { state: StateView::Failed { error }, action: None }
}

/// The hop that follows a redirect of `hop` with `status` to `url`.
pub open spec fn next_hop(hop: HopView, status: u16, url: UrlView) -> HopView {
    if resets_method(status) {
        HopView {
            url,
            method: "GET"@,
            redirects: (hop.redirects - 1) as u32,
            body: BodyView { size: None, data: Seq::empty() },
        }
    } else {
        HopView { url, method: hop.method, redirects: (hop.redirects - 1) as u32, body: hop.body }
    }
}

/// The step after the response head `head` answered `hop`.
///
/// A redirect-class status with a `Location` header is a redirect: it fails
/// the request when no redirects are left, and has its target resolved
/// otherwise. Any other response ends the request: the body is sent and the
/// response is the answer.
pub open spec fn answered(unit: UnitView, hop: HopView, head: ResponseHeadView) -> StepView {
    match lookup(head.headers, "location"@) {
        Some(location) if is_redirect(head.status) => if hop.redirects == 0 {
            failed(ErrorView::TooManyRedirects)
        } else {
            StepView {
                state: StateView::EvaluatingRedirect { hop, status: head.status, location },
                action: Some(ActionView::Resolve { base: hop.url, location }),
            }
        },
        _ => StepView {
            state: StateView::Finalizing {
                response: ResponseView {
                    status: head.status,
                    headers: head.headers,
                    is_head: unit.is_head,
                },
            },
            action: Some(ActionView::Send { bytes: framed(hop.body.data, unit.is_chunked) }),
        },
    }
}

/// The step after the target of a redirect of `hop` was resolved.
///
/// After 301, 302 and 303 the body of `hop` is first written to the stream
/// that answered, and the next hop starts when that is done. After any other
/// status the next hop starts at once. A target that did not resolve fails
/// the request, and so does a hop that has no redirects left.
pub open spec fn redirected(
    unit: UnitView,
    hop: HopView,
    status: u16,
    location: Seq<char>,
    target: Option<UrlView>,
) -> StepView {
    match target {
        None => failed(ErrorView::BadUrl("Bad redirection: "@ + location)),
        Some(url) => if hop.redirects == 0 {
            failed(ErrorView::TooManyRedirects)
        } else if resets_method(status) {
            StepView {
                state: StateView::SendingBody { next: next_hop(hop, status, url) },
                action: Some(ActionView::Send { bytes: framed(hop.body.data, unit.is_chunked) }),
            }
        } else {
            started(unit, next_hop(hop, status, url))
        },
    }
}

/// The step that `event` leads to from `state`.
pub open spec fn stepped(unit: UnitView, state: StateView, event: EventView) -> StepView {
    match (state, event) {
        (StateView::Done { .. }, _) => StepView { state, action: None },
        (StateView::Failed { .. }, _) => StepView { state, action: None },
        (_, EventView::Broken(text)) => failed(ErrorView::Io(text)),
        (StateView::AwaitingResponseHeaders { hop }, EventView::Head(head)) => answered(
            unit,
            hop,
            head,
        ),
        (
            StateView::EvaluatingRedirect { hop, status, location },
            EventView::Resolved(target),
        ) => redirected(unit, hop, status, location, target),
        (StateView::SendingBody { next }, EventView::Sent) => started(unit, next),
        (StateView::Finalizing { response }, EventView::Sent) => StepView {
            state: StateView::Done { response },
            action: None,
        },
        _ => failed(ErrorView::Io("unexpected event"@)),
    }
}

/// The jar after `event` arrived in `state`: the `Set-Cookie` values of an
/// awaited response head are taken in, whatever the response leads to, and
/// nothing else touches the jar.
pub open spec fn kept(
    unit: UnitView,
    jar: Option<Seq<CookieView>>,
    state: StateView,
    event: EventView,
) -> Option<Seq<CookieView>> {
    match (jar, state, event) {
        (Some(cookies), StateView::AwaitingResponseHeaders { .. }, EventView::Head(head)) => Some(
            stored(cookies, lookup_all(head.headers, "set-cookie"@), unit.hostname),
        ),
        _ => jar,
    }
}

/// A hop whose scheme no transport serves fails with that scheme, and asks
/// for nothing on the wire.
pub proof fn lemma_unknown_scheme(unit: UnitView, hop: HopView)
    requires
        hop.url.scheme != "http"@,
        hop.url.scheme != "https"@,
        hop.url.scheme != "test"@,
    ensures
        started(unit, hop) == failed(ErrorView::UnknownScheme(hop.url.scheme)),
        started(unit, hop).action is None,
{
}

/// A finished request stays as it is and asks for nothing more, whatever
/// event is handed to it.
pub proof fn lemma_finished_stays(unit: UnitView, state: StateView, event: EventView)
    requires
        state is Done || state is Failed,
    ensures
        stepped(unit, state, event) == (StepView { state, action: None }),
{
}

/// A response without a `Location` header ends the request, whatever its
/// status and however many redirects are left: the body of the hop is sent,
/// framed as the request asks, and the response is the answer.
pub proof fn lemma_no_location_is_final(unit: UnitView, hop: HopView, head: ResponseHeadView)
    requires
        lookup(head.headers, "location"@) is None,
    ensures
        ({
            let response = ResponseView {
                status: head.status,
                headers: head.headers,
                is_head: unit.is_head,
            };
            let sending = stepped(
                unit,
                StateView::AwaitingResponseHeaders { hop },
                EventView::Head(head),
            );
            &&& sending.state == StateView::Finalizing { response }
            &&& sending.action == Some(
                ActionView::Send { bytes: framed(hop.body.data, unit.is_chunked) },
            )
            &&& stepped(unit, sending.state, EventView::Sent) == (StepView {
                state: StateView::Done { response },
                action: None,
            })
        }),
{
}

/// A redirect that arrives when no redirects are left fails the request
/// with `TooManyRedirects`, and nothing more is asked for on the wire: no
/// target is resolved and no connection is opened.
pub proof fn lemma_spent_budget_fails(unit: UnitView, hop: HopView, head: ResponseHeadView)
    requires
        is_redirect(head.status),
        lookup(head.headers, "location"@) is Some,
        hop.redirects == 0,
    ensures
        stepped(unit, StateView::AwaitingResponseHeaders { hop }, EventView::Head(head)) == failed(
            ErrorView::TooManyRedirects,
        ),
        failed(ErrorView::TooManyRedirects).action is None,
{
}

/// A redirect with redirects left has its `Location` resolved against the
/// URL of the hop that was answered.
pub proof fn lemma_redirect_resolves(unit: UnitView, hop: HopView, head: ResponseHeadView)
    requires
        is_redirect(head.status),
        lookup(head.headers, "location"@) is Some,
        hop.redirects > 0,
    ensures
        ({
            let location = lookup(head.headers, "location"@)->0;
            stepped(unit, StateView::AwaitingResponseHeaders { hop }, EventView::Head(head)) == (
            StepView {
                state: StateView::EvaluatingRedirect { hop, status: head.status, location },
                action: Some(ActionView::Resolve { base: hop.url, location }),
            })
        }),
{
}

/// After 301, 302 and 303 the body of the answered hop is written to the
/// stream that answered, and then the next hop starts: to the resolved URL,
/// with `GET`, without a body, and with one redirect less.
pub proof fn lemma_redirect_resets(
    unit: UnitView,
    hop: HopView,
    status: u16,
    location: Seq<char>,
    url: UrlView,
)
    requires
        resets_method(status),
        hop.redirects > 0,
    ensures
        ({
            let next = HopView {
                url,
                method: "GET"@,
                redirects: (hop.redirects - 1) as u32,
                body: BodyView { size: None, data: Seq::empty() },
            };
            let draining = stepped(
                unit,
                StateView::EvaluatingRedirect { hop, status, location },
                EventView::Resolved(Some(url)),
            );
            &&& draining.state == StateView::SendingBody { next }
            &&& draining.action == Some(
                ActionView::Send { bytes: framed(hop.body.data, unit.is_chunked) },
            )
            &&& stepped(unit, draining.state, EventView::Sent) == started(unit, next)
        }),
{
}

/// After a redirect with any status but 301, 302 and 303 the next hop
/// starts at once: to the resolved URL, with the method and the body of the
/// answered hop, and with one redirect less.
pub proof fn lemma_redirect_keeps(
    unit: UnitView,
    hop: HopView,
    status: u16,
    location: Seq<char>,
    url: UrlView,
)
    requires
        !resets_method(status),
        hop.redirects > 0,
    ensures
        stepped(
            unit,
            StateView::EvaluatingRedirect { hop, status, location },
            EventView::Resolved(Some(url)),
        ) == started(
            unit,
            HopView {
                url,
                method: hop.method,
                redirects: (hop.redirects - 1) as u32,
                body: hop.body,
            },
        ),
{
}

/// A `Location` that does not resolve fails the request with `BadUrl`.
pub proof fn lemma_unresolved_fails(unit: UnitView, hop: HopView, status: u16, location: Seq<char>)
    ensures
        stepped(
            unit,
            StateView::EvaluatingRedirect { hop, status, location },
            EventView::Resolved(None),
        ) == failed(ErrorView::BadUrl("Bad redirection: "@ + location)),
{
}

/// A transport failure ends a running request with the transport's own
/// words.
pub proof fn lemma_broken_fails(unit: UnitView, state: StateView, text: Seq<char>)
    requires
        !(state is Done),
        !(state is Failed),
    ensures
        stepped(unit, state, EventView::Broken(text)) == failed(ErrorView::Io(text)),
{
}

/// One if `step` asks for an exchange, zero otherwise.
pub open spec fn opens(step: StepView) -> nat {
    match step.action {
        Some(ActionView::Exchange { .. }) => 1,
        _ => 0,
    }
}

/// The number of exchanges that a request in `state` asks for while
/// `events` arrive, in order.
pub open spec fn exchanges(unit: UnitView, state: StateView, events: Seq<EventView>) -> nat
    decreases events.len(),
{
    if events.len() == 0 {
        0
    } else {
        let step = stepped(unit, state, events[0]);
        opens(step) + exchanges(unit, step.state, events.drop_first())
    }
}

/// The number of exchanges that a request in `state` may still ask for.
pub open spec fn budget(state: StateView) -> nat {
    match state {
        StateView::AwaitingResponseHeaders { hop } => hop.redirects as nat,
        StateView::EvaluatingRedirect { hop, .. } => hop.redirects as nat,
        StateView::SendingBody { next } => next.redirects as nat + 1,
        _ => 0,
    }
}

/// Whatever events arrive, a request asks for no more exchanges than its
/// redirects allow.
pub proof fn lemma_exchanges_bounded(unit: UnitView, state: StateView, events: Seq<EventView>)
    ensures
        exchanges(unit, state, events) <= budget(state),
    decreases events.len(),
{
    if events.len() > 0 {
        let step = stepped(unit, state, events[0]);
        lemma_exchanges_bounded(unit, step.state, events.drop_first());
        assert(opens(step) + budget(step.state) <= budget(state));
    }
}

/// A request that may follow `hop.redirects` redirects opens at most one
/// connection more than that, whatever the responses are.
pub proof fn lemma_connections_bounded(unit: UnitView, hop: HopView, events: Seq<EventView>)
    ensures
        opens(started(unit, hop)) + exchanges(unit, started(unit, hop).state, events)
            <= hop.redirects + 1,
{
    lemma_exchanges_bounded(unit, started(unit, hop).state, events);
}

/// The jar, if there is one, holds no two cookies with the same key.
pub open spec fn jar_wf(o: Option<CookieJar>) -> bool {
    o matches Some(j) ==> j.wf()
}

/// The step that ends a request with `error`.
fn fail(error: Error) -> (out: Step)
    ensures
        out@ == failed(error@),
{
    Step { state: State::Failed { error }, action: None }
}

impl Unit {
    /// Renders what a hop writes before its body.
    pub fn render_prelude(&self, hop: &Hop) -> (out: String)
        ensures
            out@ == prelude(self@, hop@),
    {
        let mut out = String::new();
        out.append(hop.method.as_str());
        out.append(" ");
        out.append(hop.url.path.as_str());
        out.append(self.query_string.as_str());
        out.append(" HTTP/1.1\r\n");
        if !has_header(&self.headers, "host") {
            out.append("Host: ");
            match &hop.url.host {
                Some(h) => out.append(h.as_str()),
                None => out.append("localhost"),
            }
            out.append("\r\n");
        }
        let ghost start = out@;
        assert(start =~= hop@.method + " "@ + hop@.url.path + self@.query_string
            + " HTTP/1.1\r\n"@ + host_line(self@.headers, hop@.url));
        let ghost all = self@.headers;
        let mut i: usize = 0;
        assert(out@ =~= start + header_lines(all.take(0)));
        while i < self.headers.len()
            invariant
                i <= self.headers.len(),
                all == views(self.headers@),
                out@ == start + header_lines(all.take(i as int)),
            decreases self.headers.len() - i,
        {
            let header = &self.headers[i];
            out.append(header.name());
            out.append(": ");
            out.append(header.value());
            out.append("\r\n");
            proof {
                assert(all.take(i + 1).drop_last() =~= all.take(i as int));
                assert(all.take(i + 1).last() == header@);
                assert(out@ =~= start + header_lines(all.take(i + 1)));
            }
            i += 1;
        }
        assert(all.take(self.headers.len() as int) =~= all);
        out.append("\r\n");
        assert(out@ =~= prelude(self@, hop@));
        out
    }

    /// Starts `hop`: picks the transport for its scheme and renders its
    /// prelude. Fails, with nothing to do on the wire, when no transport
    /// serves the scheme.
    pub fn start(&self, hop: Hop) -> (out: Step)
        ensures
            out@ == started(self@, hop@),
    {
        let scheme = hop.url.scheme.as_str();
        let transport = if same_text(scheme, "http") {
            Transport::Plain
        } else if same_text(scheme, "https") {
            Transport::Tls
        } else if same_text(scheme, "test") {
            Transport::Memory
        } else {
            return fail(Error::UnknownScheme(hop.url.scheme.clone()));
        };
        let prelude = self.render_prelude(&hop);
        Step {
            state: State::AwaitingResponseHeaders { hop },
            action: Some(
                Action::Exchange {
                    transport,
                    hostname: self.hostname.clone(),
                    port: self.url.port,
                    timeout_connect: self.timeout_connect,
                    timeout_read: self.timeout_read,
                    timeout_write: self.timeout_write,
                    prelude,
                },
            ),
        }
    }

    /// Starts the request: the first hop goes to `url` with `method` and
    /// `body`, and at most `redirects` redirects are followed after it.
    pub fn connect(&self, url: Url, method: &str, redirects: u32, body: Body) -> (out: Step)
        ensures
            out@ == started(
                self@,
                (HopView { url: url@, method: method@, redirects, body: body@ }),
            ),
    {
        self.start(Hop { url, method: String::from_str(method), redirects, body })
    }

    /// Decides what the response head `head`, which answered `hop`, leads to.
    pub fn answer(&self, hop: Hop, head: ResponseHead) -> (out: Step)
        ensures
            out@ == answered(self@, hop@, head@),
    {
        let redirect = 300 <= head.status && head.status <= 399;
        let location: Option<String> = match get_header(&head.headers, "location") {
            Some(text) => if redirect {
                Some(String::from_str(text))
            } else {
                None
            },
            None => None,
        };
        match location {
            Some(location) => {
                if hop.redirects == 0 {
                    fail(Error::TooManyRedirects)
                } else {
                    let base = hop.url.clone();
                    let target = location.clone();
                    Step {
                        state: State::EvaluatingRedirect { hop, status: head.status, location },
                        action: Some(Action::Resolve { base, location: target }),
                    }
                }
            },
            None => {
                let bytes = frame_body(&hop.body, self.is_chunked);
                Step {
                    state: State::Finalizing {
                        response: Response {
                            status: head.status,
                            headers: head.headers,
                            is_head: self.is_head,
                        },
                    },
                    action: Some(Action::Send { bytes }),
                }
            },
        }
    }

    /// Decides how the redirect of `hop` goes on once its target is resolved.
    pub fn redirect(&self, hop: Hop, status: u16, location: String, target: Option<Url>) -> (out:
        Step)
        ensures
            out@ == redirected(self@, hop@, status, location@, opt_url(target)),
    {
        match target {
            None => {
                let mut detail = String::from_str("Bad redirection: ");
                detail.append(location.as_str());
                fail(Error::BadUrl(detail))
            },
            Some(url) => {
                if hop.redirects == 0 {
                    fail(Error::TooManyRedirects)
                } else if status == 301 || status == 302 || status == 303 {
                    let bytes = frame_body(&hop.body, self.is_chunked);
                    let next = Hop {
                        url,
                        method: String::from_str("GET"),
                        redirects: hop.redirects - 1,
                        body: Body::empty(),
                    };
                    Step { state: State::SendingBody { next }, action: Some(Action::Send { bytes }) }
                } else {
                    self.start(
                        Hop {
                            url,
                            method: hop.method,
                            redirects: hop.redirects - 1,
                            body: hop.body,
                        },
                    )
                }
            },
        }
    }

    /// Takes `event`, the outcome of the action that `state` waits for, and
    /// moves the request on. The `Set-Cookie` values of a response head go
    /// into `jar`, if there is one, before anything else is decided.
    pub fn proceed(&self, jar: &mut Option<CookieJar>, state: State, event: Event) -> (out: Step)
        ensures
            out@ == stepped(self@, state@, event@),
            opt_jar(*final(jar)) == kept(self@, opt_jar(*old(jar)), state@, event@),
            jar_wf(*old(jar)) ==> jar_wf(*final(jar)),
    {
        match state {
            State::Done { response } => Step { state: State::Done { response }, action: None },
            State::Failed { error } => Step { state: State::Failed { error }, action: None },
            State::AwaitingResponseHeaders { hop } => match event {
                Event::Broken(text) => fail(Error::Io(text)),
                Event::Head(head) => {
                    match jar {
                        Some(cookies) => {
                            let raws = get_all_headers(&head.headers, "set-cookie");
                            cookies.store(&raws, self.hostname.as_str());
                        },
                        None => {},
                    }
                    self.answer(hop, head)
                },
                _ => fail(Error::Io(String::from_str("unexpected event"))),
            },
            State::EvaluatingRedirect { hop, status, location } => match event {
                Event::Broken(text) => fail(Error::Io(text)),
                Event::Resolved(target) => self.redirect(hop, status, location, target),
                _ => fail(Error::Io(String::from_str("unexpected event"))),
            },
            State::SendingBody { next } => match event {
                Event::Broken(text) => fail(Error::Io(text)),
                Event::Sent => self.start(next),
                _ => fail(Error::Io(String::from_str("unexpected event"))),
            },
            State::Finalizing { response } => match event {
                Event::Broken(text) => fail(Error::Io(text)),
                Event::Sent => Step { state: State::Done { response }, action: None },
                _ => fail(Error::Io(String::from_str("unexpected event"))),
            },
        }
    }
}

} // verus!
