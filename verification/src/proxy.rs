//! The life of one client request: get a service ticket for the parent proxy,
//! then tunnel (for `CONNECT`) or forward the request with the ticket attached.
//! Each step's outside work (GSSAPI, the network) is done by the caller, which
//! hands its outcome to `RequestState::next`.

use vstd::prelude::*;
use vstd::utf8::encode_utf8;
use crate::text::{bytes_start_with, slice_starts_with};
use crate::config::Config;
use crate::token::{
    negotiate_header, negotiate_value, token_fits, is_visible_ascii, is_ticket_text,
    is_header_text, is_header_value_text, lemma_negotiate_value, base64_encode, base64_len,
};
use vstd::utf8::{is_ascii_chars, is_ascii_chars_encode_utf8};

verus! {

#[derive(Clone, Copy, Debug, PartialEq, Eq, Structural)]
pub enum RequestState {
    WaitingForRequest,
    GettingTicket,
    ConnectingToProxy,
    Tunelling,
    Forwarding,
    Closing,
}

#[derive(Clone, Copy, Debug, PartialEq, Eq, Structural)]
pub enum StateErrors {
    NoError,
    MissingTgt,
    FailedGettingServiceTicket,
    FailedProxyConnection,
    FaildedProxyAuth,
    FailedTunnel,
}

/// How getting a service ticket went; each error carries the error's text.
#[derive(Debug)]
pub enum TicketOutcome {
    /// The service name was refused.
    NameRejected(String),
    /// No client credentials could be had.
    CredentialsUnavailable(String),
    /// The security context gave no token but an error.
    TokenFailed(String),
    /// The security context gave neither a token nor an error.
    NoToken,
    /// The AP-REQ token.
    Token(Vec<u8>),
}

/// How opening a tunnel through the parent proxy went.
#[derive(Debug)]
pub enum TunnelOutcome {
    /// The parent proxy could not be reached.
    ProxyUnreachable(String),
    /// The `CONNECT` request could not be sent.
    RequestUnsent(String),
    /// The parent proxy's reply, as it was read.
    Replied(Vec<u8>),
}

/// How forwarding a request to the parent proxy went.
#[derive(Debug)]
pub enum ForwardOutcome {
    /// The parent proxy could not be reached.
    ProxyUnreachable(String),
    /// The HTTP handshake with the parent proxy failed.
    HandshakeFailed(String),
    /// The request went out with the ticket attached.
    Sent,
}

/// What the outside work of a state gave.
#[derive(Debug)]
pub enum Event {
    /// The state needs no outside work.
    Proceed,
    Ticket(TicketOutcome),
    Tunnel(TunnelOutcome),
    Forward(ForwardOutcome),
}

#[derive(Debug)]
pub struct RequestContext {
    pub kerberos_service: Vec<u8>,
    pub proxy_ip: String,
    pub proxy_port: u16,
    pub ap_req: Option<String>,
    pub last_state: RequestState,
    pub last_error: StateErrors,
    pub error_message: Option<String>,
    /// The client request's method.
    pub method: String,
    /// The client request's target, as text.
    pub uri: String,
}

pub struct RequestContextView {
    pub kerberos_service: Seq<u8>,
    pub proxy_ip: Seq<char>,
    pub proxy_port: u16,
    pub ap_req: Option<Seq<char>>,
    pub last_state: RequestState,
    pub last_error: StateErrors,
    pub error_message: Option<Seq<char>>,
    pub method: Seq<char>,
    pub uri: Seq<char>,
}

pub open spec fn text_view(s: Option<String>) -> Option<Seq<char>> {
    match s {
        Some(t) => Some(t@),
        None => None,
    }
}

impl View for RequestContext {
    type V = RequestContextView;

    open spec fn view(&self) -> RequestContextView {
        RequestContextView {
            kerberos_service: self.kerberos_service@,
            proxy_ip: self.proxy_ip@,
            proxy_port: self.proxy_port,
            ap_req: text_view(self.ap_req),
            last_state: self.last_state,
            last_error: self.last_error,
            error_message: text_view(self.error_message),
            method: self.method@,
            uri: self.uri@,
        }
    }
}

/// The context of a request with method `method` and target `uri` that has just
/// come in, to go through the parent proxy `proxy_ip`:`proxy_port` with a ticket
/// for the service `kerberos_service`.
pub open spec fn initial_context(
    kerberos_service: Seq<u8>,
    proxy_ip: Seq<char>,
    proxy_port: u16,
    method: Seq<char>,
    uri: Seq<char>,
) -> RequestContextView {
    RequestContextView {
        kerberos_service,
        proxy_ip,
        proxy_port,
        ap_req: None,
        last_state: RequestState::WaitingForRequest,
        last_error: StateErrors::NoError,
        error_message: None,
        method,
        uri,
    }
}

/// `ctx` with the error `error` and the message `message` recorded.
pub open spec fn with_error(
    ctx: RequestContextView,
    error: StateErrors,
    message: Option<Seq<char>>,
) -> RequestContextView {
    RequestContextView { last_error: error, error_message: message, ..ctx }
}

pub open spec fn after_ticket(ctx: RequestContextView, outcome: TicketOutcome) -> (
    RequestState,
    RequestContextView,
) {
    match outcome {
        TicketOutcome::NameRejected(e) => (
            RequestState::Closing,
            with_error(
                ctx,
                StateErrors::FailedGettingServiceTicket,
                Some("Failed to prepare TGS request: "@ + e@),
            ),
        ),
        TicketOutcome::CredentialsUnavailable(e) => (
            RequestState::Closing,
            with_error(
                ctx,
                StateErrors::FailedGettingServiceTicket,
                Some("Failed to create client context: "@ + e@),
            ),
        ),
        TicketOutcome::TokenFailed(e) => (
            RequestState::Closing,
            with_error(
                ctx,
                StateErrors::FailedGettingServiceTicket,
                Some("Failed to get AP-REQ token: "@ + e@),
            ),
        ),
        TicketOutcome::NoToken => (
            RequestState::Closing,
            with_error(
                ctx,
                StateErrors::FailedGettingServiceTicket,
                Some("Failed to encode AP-REQ token"@),
            ),
        ),
        TicketOutcome::Token(t) => (
            RequestState::ConnectingToProxy,
            RequestContextView { ap_req: Some(negotiate_value(t@)), ..ctx },
        ),
    }
}

pub open spec fn after_connecting(ctx: RequestContextView) -> RequestState {
    if ctx.method == "CONNECT"@ {
        RequestState::Tunelling
    } else {
        RequestState::Forwarding
    }
}

/// Whether the parent proxy's reply accepts the tunnel: it begins with
/// `HTTP/1.1 200`. (Text decoded from the reply, with a replacement character for
/// each byte that is no UTF-8, begins with that ASCII text exactly when the bytes do.)
pub open spec fn tunnel_accepted(reply: Seq<u8>) -> bool {
    bytes_start_with(reply, encode_utf8("HTTP/1.1 200"@))
}

pub open spec fn after_tunnel(ctx: RequestContextView, outcome: TunnelOutcome) -> RequestContextView {
    match outcome {
        TunnelOutcome::ProxyUnreachable(e) => with_error(
            ctx,
            StateErrors::FailedProxyConnection,
            Some("Failed to connect to proxy: "@ + e@),
        ),
        TunnelOutcome::RequestUnsent(e) => with_error(
            ctx,
            StateErrors::FailedProxyConnection,
            Some("Failed to send CONNECT request: "@ + e@),
        ),
        TunnelOutcome::Replied(reply) => if tunnel_accepted(reply@) {
            ctx
        } else {
            RequestContextView { last_error: StateErrors::FailedTunnel, ..ctx }
        },
    }
}

pub open spec fn after_forward(ctx: RequestContextView, outcome: ForwardOutcome) -> RequestContextView {
    match outcome {
        ForwardOutcome::ProxyUnreachable(e) => with_error(
            ctx,
            StateErrors::FailedProxyConnection,
            Some("Failed to connect to proxy: "@ + e@),
        ),
        ForwardOutcome::HandshakeFailed(e) => with_error(
            ctx,
            StateErrors::FailedProxyConnection,
            Some("Failed to connect to proxy: "@ + e@),
        ),
        ForwardOutcome::Sent => ctx,
    }
}

/// Whether `event` is the outcome of the outside work of `state`; a token must be
/// small enough to be written in base64.
pub open spec fn event_fits(state: RequestState, event: Event) -> bool {
    match state {
        RequestState::GettingTicket => match event {
            Event::Ticket(TicketOutcome::Token(t)) => token_fits(t@.len()),
            Event::Ticket(_) => true,
            _ => false,
        },
        RequestState::Tunelling => event is Tunnel,
        RequestState::Forwarding => event is Forward,
        _ => event is Proceed,
    }
}

/// The state that follows `state`, and the context after it, once `event` came.
pub open spec fn step(state: RequestState, ctx: RequestContextView, event: Event) -> (
    RequestState,
    RequestContextView,
) {
    match state {
        RequestState::WaitingForRequest => (RequestState::GettingTicket, ctx),
        RequestState::GettingTicket => match event {
            Event::Ticket(outcome) => after_ticket(ctx, outcome),
            _ => (state, ctx),
        },
        RequestState::ConnectingToProxy => (after_connecting(ctx), ctx),
        RequestState::Tunelling => match event {
            Event::Tunnel(outcome) => (RequestState::Closing, after_tunnel(ctx, outcome)),
            _ => (state, ctx),
        },
        RequestState::Forwarding => match event {
            Event::Forward(outcome) => (RequestState::Closing, after_forward(ctx, outcome)),
            _ => (state, ctx),
        },
        RequestState::Closing => (RequestState::Closing, ctx),
    }
}

/// The `CONNECT` request that opens a tunnel to `uri` through the parent proxy.
pub open spec fn connect_request_text(uri: Seq<char>, host: Seq<char>, authorization: Seq<char>) -> Seq<char> {
    "CONNECT "@ + uri + " HTTP/1.1\r\nHost: "@ + host + "\r\nProxy-Authorization: "@ + authorization
        + "\r\n\r\n"@
}

/// The host of `uri` as the `http` crate parses it; `None` where `uri` is no URI
/// or has no host.
pub uninterp spec fn http_uri_host(uri: Seq<char>) -> Option<Seq<char>>;

/// Calls `uri.parse::<http::Uri>()` and then `Uri::host`. Claimed of it: the
/// result depends on the text alone.
#[verifier::external_body]
fn uri_host(uri: &str) -> (r: Option<String>)
    ensures
        text_view(r) == http_uri_host(uri@),
{
    match uri.parse::<http::Uri>() {
        Ok(parsed) => match parsed.host() {
            Some(host) => Some(host.to_string()),
            None => None,
        },
        Err(_) => None,
    }
}

/// The host that the `CONNECT` request names: that of the URI, else `localhost`.
pub open spec fn connect_host(uri: Seq<char>) -> Seq<char> {
    match http_uri_host(uri) {
        Some(h) => h,
        None => "localhost"@,
    }
}

/// The text of a `CONNECT` request for `uri`, naming `host` and carrying the
/// `Proxy-Authorization` value `authorization`.
pub fn format_connect_request(uri: &str, host: &str, authorization: &str) -> (r: String)
    ensures
        r@ == connect_request_text(uri@, host@, authorization@),
{
    let r = String::from_str("CONNECT ")
        .concat(uri)
        .concat(" HTTP/1.1\r\nHost: ")
        .concat(host)
        .concat("\r\nProxy-Authorization: ")
        .concat(authorization)
        .concat("\r\n\r\n");
    r
}

/// Whether the parent proxy's reply to a `CONNECT` request accepts the tunnel.
pub fn is_tunnel_accepted(reply: &[u8]) -> (r: bool)
    ensures
        r == tunnel_accepted(reply@),
{
    slice_starts_with(reply, "HTTP/1.1 200".as_bytes())
}

impl RequestState {
    /// Whether `event` is an outcome that `next` takes in this state.
    pub fn accepts(&self, event: &Event) -> (r: bool)
        ensures
            r == event_fits(*self, *event),
    {
        match self {
            RequestState::GettingTicket => match event {
                Event::Ticket(TicketOutcome::Token(t)) => t.len() / 3 <= (usize::MAX - 4) / 4,
                Event::Ticket(_) => true,
                _ => false,
            },
            RequestState::Tunelling => match event {
                Event::Tunnel(_) => true,
                _ => false,
            },
            RequestState::Forwarding => match event {
                Event::Forward(_) => true,
                _ => false,
            },
            _ => match event {
                Event::Proceed => true,
                _ => false,
            },
        }
    }

    /// Moves the request on by one step, given the outcome of this state's outside work.
    pub fn next(self, ctx: &mut RequestContext, event: Event) -> (r: RequestState)
        requires
            event_fits(self, event),
            self == RequestState::Forwarding ==> old(ctx).ap_req is Some,
        ensures
            (r, final(ctx)@) == step(self, old(ctx)@, event),
            r == RequestState::ConnectingToProxy && self == RequestState::GettingTicket ==> (final(
                ctx)@.ap_req matches Some(a) && is_ticket_text(a) && is_visible_ascii(a)),
    {
        match self {
            RequestState::WaitingForRequest => ctx.handle_waiting_for_request(),
            RequestState::GettingTicket => match event {
                Event::Ticket(outcome) => ctx.handle_getting_ticket(outcome),
                _ => self,
            },
            RequestState::ConnectingToProxy => ctx.handle_connecting_to_proxy(),
            RequestState::Tunelling => match event {
                Event::Tunnel(outcome) => ctx.handle_tunelling(outcome),
                _ => self,
            },
            RequestState::Forwarding => match event {
                Event::Forward(outcome) => ctx.handle_forwarding(outcome),
                _ => self,
            },
            RequestState::Closing => ctx.handle_closing(),
        }
    }
}

impl RequestContext {
    /// The context of a request with method `method` and target `uri` that has
    /// just come in, to go through the parent proxy and with the service that
    /// `config` names.
    pub fn new(config: &Config, method: String, uri: String) -> (r: Self)
        ensures
            r@ == initial_context(
                config.kerberos_service@,
                config.proxy_ip@,
                config.proxy_port,
                method@,
                uri@,
            ),
    {
        let kerberos_service = config.kerberos_service.clone();
        assert(kerberos_service@ =~= config.kerberos_service@);
        RequestContext {
            kerberos_service,
            proxy_ip: config.proxy_ip.clone(),
            proxy_port: config.proxy_port,
            ap_req: None,
            last_state: RequestState::WaitingForRequest,
            last_error: StateErrors::NoError,
            error_message: None,
            method,
            uri,
        }
    }

    pub fn handle_waiting_for_request(&mut self) -> (r: RequestState)
        ensures
            r == RequestState::GettingTicket,
            final(self)@ == old(self)@,
    {
        RequestState::GettingTicket
    }

    fn fail(&mut self, error: StateErrors, message: Option<String>)
        ensures
            final(self)@ == with_error(old(self)@, error, text_view(message)),
    {
        self.last_error = error;
        self.error_message = message;
    }

    pub fn handle_getting_ticket(&mut self, outcome: TicketOutcome) -> (r: RequestState)
        requires
            outcome matches TicketOutcome::Token(t) ==> token_fits(t@.len()),
        ensures
            (r, final(self)@) == after_ticket(old(self)@, outcome),
            r == RequestState::ConnectingToProxy ==> (final(self)@.ap_req matches Some(a)
                && is_ticket_text(a) && is_visible_ascii(a)),
    {
        match outcome {
            TicketOutcome::NameRejected(e) => {
                self.fail(
                    StateErrors::FailedGettingServiceTicket,
                    Some(String::from_str("Failed to prepare TGS request: ").concat(e.as_str())),
                );
                RequestState::Closing
            },
            TicketOutcome::CredentialsUnavailable(e) => {
                self.fail(
                    StateErrors::FailedGettingServiceTicket,
                    Some(String::from_str("Failed to create client context: ").concat(e.as_str())),
                );
                RequestState::Closing
            },
            TicketOutcome::TokenFailed(e) => {
                self.fail(
                    StateErrors::FailedGettingServiceTicket,
                    Some(String::from_str("Failed to get AP-REQ token: ").concat(e.as_str())),
                );
                RequestState::Closing
            },
            TicketOutcome::NoToken => {
                self.fail(
                    StateErrors::FailedGettingServiceTicket,
                    Some(String::from_str("Failed to encode AP-REQ token")),
                );
                RequestState::Closing
            },
            TicketOutcome::Token(t) => {
                proof {
                    lemma_negotiate_value(t@);
                }
                self.ap_req = Some(negotiate_header(t.as_slice()));
                RequestState::ConnectingToProxy
            },
        }
    }

    pub fn handle_connecting_to_proxy(&mut self) -> (r: RequestState)
        ensures
            r == after_connecting(old(self)@),
            final(self)@ == old(self)@,
    {
        if self.method == String::from_str("CONNECT") {
            RequestState::Tunelling
        } else {
            RequestState::Forwarding
        }
    }

    /// The `CONNECT` request to send to the parent proxy: the request's target, its
    /// host (or `localhost`) and the ticket.
    pub fn connect_request(&self) -> (r: String)
        requires
            self.ap_req is Some,
        ensures
            r@ == connect_request_text(self.uri@, connect_host(self.uri@), self.ap_req->0@),
    {
        let host = match uri_host(self.uri.as_str()) {
            Some(h) => h,
            None => String::from_str("localhost"),
        };
        match &self.ap_req {
            Some(authorization) => format_connect_request(
                self.uri.as_str(),
                host.as_str(),
                authorization.as_str(),
            ),
            None => String::new(),
        }
    }

    pub fn handle_tunelling(&mut self, outcome: TunnelOutcome) -> (r: RequestState)
        ensures
            r == RequestState::Closing,
            final(self)@ == after_tunnel(old(self)@, outcome),
    {
        match outcome {
            TunnelOutcome::ProxyUnreachable(e) => {
                self.fail(
                    StateErrors::FailedProxyConnection,
                    Some(String::from_str("Failed to connect to proxy: ").concat(e.as_str())),
                );
            },
            TunnelOutcome::RequestUnsent(e) => {
                self.fail(
                    StateErrors::FailedProxyConnection,
                    Some(String::from_str("Failed to send CONNECT request: ").concat(e.as_str())),
                );
            },
            TunnelOutcome::Replied(reply) => {
                if !is_tunnel_accepted(reply.as_slice()) {
                    self.last_error = StateErrors::FailedTunnel;
                }
            },
        }
        RequestState::Closing
    }

    pub fn handle_forwarding(&mut self, outcome: ForwardOutcome) -> (r: RequestState)
        requires
            old(self).ap_req is Some,
        ensures
            r == RequestState::Closing,
            final(self)@ == after_forward(old(self)@, outcome),
    {
        match outcome {
            ForwardOutcome::ProxyUnreachable(e) => {
                self.fail(
                    StateErrors::FailedProxyConnection,
                    Some(String::from_str("Failed to connect to proxy: ").concat(e.as_str())),
                );
            },
            ForwardOutcome::HandshakeFailed(e) => {
                self.fail(
                    StateErrors::FailedProxyConnection,
                    Some(String::from_str("Failed to connect to proxy: ").concat(e.as_str())),
                );
            },
            ForwardOutcome::Sent => {},
        }
        RequestState::Closing
    }

    pub fn handle_closing(&mut self) -> (r: RequestState)
        ensures
            r == RequestState::Closing,
            final(self)@ == old(self)@,
    {
        RequestState::Closing
    }
}

/// How many steps at most a request in `state` has left before it closes.
pub open spec fn steps_left(state: RequestState) -> nat {
    match state {
        RequestState::WaitingForRequest => 4,
        RequestState::GettingTicket => 3,
        RequestState::ConnectingToProxy => 2,
        RequestState::Tunelling => 1,
        RequestState::Forwarding => 1,
        RequestState::Closing => 0,
    }
}

/// The state and context after the steps that `events` drive, one event per step.
pub open spec fn run(state: RequestState, ctx: RequestContextView, events: Seq<Event>) -> (
    RequestState,
    RequestContextView,
)
    decreases events.len(),
{
    if events.len() == 0 {
        (state, ctx)
    } else {
        let (next_state, next_ctx) = step(state, ctx, events[0]);
        run(next_state, next_ctx, events.drop_first())
    }
}

/// Whether each of `events` fits the state that it comes in.
pub open spec fn run_fits(state: RequestState, ctx: RequestContextView, events: Seq<Event>) -> bool
    decreases events.len(),
{
    events.len() == 0 || {
        &&& event_fits(state, events[0])
        &&& run_fits(step(state, ctx, events[0]).0, step(state, ctx, events[0]).1, events.drop_first())
    }
}

/// What holds of a request in `state` with context `ctx` that has come from a
/// new request: no error before it closes; from the moment the ticket was had, a
/// `Negotiate` value in base64, fit for a header; tunnelling only for `CONNECT`,
/// forwarding only for other methods.
pub open spec fn well_formed(state: RequestState, ctx: RequestContextView) -> bool {
    &&& state != RequestState::Closing ==> ctx.last_error == StateErrors::NoError
        && ctx.error_message is None
    &&& (state == RequestState::ConnectingToProxy || state == RequestState::Tunelling || state
        == RequestState::Forwarding) ==> (ctx.ap_req matches Some(a) && is_ticket_text(a)
        && is_visible_ascii(a) && is_header_text(a))
    &&& state == RequestState::Tunelling ==> ctx.method == "CONNECT"@
    &&& state == RequestState::Forwarding ==> ctx.method != "CONNECT"@
}

/// Once closing, a request stays closing and its context does not change.
pub proof fn law_closing_is_final(ctx: RequestContextView, event: Event)
    requires
        event_fits(RequestState::Closing, event),
    ensures
        step(RequestState::Closing, ctx, event) == (RequestState::Closing, ctx),
{
}

/// Each step of a request that is not closing brings it nearer to closing.
pub proof fn law_step_advances(state: RequestState, ctx: RequestContextView, event: Event)
    requires
        event_fits(state, event),
        state != RequestState::Closing,
    ensures
        steps_left(step(state, ctx, event).0) < steps_left(state),
{
}

/// A request closes after at most four steps, whatever the outside work gave.
pub proof fn law_request_closes(state: RequestState, ctx: RequestContextView, events: Seq<Event>)
    requires
        run_fits(state, ctx, events),
        events.len() >= steps_left(state),
    ensures
        run(state, ctx, events).0 == RequestState::Closing,
    decreases events.len(),
{
    if events.len() == 0 {
    } else {
        let (next_state, next_ctx) = step(state, ctx, events[0]);
        if state != RequestState::Closing {
            law_step_advances(state, ctx, events[0]);
        }
        law_request_closes(next_state, next_ctx, events.drop_first());
    }
}

/// A new request is well formed.
pub proof fn law_new_request_well_formed(
    kerberos_service: Seq<u8>,
    proxy_ip: Seq<char>,
    proxy_port: u16,
    method: Seq<char>,
    uri: Seq<char>,
)
    ensures
        well_formed(
            RequestState::WaitingForRequest,
            initial_context(kerberos_service, proxy_ip, proxy_port, method, uri),
        ),
{
}

/// Each step keeps a request well formed: in particular, tunnelling and
/// forwarding always have a ticket to send, and it can stand in a header.
pub proof fn law_step_keeps_well_formed(state: RequestState, ctx: RequestContextView, event: Event)
    requires
        well_formed(state, ctx),
        event_fits(state, event),
    ensures
        well_formed(step(state, ctx, event).0, step(state, ctx, event).1),
{
    if let Event::Ticket(TicketOutcome::Token(t)) = event {
        lemma_negotiate_value(t@);
    }
}

/// Once the request has closed, the client is answered: after an accepted
/// tunnel, 200 and the tunnel; after forwarding, the parent proxy's response;
/// after any failure, an empty 200.
pub proof fn law_client_answer(state: RequestState, ctx: RequestContextView, event: Event)
    requires
        well_formed(state, ctx),
        event_fits(state, event),
        state == RequestState::Tunelling || state == RequestState::Forwarding,
    ensures
        answer_of(step(state, ctx, event).1) == match event {
            Event::Tunnel(TunnelOutcome::Replied(r)) => if tunnel_accepted(r@) {
                ClientAnswer::TunnelEstablished
            } else {
                ClientAnswer::EmptyOk
            },
            Event::Forward(ForwardOutcome::Sent) => ClientAnswer::ProxyResponse,
            _ => ClientAnswer::EmptyOk,
        },
{
}

/// A step that records an error, or a message, closes the request.
pub proof fn law_errors_close(state: RequestState, ctx: RequestContextView, event: Event)
    requires
        event_fits(state, event),
    ensures
        step(state, ctx, event).1.last_error != ctx.last_error || step(state, ctx, event).1.error_message
            != ctx.error_message ==> step(state, ctx, event).0 == RequestState::Closing,
{
}

/// No step changes the parent proxy, the service name or the client request.
pub proof fn law_step_keeps_settings(state: RequestState, ctx: RequestContextView, event: Event)
    ensures
        step(state, ctx, event).1.kerberos_service == ctx.kerberos_service,
        step(state, ctx, event).1.proxy_ip == ctx.proxy_ip,
        step(state, ctx, event).1.proxy_port == ctx.proxy_port,
        step(state, ctx, event).1.method == ctx.method,
        step(state, ctx, event).1.uri == ctx.uri,
        step(state, ctx, event).1.last_state == ctx.last_state,
{
}

/// How the client is answered once its request has closed.
#[derive(Clone, Copy, Debug, PartialEq, Eq, Structural)]
pub enum ClientAnswer {
    /// 200 with an empty body; then the client's connection joins the tunnel.
    TunnelEstablished,
    /// The parent proxy's response, as it came.
    ProxyResponse,
    /// 200 with an empty body: the request failed.
    EmptyOk,
}

/// The answer for a closed request with context `ctx`: an error gives the empty
/// answer; otherwise a `CONNECT` got its tunnel and any other request was forwarded.
pub open spec fn answer_of(ctx: RequestContextView) -> ClientAnswer {
    if ctx.last_error != StateErrors::NoError {
        ClientAnswer::EmptyOk
    } else if ctx.method == "CONNECT"@ {
        ClientAnswer::TunnelEstablished
    } else {
        ClientAnswer::ProxyResponse
    }
}

/// The status the answer is given, where the proxy makes it; `None` where the
/// parent proxy's response is passed on.
pub open spec fn answer_status(answer: ClientAnswer) -> Option<u16> {
    match answer {
        ClientAnswer::ProxyResponse => None,
        _ => Some(200),
    }
}

impl ClientAnswer {
    pub fn status(&self) -> (r: Option<u16>)
        ensures
            r == answer_status(*self),
    {
        match self {
            ClientAnswer::ProxyResponse => None,
            _ => Some(200),
        }
    }
}

#[verifier::external_type_specification]
#[verifier::external_body]
#[verifier::reject_recursive_types(T)]
pub struct ExHeaderMap<T>(http::HeaderMap<T>);

#[verifier::external_type_specification]
#[verifier::external_body]
pub struct ExHeaderValue(http::HeaderValue);

/// What a header map holds: for each header name, in lower case, its values in order.
pub uninterp spec fn header_values(headers: http::HeaderMap) -> Map<Seq<char>, Seq<Seq<u8>>>;

/// The number of distinct header names below which a header map always has room
/// for one more.
pub open spec fn header_room() -> nat {
    3000
}

/// Calls `http::HeaderValue::from_str` and then `HeaderMap::try_insert` with the
/// `Proxy-Authorization` name. Claimed of it: where it returns `true`, the header
/// holds `value` (its UTF-8 bytes) as its one value and every other header is as it
/// was; it returns `true` whenever the map holds fewer than 3000 header names (the
/// map refuses to grow only near 32768 slots, of which at most three quarters are
/// used). Nothing is claimed of a map that refused to grow.
#[verifier::external_body]
fn set_proxy_authorization(headers: &mut http::HeaderMap, value: &str) -> (r: bool)
    requires
        is_header_text(value@),
    ensures
        header_values(*old(headers)).dom().len() < header_room() ==> r,
        r ==> header_values(*final(headers)) == header_values(*old(headers)).insert(
            "proxy-authorization"@,
            seq![encode_utf8(value@)],
        ),
{
    match http::HeaderValue::from_str(value) {
        Ok(v) => headers.try_insert(http::header::PROXY_AUTHORIZATION, v).is_ok(),
        Err(_) => false,
    }
}

impl RequestContext {
    /// How the client is to be answered once the request has closed.
    pub fn client_answer(&self) -> (r: ClientAnswer)
        ensures
            r == answer_of(self@),
    {
        if self.last_error != StateErrors::NoError {
            ClientAnswer::EmptyOk
        } else if self.method == String::from_str("CONNECT") {
            ClientAnswer::TunnelEstablished
        } else {
            ClientAnswer::ProxyResponse
        }
    }

    /// Puts the ticket into the headers of the request to forward, in place of any
    /// `Proxy-Authorization` there was. It is refused, and the headers are left as
    /// they were, where the ticket cannot stand in a header. It succeeds for a ticket
    /// fit for a header on any map with fewer than 3000 header names.
    pub fn attach_ticket(&self, headers: &mut http::HeaderMap) -> (r: bool)
        requires
            self.ap_req is Some,
        ensures
            is_header_text(self.ap_req->0@) && header_values(*old(headers)).dom().len()
                < header_room() ==> r,
            r ==> is_header_text(self.ap_req->0@) && header_values(*final(headers))
                == header_values(*old(headers)).insert(
                "proxy-authorization"@,
                seq![encode_utf8(self.ap_req->0@)],
            ),
            !is_header_text(self.ap_req->0@) ==> !r && *final(headers) == *old(headers),
    {
        match &self.ap_req {
            Some(authorization) => {
                if is_header_value_text(authorization.as_str()) {
                    set_proxy_authorization(headers, authorization.as_str())
                } else {
                    false
                }
            },
            None => false,
        }
    }
}

/// The only moves of the machine: waiting goes to getting a ticket; getting a
/// ticket to connecting or closing; connecting to tunnelling or forwarding;
/// tunnelling and forwarding to closing; closing stays. No step goes back to waiting.
pub proof fn law_transitions(state: RequestState, ctx: RequestContextView, event: Event)
    requires
        event_fits(state, event),
    ensures
        ({
            let next = step(state, ctx, event).0;
            &&& state == RequestState::WaitingForRequest ==> next == RequestState::GettingTicket
            &&& state == RequestState::GettingTicket ==> next == RequestState::ConnectingToProxy
                || next == RequestState::Closing
            &&& state == RequestState::ConnectingToProxy ==> next == RequestState::Tunelling
                || next == RequestState::Forwarding
            &&& state == RequestState::Tunelling ==> next == RequestState::Closing
            &&& state == RequestState::Forwarding ==> next == RequestState::Closing
            &&& state == RequestState::Closing ==> next == RequestState::Closing
            &&& next != RequestState::WaitingForRequest
        }),
{
}

/// Whatever its length, a token that the GSSAPI context gives becomes the ticket:
/// `Negotiate ` and the whole token in base64, and the request goes on to connect
/// with no error recorded.
pub proof fn law_token_becomes_ticket(ctx: RequestContextView, token: Vec<u8>)
    requires
        token_fits(token@.len()),
    ensures
        ({
            let (next, after) = step(
                RequestState::GettingTicket,
                ctx,
                Event::Ticket(TicketOutcome::Token(token)),
            );
            &&& next == RequestState::ConnectingToProxy
            &&& after.ap_req == Some(seq!['N', 'e', 'g', 'o', 't', 'i', 'a', 't', 'e', ' '] + base64_encode(token@))
            &&& after.ap_req->0.len() == 10 + base64_len(token@.len())
            &&& after.last_error == ctx.last_error
            &&& after.error_message == ctx.error_message
        }),
{
    reveal_strlit("Negotiate ");
    assert("Negotiate "@ =~= seq!['N', 'e', 'g', 'o', 't', 'i', 'a', 't', 'e', ' ']);
    lemma_negotiate_value(token@);
}

/// The `CONNECT` request names the target, then the host, then carries the whole
/// `Proxy-Authorization` value, each at its place and none cut, and ends with an
/// empty line.
pub proof fn law_connect_request_layout(uri: Seq<char>, host: Seq<char>, authorization: Seq<char>)
    ensures
        ({
            let r = connect_request_text(uri, host, authorization);
            let host_at: int = 8 + uri.len() as int + 17;
            let value_at: int = host_at + host.len() + 23;
            &&& r.len() == 52 + uri.len() + host.len() + authorization.len()
            &&& r.subrange(0, 8) == seq!['C', 'O', 'N', 'N', 'E', 'C', 'T', ' ']
            &&& r.subrange(8, 8 + uri.len() as int) == uri
            &&& r.subrange(host_at, host_at + host.len()) == host
            &&& r.subrange(value_at, value_at + authorization.len()) == authorization
            &&& r.subrange(r.len() - 4, r.len() as int) == seq!['\r', '\n', '\r', '\n']
        }),
{
    reveal_strlit("CONNECT ");
    reveal_strlit(" HTTP/1.1\r\nHost: ");
    reveal_strlit("\r\nProxy-Authorization: ");
    reveal_strlit("\r\n\r\n");
    let r = connect_request_text(uri, host, authorization);
    let host_at: int = 8 + uri.len() as int + 17;
    let value_at: int = host_at + host.len() + 23;
    assert(r.subrange(0, 8) =~= seq!['C', 'O', 'N', 'N', 'E', 'C', 'T', ' ']);
    assert(r.subrange(8, 8 + uri.len() as int) =~= uri);
    assert(r.subrange(host_at, host_at + host.len()) =~= host);
    assert(r.subrange(value_at, value_at + authorization.len()) =~= authorization);
    assert(r.subrange(r.len() - 4, r.len() as int) =~= seq!['\r', '\n', '\r', '\n']);
}

/// The parent proxy's reply accepts the tunnel exactly when its first twelve bytes
/// are `HTTP/1.1 200`.
pub proof fn law_tunnel_accepted_exactly_on_200(reply: Seq<u8>)
    ensures
        tunnel_accepted(reply) <==> reply.len() >= 12 && reply.subrange(0, 12) == seq![
            0x48u8,
            0x54u8,
            0x54u8,
            0x50u8,
            0x2fu8,
            0x31u8,
            0x2eu8,
            0x31u8,
            0x20u8,
            0x32u8,
            0x30u8,
            0x30u8,
        ],
{
    reveal_strlit("HTTP/1.1 200");
    let text = "HTTP/1.1 200"@;
    assert(is_ascii_chars(text));
    is_ascii_chars_encode_utf8(text);
    assert(encode_utf8(text) =~= seq![
        0x48u8,
        0x54u8,
        0x54u8,
        0x50u8,
        0x2fu8,
        0x31u8,
        0x2eu8,
        0x31u8,
        0x20u8,
        0x32u8,
        0x30u8,
        0x30u8,
    ]);
}

/// A tunnel step after an error-free request records an error exactly when the
/// reply is no `HTTP/1.1 200`, and the client then gets the empty answer.
pub proof fn law_tunnel_reply_decides(ctx: RequestContextView, reply: Vec<u8>)
    requires
        ctx.last_error == StateErrors::NoError,
        ctx.method == "CONNECT"@,
    ensures
        ({
            let after = step(
                RequestState::Tunelling,
                ctx,
                Event::Tunnel(TunnelOutcome::Replied(reply)),
            ).1;
            let accepted = reply@.len() >= 12 && reply@.subrange(0, 12) == seq![
                0x48u8,
                0x54u8,
                0x54u8,
                0x50u8,
                0x2fu8,
                0x31u8,
                0x2eu8,
                0x31u8,
                0x20u8,
                0x32u8,
                0x30u8,
                0x30u8,
            ];
            &&& accepted ==> after.last_error == StateErrors::NoError && answer_of(after)
                == ClientAnswer::TunnelEstablished
            &&& !accepted ==> after.last_error == StateErrors::FailedTunnel && answer_of(after)
                == ClientAnswer::EmptyOk
        }),
{
    law_tunnel_accepted_exactly_on_200(reply@);
}

/// A request that recorded any error is answered with the empty 200, never with a
/// response of the parent proxy or a tunnel.
pub proof fn law_failed_request_answered_empty(ctx: RequestContextView)
    requires
        ctx.last_error != StateErrors::NoError,
    ensures
        answer_of(ctx) == ClientAnswer::EmptyOk,
        answer_status(answer_of(ctx)) == Some(200u16),
{
}

/// When no ticket could be had, the request closes with the ticket failure
/// recorded, and the client gets the empty answer.
pub proof fn law_ticket_failure_answered_empty(ctx: RequestContextView, outcome: TicketOutcome)
    requires
        !(outcome is Token),
    ensures
        step(RequestState::GettingTicket, ctx, Event::Ticket(outcome)).0 == RequestState::Closing,
        step(RequestState::GettingTicket, ctx, Event::Ticket(outcome)).1.last_error
            == StateErrors::FailedGettingServiceTicket,
        answer_of(step(RequestState::GettingTicket, ctx, Event::Ticket(outcome)).1)
            == ClientAnswer::EmptyOk,
{
}

} // verus!
