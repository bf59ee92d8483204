use base64::Engine;
use krb5proxy::config::Config;
use krb5proxy::proxy::{
    format_connect_request, is_tunnel_accepted, ClientAnswer, Event, ForwardOutcome,
    RequestContext, RequestState, StateErrors, TicketOutcome, TunnelOutcome,
};
use krb5proxy::token::{is_header_value_text, negotiate_header};

fn config() -> Config {
    Config::builder()
        .with_proxy_ip("10.0.0.1".to_string())
        .with_proxy_port(3128)
        .with_kerberos_service("HTTP@proxy.foo.com".to_string())
        .build()
}

fn context(method: &str, uri: &str) -> RequestContext {
    RequestContext::new(&config(), method.to_string(), uri.to_string())
}

#[test]
fn new_context_takes_the_configuration() {
    let c = context("GET", "http://example.com/");
    assert_eq!(c.kerberos_service, b"HTTP@proxy.foo.com".to_vec());
    assert_eq!(c.proxy_ip, "10.0.0.1");
    assert_eq!(c.proxy_port, 3128);
    assert_eq!(c.ap_req, None);
    assert_eq!(c.last_state, RequestState::WaitingForRequest);
    assert_eq!(c.last_error, StateErrors::NoError);
    assert_eq!(c.error_message, None);
}

#[test]
fn negotiate_header_encodes_token_in_base64() {
    assert_eq!(negotiate_header(b"hello"), "Negotiate aGVsbG8=");
    assert_eq!(negotiate_header(b"hell"), "Negotiate aGVsbA==");
    assert_eq!(negotiate_header(b"hel"), "Negotiate aGVs");
    assert_eq!(negotiate_header(b""), "Negotiate ");
    assert_eq!(negotiate_header(&[0xfb, 0xff]), "Negotiate +/8=");
}

#[test]
fn forwarding_run_closes_without_error() {
    let mut c = context("GET", "http://example.com/");
    let mut s = RequestState::WaitingForRequest;
    s = s.next(&mut c, Event::Proceed);
    assert_eq!(s, RequestState::GettingTicket);
    s = s.next(&mut c, Event::Ticket(TicketOutcome::Token(b"hello".to_vec())));
    assert_eq!(s, RequestState::ConnectingToProxy);
    assert_eq!(c.ap_req.as_deref(), Some("Negotiate aGVsbG8="));
    s = s.next(&mut c, Event::Proceed);
    assert_eq!(s, RequestState::Forwarding);
    s = s.next(&mut c, Event::Forward(ForwardOutcome::Sent));
    assert_eq!(s, RequestState::Closing);
    assert_eq!(c.last_error, StateErrors::NoError);
    assert_eq!(c.error_message, None);
    s = s.next(&mut c, Event::Proceed);
    assert_eq!(s, RequestState::Closing);
}

#[test]
fn connect_method_goes_to_tunnelling() {
    let mut c = context("CONNECT", "example.com:443");
    let mut s = RequestState::ConnectingToProxy;
    c.ap_req = Some("Negotiate QQ==".to_string());
    s = s.next(&mut c, Event::Proceed);
    assert_eq!(s, RequestState::Tunelling);
    let mut c = context("connect", "example.com:443");
    assert_eq!(RequestState::ConnectingToProxy.next(&mut c, Event::Proceed), RequestState::Forwarding);
}

#[test]
fn tunnel_accepted_on_200_reply() {
    let mut c = context("CONNECT", "example.com:443");
    let s = RequestState::Tunelling.next(
        &mut c,
        Event::Tunnel(TunnelOutcome::Replied("HTTP/1.1 200 Connection established\r\n\r\n".as_bytes().to_vec())),
    );
    assert_eq!(s, RequestState::Closing);
    assert_eq!(c.last_error, StateErrors::NoError);
}

#[test]
fn tunnel_refused_on_other_reply() {
    let mut c = context("CONNECT", "example.com:443");
    let s = RequestState::Tunelling.next(
        &mut c,
        Event::Tunnel(TunnelOutcome::Replied("HTTP/1.1 407 Proxy Authentication Required".as_bytes().to_vec())),
    );
    assert_eq!(s, RequestState::Closing);
    assert_eq!(c.last_error, StateErrors::FailedTunnel);
    assert_eq!(c.error_message, None);
}

#[test]
fn tunnel_connection_failures_are_recorded() {
    let mut c = context("CONNECT", "example.com:443");
    let s = RequestState::Tunelling
        .next(&mut c, Event::Tunnel(TunnelOutcome::ProxyUnreachable("refused".to_string())));
    assert_eq!(s, RequestState::Closing);
    assert_eq!(c.last_error, StateErrors::FailedProxyConnection);
    assert_eq!(c.error_message.as_deref(), Some("Failed to connect to proxy: refused"));
    let mut c = context("CONNECT", "example.com:443");
    RequestState::Tunelling.next(&mut c, Event::Tunnel(TunnelOutcome::RequestUnsent("reset".to_string())));
    assert_eq!(c.last_error, StateErrors::FailedProxyConnection);
    assert_eq!(c.error_message.as_deref(), Some("Failed to send CONNECT request: reset"));
}

#[test]
fn forwarding_failures_are_recorded() {
    let mut c = context("GET", "http://example.com/");
    c.ap_req = Some("Negotiate QQ==".to_string());
    let s = RequestState::Forwarding
        .next(&mut c, Event::Forward(ForwardOutcome::ProxyUnreachable("timeout".to_string())));
    assert_eq!(s, RequestState::Closing);
    assert_eq!(c.last_error, StateErrors::FailedProxyConnection);
    assert_eq!(c.error_message.as_deref(), Some("Failed to connect to proxy: timeout"));
    let mut c = context("GET", "http://example.com/");
    c.ap_req = Some("Negotiate QQ==".to_string());
    RequestState::Forwarding.next(&mut c, Event::Forward(ForwardOutcome::HandshakeFailed("eof".to_string())));
    assert_eq!(c.error_message.as_deref(), Some("Failed to connect to proxy: eof"));
}

#[test]
fn ticket_failures_close_the_request() {
    let cases = [
        (TicketOutcome::NameRejected("bad".to_string()), "Failed to prepare TGS request: bad"),
        (
            TicketOutcome::CredentialsUnavailable("no tgt".to_string()),
            "Failed to create client context: no tgt",
        ),
        (TicketOutcome::TokenFailed("kdc".to_string()), "Failed to get AP-REQ token: kdc"),
        (TicketOutcome::NoToken, "Failed to encode AP-REQ token"),
    ];
    for (outcome, message) in cases {
        let mut c = context("GET", "http://example.com/");
        let s = RequestState::GettingTicket.next(&mut c, Event::Ticket(outcome));
        assert_eq!(s, RequestState::Closing);
        assert_eq!(c.last_error, StateErrors::FailedGettingServiceTicket);
        assert_eq!(c.error_message.as_deref(), Some(message));
        assert_eq!(c.ap_req, None);
    }
}

#[test]
fn accepts_only_the_outcome_of_the_state() {
    assert!(RequestState::WaitingForRequest.accepts(&Event::Proceed));
    assert!(!RequestState::WaitingForRequest.accepts(&Event::Forward(ForwardOutcome::Sent)));
    assert!(RequestState::GettingTicket.accepts(&Event::Ticket(TicketOutcome::NoToken)));
    assert!(!RequestState::GettingTicket.accepts(&Event::Proceed));
    assert!(RequestState::Tunelling.accepts(&Event::Tunnel(TunnelOutcome::Replied(Vec::new()))));
    assert!(!RequestState::Tunelling.accepts(&Event::Forward(ForwardOutcome::Sent)));
    assert!(RequestState::Forwarding.accepts(&Event::Forward(ForwardOutcome::Sent)));
    assert!(RequestState::Closing.accepts(&Event::Proceed));
    assert!(!RequestState::Closing.accepts(&Event::Ticket(TicketOutcome::NoToken)));
}

#[test]
fn connect_request_names_uri_host_and_ticket() {
    let mut c = context("CONNECT", "example.com:443");
    c.ap_req = Some("Negotiate aGVsbG8=".to_string());
    assert_eq!(
        c.connect_request(),
        "CONNECT example.com:443 HTTP/1.1\r\nHost: example.com\r\nProxy-Authorization: Negotiate aGVsbG8=\r\n\r\n"
    );
}

#[test]
fn connect_request_without_uri_host_names_localhost() {
    let mut c = context("CONNECT", "/only/a/path");
    c.ap_req = Some("Negotiate QQ==".to_string());
    assert_eq!(
        c.connect_request(),
        "CONNECT /only/a/path HTTP/1.1\r\nHost: localhost\r\nProxy-Authorization: Negotiate QQ==\r\n\r\n"
    );
}

#[test]
fn format_connect_request_layout() {
    assert_eq!(
        format_connect_request("a:1", "a", "X"),
        "CONNECT a:1 HTTP/1.1\r\nHost: a\r\nProxy-Authorization: X\r\n\r\n"
    );
}

#[test]
fn tunnel_acceptance_checks_status_prefix() {
    assert!(is_tunnel_accepted(b"HTTP/1.1 200 OK"));
    assert!(is_tunnel_accepted(b"HTTP/1.1 2000"));
    assert!(!is_tunnel_accepted(b"HTTP/1.0 200 OK"));
    assert!(!is_tunnel_accepted(b"HTTP/1.1 403 Forbidden"));
    assert!(!is_tunnel_accepted(b""));
    assert!(is_tunnel_accepted(b"HTTP/1.1 200 \xff\xfe"));
    assert!(!is_tunnel_accepted(b"\xffHTTP/1.1 200"));
}

#[test]
fn handlers_called_directly() {
    let mut c = context("GET", "http://example.com/");
    assert_eq!(c.handle_waiting_for_request(), RequestState::GettingTicket);
    assert_eq!(c.handle_connecting_to_proxy(), RequestState::Forwarding);
    assert_eq!(c.handle_closing(), RequestState::Closing);
    assert_eq!(c.handle_getting_ticket(TicketOutcome::Token(vec![0, 1, 2])), RequestState::ConnectingToProxy);
    assert_eq!(c.ap_req.as_deref(), Some("Negotiate AAEC"));
    assert_eq!(c.handle_forwarding(ForwardOutcome::Sent), RequestState::Closing);
    assert_eq!(c.handle_tunelling(TunnelOutcome::Replied("HTTP/1.1 200".as_bytes().to_vec())), RequestState::Closing);
    assert_eq!(c.last_error, StateErrors::NoError);
}

#[test]
fn negotiate_with_prefixes_encoded_token() {
    assert_eq!(krb5proxy::token::negotiate_with("YWJj"), "Negotiate YWJj");
    assert_eq!(krb5proxy::token::negotiate_with(""), "Negotiate ");
}

#[test]
fn full_tunnel_run_from_new_request() {
    let mut c = context("CONNECT", "secure.example:443");
    let events = vec![
        Event::Proceed,
        Event::Ticket(TicketOutcome::Token(b"tok".to_vec())),
        Event::Proceed,
        Event::Tunnel(TunnelOutcome::Replied("HTTP/1.1 200 OK".as_bytes().to_vec())),
    ];
    let mut s = RequestState::WaitingForRequest;
    let mut seen = vec![];
    for e in events {
        assert!(s.accepts(&e));
        if s == RequestState::Tunelling {
            assert_eq!(
                c.connect_request(),
                "CONNECT secure.example:443 HTTP/1.1\r\nHost: secure.example\r\nProxy-Authorization: Negotiate dG9r\r\n\r\n"
            );
        }
        s = s.next(&mut c, e);
        seen.push(s);
    }
    assert_eq!(
        seen,
        vec![
            RequestState::GettingTicket,
            RequestState::ConnectingToProxy,
            RequestState::Tunelling,
            RequestState::Closing
        ]
    );
    assert_eq!(c.last_error, StateErrors::NoError);
    assert_eq!(c.proxy_ip, "10.0.0.1");
    assert_eq!(c.method, "CONNECT");
    assert_eq!(c.client_answer(), ClientAnswer::TunnelEstablished);
    assert_eq!(c.client_answer().status(), Some(200));
}

#[test]
fn attach_ticket_replaces_proxy_authorization() {
    let mut c = context("GET", "http://example.com/");
    c.ap_req = Some("Negotiate aGVsbG8=".to_string());
    let mut headers = http::HeaderMap::new();
    headers.insert(http::header::HOST, "example.com".parse().unwrap());
    headers.append(http::header::PROXY_AUTHORIZATION, "Basic old".parse().unwrap());
    headers.append(http::header::PROXY_AUTHORIZATION, "Basic older".parse().unwrap());
    assert!(c.attach_ticket(&mut headers));
    let values: Vec<_> = headers.get_all(http::header::PROXY_AUTHORIZATION).iter().collect();
    assert_eq!(values, vec!["Negotiate aGVsbG8="]);
    assert_eq!(headers.get(http::header::HOST).unwrap(), "example.com");
    assert_eq!(headers.len(), 2);
}

#[test]
fn attach_ticket_refuses_text_unfit_for_a_header() {
    let mut c = context("GET", "http://example.com/");
    c.ap_req = Some("Negotiate a\nb".to_string());
    let mut headers = http::HeaderMap::new();
    assert!(!c.attach_ticket(&mut headers));
    assert!(headers.is_empty());
}

#[test]
fn header_value_text_check() {
    assert!(is_header_value_text("Negotiate aGVsbG8="));
    assert!(is_header_value_text("a\tb"));
    assert!(is_header_value_text("žluť"));
    assert!(!is_header_value_text("a\nb"));
    assert!(!is_header_value_text("a\u{7f}"));
}

#[test]
fn client_answers() {
    let mut c = context("GET", "http://example.com/");
    assert_eq!(c.client_answer(), ClientAnswer::ProxyResponse);
    assert_eq!(c.client_answer().status(), None);
    c.last_error = StateErrors::FailedProxyConnection;
    assert_eq!(c.client_answer(), ClientAnswer::EmptyOk);
    assert_eq!(c.client_answer().status(), Some(200));
    let mut c = context("CONNECT", "a:443");
    RequestState::Tunelling.next(&mut c, Event::Tunnel(TunnelOutcome::Replied("HTTP/1.1 403".as_bytes().to_vec())));
    assert_eq!(c.client_answer(), ClientAnswer::EmptyOk);
}

#[test]
fn negotiate_header_of_longer_token() {
    let token: Vec<u8> = (0u8..=255).collect();
    let expected = format!("Negotiate {}", base64::engine::general_purpose::STANDARD.encode(&token));
    assert_eq!(negotiate_header(&token), expected);
}

#[test]
fn tunnel_acceptance_agrees_with_lossy_text() {
    let replies: [&[u8]; 6] = [
        b"HTTP/1.1 200 OK",
        b"HTTP/1.1 20",
        b"HTTP/1.1 200\xc3",
        b"\xc3\xa9HTTP/1.1 200",
        b"HTTP/1.1 407",
        b"",
    ];
    for reply in replies {
        let lossy = String::from_utf8_lossy(reply).starts_with("HTTP/1.1 200");
        assert_eq!(is_tunnel_accepted(reply), lossy);
    }
}
