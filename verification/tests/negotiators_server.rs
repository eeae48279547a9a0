//! The negotiation byte machines and the forwarding server's wire helpers.

use proxy_rs::negotiators::{
    outcome_code, NegotiationOutcome, Socks4Negotiator, Socks5Negotiator,
};
use proxy_rs::server::{
    connect_established_response, connect_request_bytes, parse_status_code, upstream_protocol,
};

#[test]
fn test_socks4_request_bytes() {
    let n = Socks4Negotiator::default();
    assert_eq!(n.name, "SOCKS4");
    let req = n.connect_request(&[192, 168, 1, 1], 8080);
    assert_eq!(req, vec![4, 1, 0x1f, 0x90, 192, 168, 1, 1, 0]);
}

#[test]
fn test_socks4_reply_classification() {
    let n = Socks4Negotiator::default();
    assert_eq!(n.parse_reply(&[0, 90, 0, 0, 0, 0, 0, 0]), NegotiationOutcome::Granted);
    assert_eq!(
        n.parse_reply(&[4, 90, 0, 0, 0, 0, 0, 0]),
        NegotiationOutcome::InvalidResponseVersion
    );
    assert_eq!(n.parse_reply(&[0, 91, 0, 0, 0, 0, 0, 0]), NegotiationOutcome::RequestFailed);
    assert_eq!(n.parse_reply(&[]), NegotiationOutcome::InvalidResponseVersion);
}

#[test]
fn test_socks5_handshake_bytes() {
    let n = Socks5Negotiator::default();
    assert_eq!(n.name, "SOCKS5");
    assert_eq!(n.handshake_request(), vec![5, 1, 0]);
    let req = n.connect_request(&[10, 0, 0, 1], 1080);
    assert_eq!(req, vec![5, 1, 0, 1, 10, 0, 0, 1, 0x04, 0x38]);
}

#[test]
fn test_socks5_auth_required() {
    // A peer that answers the handshake with `05 FF` demands
    // authentication; the negotiation fails with the matching code and
    // never proceeds to a connect request.
    let n = Socks5Negotiator::default();
    let outcome = n.parse_handshake_reply(&[0x05, 0xff]);
    assert_eq!(outcome, NegotiationOutcome::AuthRequired);
    assert_eq!(outcome_code(&outcome).as_deref(), Some("auth_is_required"));
    assert!(outcome != NegotiationOutcome::Proceed);
}

#[test]
fn test_socks5_handshake_classification() {
    let n = Socks5Negotiator::default();
    assert_eq!(n.parse_handshake_reply(&[5, 0]), NegotiationOutcome::Proceed);
    assert_eq!(n.parse_handshake_reply(&[4, 0]), NegotiationOutcome::InvalidResponseVersion);
    assert_eq!(n.parse_handshake_reply(&[5, 2]), NegotiationOutcome::InvalidData);
    assert_eq!(n.parse_handshake_reply(&[5]), NegotiationOutcome::NoResponse);
}

#[test]
fn test_socks5_connect_reply() {
    let n = Socks5Negotiator::default();
    assert_eq!(
        n.parse_connect_reply(&[5, 0, 0, 1, 0, 0, 0, 0, 0, 0]),
        NegotiationOutcome::Granted
    );
    assert_eq!(
        n.parse_connect_reply(&[5, 1, 0, 1, 0, 0, 0, 0, 0, 0]),
        NegotiationOutcome::InvalidData
    );
}

#[test]
fn test_outcome_codes() {
    assert!(outcome_code(&NegotiationOutcome::Granted).is_none());
    assert_eq!(
        outcome_code(&NegotiationOutcome::InvalidResponseVersion).as_deref(),
        Some("invalid_response_version")
    );
    assert_eq!(
        outcome_code(&NegotiationOutcome::RequestFailed).as_deref(),
        Some("request_failed")
    );
    assert_eq!(outcome_code(&NegotiationOutcome::InvalidData).as_deref(), Some("invalid_data"));
}

#[test]
fn test_connect_request_bytes() {
    let req = connect_request_bytes("example.com", "443");
    assert_eq!(
        req,
        "CONNECT example.com:443 HTTP/1.1\r\nHost: example.com:443\r\nProxy-Connection: Keep-Alive\r\n\r\n"
    );
}

#[test]
fn test_connect_success_exchange() {
    // A CONNECT exchange: the upstream answers 200, and the client gets
    // exactly the established line.
    let upstream_reply = b"HTTP/1.1 200 Connection Established\r\n\r\n";
    assert_eq!(parse_status_code(upstream_reply), Some(200));
    assert_eq!(
        connect_established_response(),
        "HTTP/1.1 200 Connection Established\r\n\r\n"
    );
}

#[test]
fn test_status_code_parsing() {
    assert_eq!(parse_status_code(b"HTTP/1.1 502 Bad Gateway\r\n\r\n"), Some(502));
    assert_eq!(parse_status_code(b"HTTP/1.0 404 Not Found"), Some(404));
    assert_eq!(parse_status_code(b"SSH-2.0-OpenSSH"), None);
    assert_eq!(parse_status_code(b"HTTP/1.1 XX"), None);
    assert_eq!(parse_status_code(b""), None);
}

#[test]
fn test_upstream_protocol_by_method() {
    assert_eq!(upstream_protocol(true), "HTTPS");
    assert_eq!(upstream_protocol(false), "HTTP");
}
