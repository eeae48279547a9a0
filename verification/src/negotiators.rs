//! SOCKS4 and SOCKS5 negotiation as pure byte-level state machines: each
//! step builds the exact request bytes to send or classifies the peer's
//! reply. The socket I/O around these steps happens outside the library.

use vstd::prelude::*;

use vstd::string::StringExecFns;

verus! {

/// How a negotiation step ended.
#[derive(Debug, Clone, Copy, PartialEq, Eq, Structural)]
pub enum NegotiationOutcome {
    /// The peer granted the request.
    Granted,
    /// After a successful handshake, the connect request may be sent.
    Proceed,
    /// The peer never answered, or answered with too few bytes.
    NoResponse,
    /// The reply's version byte is wrong.
    InvalidResponseVersion,
    /// The peer rejected or failed the request.
    RequestFailed,
    /// The peer demands authentication, which is not offered.
    AuthRequired,
    /// The reply is malformed.
    InvalidData,
}

/// The normalized code a failed outcome is logged under.
pub fn outcome_code(outcome: &NegotiationOutcome) -> (r: Option<String>)
    ensures
        match outcome {
            NegotiationOutcome::Granted => r is None,
            NegotiationOutcome::Proceed => r is None,
            NegotiationOutcome::NoResponse => r matches Some(s) && s@ == "no_response"@,
            NegotiationOutcome::InvalidResponseVersion => r matches Some(s) && s@
                == "invalid_response_version"@,
            NegotiationOutcome::RequestFailed => r matches Some(s) && s@ == "request_failed"@,
            NegotiationOutcome::AuthRequired => r matches Some(s) && s@ == "auth_is_required"@,
            NegotiationOutcome::InvalidData => r matches Some(s) && s@ == "invalid_data"@,
        },
{
    match outcome {
        NegotiationOutcome::Granted => None,
        NegotiationOutcome::Proceed => None,
        NegotiationOutcome::NoResponse => Some("no_response".to_owned()),
        NegotiationOutcome::InvalidResponseVersion => Some(
            "invalid_response_version".to_owned(),
        ),
        NegotiationOutcome::RequestFailed => Some("request_failed".to_owned()),
        NegotiationOutcome::AuthRequired => Some("auth_is_required".to_owned()),
        NegotiationOutcome::InvalidData => Some("invalid_data".to_owned()),
    }
}

/// SOCKS4 negotiation over an established stream.
#[derive(Debug, Clone)]
pub struct Socks4Negotiator {
    /// Protocol name this negotiator speaks.
    pub name: String,
    /// Whether an anonymity check follows a granted request.
    pub check_anon_lvl: bool,
    /// Whether requests name the full path.
    pub use_full_path: bool,
}

impl Default for Socks4Negotiator {
    /// Named after the protocol; no anonymity check, no full path.
    fn default() -> (r: Self)
        ensures
            r.name@ == "SOCKS4"@,
            !r.check_anon_lvl,
            !r.use_full_path,
    {
        Socks4Negotiator { name: "SOCKS4".to_owned(), check_anon_lvl: false, use_full_path: false }
    }
}

impl Socks4Negotiator {
    /// The one request SOCKS4 sends: version 4, command connect, the port
    /// in network order, the IPv4 address, and an empty user id.
    pub fn connect_request(&self, ip: &[u8; 4], port: u16) -> (r: Vec<u8>)
        ensures
            r@ == seq![
                4u8,
                1u8,
                (port >> 8) as u8,
                (port & 0xff) as u8,
                ip[0],
                ip[1],
                ip[2],
                ip[3],
                0u8,
            ],
    {
        let mut r: Vec<u8> = Vec::new();
        r.push(4);
        r.push(1);
        r.push((port >> 8) as u8);
        r.push((port & 0xff) as u8);
        r.push(ip[0]);
        r.push(ip[1]);
        r.push(ip[2]);
        r.push(ip[3]);
        r.push(0);
        proof {
            assert(r@ =~= seq![
                4u8,
                1u8,
                (port >> 8) as u8,
                (port & 0xff) as u8,
                ip@[0],
                ip@[1],
                ip@[2],
                ip@[3],
                0u8,
            ]);
        }
        r
    }

    /// Classifies the 8-byte reply: granted exactly when the version byte
    /// is zero and the status byte is 90.
    pub fn parse_reply(&self, data: &[u8]) -> (r: NegotiationOutcome)
        ensures
            r == if data@.len() == 0 {
                NegotiationOutcome::InvalidResponseVersion
            } else if data@[0] != 0 {
                NegotiationOutcome::InvalidResponseVersion
            } else if data@.len() == 1 {
                NegotiationOutcome::RequestFailed
            } else if data@[1] != 90 {
                NegotiationOutcome::RequestFailed
            } else {
                NegotiationOutcome::Granted
            },
    {
        if data.len() == 0 || data[0] != 0 {
            NegotiationOutcome::InvalidResponseVersion
        } else if data.len() == 1 || data[1] != 90 {
            NegotiationOutcome::RequestFailed
        } else {
            NegotiationOutcome::Granted
        }
    }
}

/// SOCKS5 negotiation over an established stream.
#[derive(Debug, Clone)]
pub struct Socks5Negotiator {
    /// Protocol name this negotiator speaks.
    pub name: String,
    /// Whether an anonymity check follows a granted request.
    pub check_anon_lvl: bool,
    /// Whether requests name the full path.
    pub use_full_path: bool,
}

impl Default for Socks5Negotiator {
    /// Named after the protocol; no anonymity check, no full path.
    fn default() -> (r: Self)
        ensures
            r.name@ == "SOCKS5"@,
            !r.check_anon_lvl,
            !r.use_full_path,
    {
        Socks5Negotiator { name: "SOCKS5".to_owned(), check_anon_lvl: false, use_full_path: false }
    }
}

impl Socks5Negotiator {
    /// The opening handshake: version 5, one method, no authentication.
    pub fn handshake_request(&self) -> (r: Vec<u8>)
        ensures
            r@ == seq![5u8, 1u8, 0u8],
    {
        let mut r: Vec<u8> = Vec::new();
        r.push(5);
        r.push(1);
        r.push(0);
        proof {
            assert(r@ =~= seq![5u8, 1u8, 0u8]);
        }
        r
    }

    /// Classifies the 2-byte handshake reply: the negotiation proceeds
    /// exactly on `05 00`; `05 FF` means the peer requires authentication.
    pub fn parse_handshake_reply(&self, data: &[u8]) -> (r: NegotiationOutcome)
        ensures
            r == if data@.len() < 2 {
                NegotiationOutcome::NoResponse
            } else if data@[0] != 5 {
                NegotiationOutcome::InvalidResponseVersion
            } else if data@[1] == 0xff {
                NegotiationOutcome::AuthRequired
            } else if data@[1] != 0 {
                NegotiationOutcome::InvalidData
            } else {
                NegotiationOutcome::Proceed
            },
    {
        if data.len() < 2 {
            NegotiationOutcome::NoResponse
        } else if data[0] != 5 {
            NegotiationOutcome::InvalidResponseVersion
        } else if data[1] == 0xff {
            NegotiationOutcome::AuthRequired
        } else if data[1] != 0 {
            NegotiationOutcome::InvalidData
        } else {
            NegotiationOutcome::Proceed
        }
    }

    /// The connect request that follows a successful handshake: version 5,
    /// command connect, reserved zero, address type IPv4, the address, and
    /// the port in network order.
    pub fn connect_request(&self, ip: &[u8; 4], port: u16) -> (r: Vec<u8>)
        ensures
            r@ == seq![
                5u8,
                1u8,
                0u8,
                1u8,
                ip[0],
                ip[1],
                ip[2],
                ip[3],
                (port >> 8) as u8,
                (port & 0xff) as u8,
            ],
    {
        let mut r: Vec<u8> = Vec::new();
        r.push(5);
        r.push(1);
        r.push(0);
        r.push(1);
        r.push(ip[0]);
        r.push(ip[1]);
        r.push(ip[2]);
        r.push(ip[3]);
        r.push((port >> 8) as u8);
        r.push((port & 0xff) as u8);
        proof {
            assert(r@ =~= seq![
                5u8,
                1u8,
                0u8,
                1u8,
                ip@[0],
                ip@[1],
                ip@[2],
                ip@[3],
                (port >> 8) as u8,
                (port & 0xff) as u8,
            ]);
        }
        r
    }

    /// Classifies the 10-byte connect reply: granted exactly when the first
    /// two bytes are `05 00`.
    pub fn parse_connect_reply(&self, data: &[u8]) -> (r: NegotiationOutcome)
        ensures
            r == if data@.len() < 2 {
                NegotiationOutcome::NoResponse
            } else if data@[0] != 5 || data@[1] != 0 {
                NegotiationOutcome::InvalidData
            } else {
                NegotiationOutcome::Granted
            },
    {
        if data.len() < 2 {
            NegotiationOutcome::NoResponse
        } else if data[0] != 5 || data[1] != 0 {
            NegotiationOutcome::InvalidData
        } else {
            NegotiationOutcome::Granted
        }
    }
}

} // verus!
