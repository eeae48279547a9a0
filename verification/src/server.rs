//! The forwarding side of the library: pooled upstream connections, the
//! admitted-proxy pool with selection and scoring, and the exact bytes of
//! the CONNECT exchange the forwarding server speaks.

pub mod connection_pool;
pub mod proxy_pool;

use vstd::prelude::*;

use vstd::string::StringExecFns;

verus! {

/// The bytes of a CONNECT request for the given host and port text, as the
/// forwarding server sends them upstream.
pub fn connect_request_bytes(host: &str, port_text: &str) -> (r: String)
    ensures
        r@ == "CONNECT "@ + host@ + ":"@ + port_text@ + " HTTP/1.1\r\nHost: "@ + host@ + ":"@
            + port_text@ + "\r\nProxy-Connection: Keep-Alive\r\n\r\n"@,
{
    let mut r: String = "CONNECT ".to_owned();
    r.append(host);
    r.append(":");
    r.append(port_text);
    r.append(" HTTP/1.1\r\nHost: ");
    r.append(host);
    r.append(":");
    r.append(port_text);
    r.append("\r\nProxy-Connection: Keep-Alive\r\n\r\n");
    r
}

/// The one success reply a CONNECT client receives, byte for byte.
pub fn connect_established_response() -> (r: String)
    ensures
        r@ == "HTTP/1.1 200 Connection Established\r\n\r\n"@,
{
    "HTTP/1.1 200 Connection Established\r\n\r\n".to_owned()
}

/// Whether the byte is a decimal digit.
pub open spec fn is_digit_byte(b: u8) -> bool {
    48 <= b <= 57
}

/// The status code of an HTTP response head: the three-digit number after
/// the first space, present only when the head starts with `HTTP/` and has
/// three digits there.
pub open spec fn spec_status_code(data: Seq<u8>) -> Option<u16> {
    if data.len() >= 12 && data.subrange(0, 5) == "HTTP/"@.map_values(|c: char| c as u8) && data[8]
        == 32 && is_digit_byte(data[9]) && is_digit_byte(data[10]) && is_digit_byte(data[11]) {
        Some(
            (((data[9] - 48) as int * 100) + ((data[10] - 48) as int * 10) + (data[11] - 48) as int)
                as u16,
        )
    } else {
        None
    }
}

/// Reads the status code out of an HTTP/1.x response head: the head must
/// start with `HTTP/`, carry a version of the shape `1.x`, and a three-digit
/// status after the space.
pub fn parse_status_code(data: &[u8]) -> (r: Option<u16>)
    ensures
        r == spec_status_code(data@),
        r matches Some(c) ==> c <= 999,
{
    if data.len() < 12 {
        return None;
    }
    if data[0] != 72 || data[1] != 84 || data[2] != 84 || data[3] != 80 || data[4] != 47 {
        proof {
            reveal_strlit("HTTP/");
            if data@.subrange(0, 5) == "HTTP/"@.map_values(|c: char| c as u8) {
                assert(data@.subrange(0, 5)[0] == 72 && data@.subrange(0, 5)[1] == 84
                    && data@.subrange(0, 5)[2] == 84 && data@.subrange(0, 5)[3] == 80
                    && data@.subrange(0, 5)[4] == 47);
            }
        }
        return None;
    }
    proof {
        reveal_strlit("HTTP/");
        assert(data@.subrange(0, 5) =~= "HTTP/"@.map_values(|c: char| c as u8));
    }
    if data[8] != 32 {
        return None;
    }
    let d1 = data[9];
    let d2 = data[10];
    let d3 = data[11];
    if d1 < 48 || d1 > 57 || d2 < 48 || d2 > 57 || d3 < 48 || d3 > 57 {
        return None;
    }
    Some(((d1 - 48) as u16) * 100 + ((d2 - 48) as u16) * 10 + (d3 - 48) as u16)
}

/// The protocol class the pool is asked for, by request kind: CONNECT
/// requests tunnel and need an HTTPS-capable upstream, anything else an
/// HTTP-capable one.
pub fn upstream_protocol(is_connect: bool) -> (r: &'static str)
    ensures
        is_connect ==> r@ == "HTTPS"@,
        !is_connect ==> r@ == "HTTP"@,
{
    if is_connect {
        "HTTPS"
    } else {
        "HTTP"
    }
}

} // verus!
