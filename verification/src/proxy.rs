//! The local proxy speaks two protocols on one port; the first byte tells which.

use crate::text;
use vstd::prelude::*;

verus! {

broadcast use vstd::seq::group_seq_axioms;

/// The protocol of a client of the proxy.
#[derive(Debug, Clone, Copy, PartialEq, Eq, Structural)]
pub enum ProxyProtocol {
    Socks5,
    Http,
    Unknown(u8),
}

/// The protocol of a client that starts with this byte.
pub open spec fn protocol_of(first: u8) -> ProxyProtocol {
    if first == 5 {
        ProxyProtocol::Socks5
    } else if crate::uri::is_letter(first as char) {
        ProxyProtocol::Http
    } else {
        ProxyProtocol::Unknown(first)
    }
}

/// SOCKS5 starts with its version; an HTTP method starts with a letter.
pub fn detect(first: u8) -> (r: ProxyProtocol)
    ensures
        r == protocol_of(first),
        r == (if first == 5 {
            ProxyProtocol::Socks5
        } else if (65 <= first <= 90) || (97 <= first <= 122) {
            ProxyProtocol::Http
        } else {
            ProxyProtocol::Unknown(first)
        }),
{
    if first == 5 {
        ProxyProtocol::Socks5
    } else if (65 <= first && first <= 90) || (97 <= first && first <= 122) {
        ProxyProtocol::Http
    } else {
        ProxyProtocol::Unknown(first)
    }
}

/// What a client of neither protocol is told.
pub fn unknown_protocol_message(first: u8) -> (r: String)
    ensures
        r@ == "Unknown protocol (first byte: 0x"@ + text::hex(first as nat, 2) + ")"@,
{
    String::from_str("Unknown protocol (first byte: 0x").concat(
        text::hex_of(first as u64, 2).as_str(),
    ).concat(")")
}

/// Every first byte belongs to one protocol at most: five to SOCKS5, the letters of the
/// alphabet to HTTP, and no other to either.
pub proof fn first_bytes_tell_protocols(first: u8)
    ensures
        protocol_of(first) == ProxyProtocol::Socks5 <==> first == 5,
        protocol_of(first) == ProxyProtocol::Http <==> 0x41 <= first <= 0x5a || 0x61 <= first
            <= 0x7a,
        protocol_of(first) is Unknown ==> protocol_of(first) == ProxyProtocol::Unknown(first),
{
}

} // verus!
