//! Link- and network-layer addresses of a captured frame.
use vstd::prelude::*;
use crate::text::{decimal, decimal_string};

verus! {

/// Bytes of an Ethernet header.
pub const ETHERNET_HEADER_LEN: usize = 14;

/// Bytes of the Ethernet and option-free IPv4 headers together.
pub const ETHERNET_IPV4_LEN: usize = 34;

/// Dotted-decimal text of four octets.
pub open spec fn dotted(a: u8, b: u8, c: u8, d: u8) -> Seq<char> {
    decimal(a as nat) + "."@ + decimal(b as nat) + "."@ + decimal(c as nat) + "."@ + decimal(
        d as nat,
    )
}

/// Whether a frame is long enough for Ethernet and IPv4 headers and carries
/// the IPv4 EtherType.
pub open spec fn carries_ipv4(data: Seq<u8>) -> bool {
    data.len() >= ETHERNET_IPV4_LEN && data[12] == 0x08 && data[13] == 0x00
}

/// The source and destination addresses of a frame, read at the fixed
/// offsets of untagged Ethernet and option-free IPv4; `unknown` for both on
/// any other frame.
pub open spec fn frame_addresses(data: Seq<u8>) -> (Seq<char>, Seq<char>) {
    if carries_ipv4(data) {
        (
            dotted(data[26], data[27], data[28], data[29]),
            dotted(data[30], data[31], data[32], data[33]),
        )
    } else {
        ("unknown"@, "unknown"@)
    }
}

/// Dotted-decimal text of four octets.
pub fn dotted_string(a: u8, b: u8, c: u8, d: u8) -> (r: String)
    ensures
        r@ == dotted(a, b, c, d),
{
    decimal_string(a as u64).concat(".").concat(decimal_string(b as u64).as_str()).concat(
        ".",
    ).concat(decimal_string(c as u64).as_str()).concat(".").concat(
        decimal_string(d as u64).as_str(),
    )
}

/// The source and destination IPv4 addresses of a frame, or `unknown`.
pub fn extract_ip_addresses(data: &[u8]) -> (r: (String, String))
    ensures
        (r.0@, r.1@) == frame_addresses(data@),
{
    if data.len() < ETHERNET_IPV4_LEN {
        return (String::from_str("unknown"), String::from_str("unknown"));
    }
    let hi = data[12];
    let lo = data[13];
    let ethertype: u16 = ((hi as u16) << 8u16) | (lo as u16);
    assert(ethertype == 0x0800 <==> (hi == 0x08 && lo == 0x00)) by (bit_vector)
        requires
            ethertype == ((hi as u16) << 8u16) | (lo as u16),
    ;
    if ethertype != 0x0800 {
        return (String::from_str("unknown"), String::from_str("unknown"));
    }
    let ip = ETHERNET_HEADER_LEN;
    let src = dotted_string(data[ip + 12], data[ip + 13], data[ip + 14], data[ip + 15]);
    let dst = dotted_string(data[ip + 16], data[ip + 17], data[ip + 18], data[ip + 19]);
    (src, dst)
}

} // verus!
