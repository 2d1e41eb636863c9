//! IP addresses as plain values, and the private/reserved-range classifier.
//!
//! An address is held as its raw integers so that every rule about it can be
//! stated arithmetically: which addresses are private, which belong to the
//! documentation blocks, and which block label a private address answers with.

use vstd::prelude::*;

verus! {

/// An IP address, version 4 (four octets) or version 6 (eight 16-bit
/// segments, most significant first).
#[derive(Clone, Copy, Debug, PartialEq, Eq)]
pub enum IpAddress {
    V4 { a: u8, b: u8, c: u8, d: u8 },
    V6 { s0: u16, s1: u16, s2: u16, s3: u16, s4: u16, s5: u16, s6: u16, s7: u16 },
}

/// The segments of a version-6 address as a sequence of eight values.
pub open spec fn spec_v6_segments(ip: IpAddress) -> Seq<u16>
    recommends
        ip is V6,
{
    seq![ip->s0, ip->s1, ip->s2, ip->s3, ip->s4, ip->s5, ip->s6, ip->s7]
}

/// A version-4 address is private or reserved: RFC 1918 blocks, loopback,
/// link-local, the unspecified and broadcast addresses, and the three
/// documentation blocks.
pub open spec fn spec_is_private_v4(a: u8, b: u8, c: u8, d: u8) -> bool {
    ||| a == 10
    ||| (a == 172 && 16 <= b <= 31)
    ||| (a == 192 && b == 168)
    ||| a == 127
    ||| (a == 169 && b == 254)
    ||| (a == 0 && b == 0 && c == 0 && d == 0)
    ||| (a == 255 && b == 255 && c == 255 && d == 255)
    ||| spec_is_documentation_v4(a, b, c)
}

/// The three IETF documentation blocks for version 4.
pub open spec fn spec_is_documentation_v4(a: u8, b: u8, c: u8) -> bool {
    ||| (a == 192 && b == 0 && c == 2)
    ||| (a == 198 && b == 51 && c == 100)
    ||| (a == 203 && b == 0 && c == 113)
}

/// A version-6 address is private or reserved: loopback, unspecified,
/// unique-local (`fc00::/7`), or link-local (`fe80::/10`).
pub open spec fn spec_is_private_v6(ip: IpAddress) -> bool
    recommends
        ip is V6,
{
    ||| spec_is_v6_loopback(ip)
    ||| spec_is_v6_unspecified(ip)
    ||| (0xfc00 <= ip->s0 <= 0xfdff)
    ||| (0xfe80 <= ip->s0 <= 0xfebf)
}

pub open spec fn spec_is_v6_unspecified(ip: IpAddress) -> bool {
    ip->s0 == 0 && ip->s1 == 0 && ip->s2 == 0 && ip->s3 == 0 && ip->s4 == 0 && ip->s5 == 0
        && ip->s6 == 0 && ip->s7 == 0
}

pub open spec fn spec_is_v6_loopback(ip: IpAddress) -> bool {
    ip->s0 == 0 && ip->s1 == 0 && ip->s2 == 0 && ip->s3 == 0 && ip->s4 == 0 && ip->s5 == 0
        && ip->s6 == 0 && ip->s7 == 1
}

/// Whether an address of either version is private or reserved.
pub open spec fn spec_is_private(ip: IpAddress) -> bool {
    match ip {
        IpAddress::V4 { a, b, c, d } => spec_is_private_v4(a, b, c, d),
        IpAddress::V6 { .. } => spec_is_private_v6(ip),
    }
}

/// Decides whether `ip` is a private or reserved address; such addresses are
/// answered directly and never attributed through the databases.
pub fn is_private_ip(ip: &IpAddress) -> (r: bool)
    ensures
        r == spec_is_private(*ip),
{
    match *ip {
        IpAddress::V4 { a, b, c, d } => {
            a == 10 || (a == 172 && 16 <= b && b <= 31) || (a == 192 && b == 168) || a == 127 || (a
                == 169 && b == 254) || (a == 0 && b == 0 && c == 0 && d == 0) || (a == 255 && b
                == 255 && c == 255 && d == 255) || (a == 192 && b == 0 && c == 2) || (a == 198 && b
                == 51 && c == 100) || (a == 203 && b == 0 && c == 113)
        },
        IpAddress::V6 { s0, s1, s2, s3, s4, s5, s6, s7 } => {
            (0xfc00 <= s0 && s0 <= 0xfdff) || (0xfe80 <= s0 && s0 <= 0xfebf) || (s0 == 0 && s1 == 0
                && s2 == 0 && s3 == 0 && s4 == 0 && s5 == 0 && s6 == 0 && (s7 == 0 || s7 == 1))
        },
    }
}

/// The block label a private address is answered with: the most specific of
/// the named reserved blocks, or the literal label `private`.
pub open spec fn spec_private_block_label(ip: IpAddress) -> Seq<char> {
    match ip {
        IpAddress::V4 { a, b, c, d } => {
            if a == 127 {
                "127.0.0.0/8"@
            } else if a == 10 {
                "10.0.0.0/8"@
            } else if a == 172 && 16 <= b <= 31 {
                "172.16.0.0/12"@
            } else if a == 192 && b == 168 {
                "192.168.0.0/16"@
            } else if a == 169 && b == 254 {
                "169.254.0.0/16"@
            } else {
                "private"@
            }
        },
        IpAddress::V6 { .. } => {
            if 0xfe80 <= ip->s0 <= 0xfebf {
                "fe80::/10"@
            } else if 0xfc00 <= ip->s0 <= 0xfdff {
                "fc00::/7"@
            } else {
                "private"@
            }
        },
    }
}

/// Maps a private address to its reserved-block label for a direct answer.
pub fn private_block_label(ip: &IpAddress) -> (r: String)
    ensures
        r@ == spec_private_block_label(*ip),
{
    match *ip {
        IpAddress::V4 { a, b, .. } => {
            if a == 127 {
                "127.0.0.0/8".to_owned()
            } else if a == 10 {
                "10.0.0.0/8".to_owned()
            } else if a == 172 && 16 <= b && b <= 31 {
                "172.16.0.0/12".to_owned()
            } else if a == 192 && b == 168 {
                "192.168.0.0/16".to_owned()
            } else if a == 169 && b == 254 {
                "169.254.0.0/16".to_owned()
            } else {
                "private".to_owned()
            }
        },
        IpAddress::V6 { s0, .. } => {
            if 0xfe80 <= s0 && s0 <= 0xfebf {
                "fe80::/10".to_owned()
            } else if 0xfc00 <= s0 && s0 <= 0xfdff {
                "fc00::/7".to_owned()
            } else {
                "private".to_owned()
            }
        },
    }
}

} // verus!
