//! Normalizing a user-supplied host: a literal address is validated and
//! used directly, a plausible domain name is handed to name resolution, and
//! anything else is rejected as invalid input.
//!
//! Name resolution itself is input and output of the surrounding program;
//! this module decides what to resolve and which returned address to use.

use vstd::prelude::*;
use crate::errors::IpGeoError;
use crate::ip::IpAddress;
use crate::ip::spec_is_documentation_v4;
use crate::ip::spec_is_v6_unspecified;
use crate::ip_text::parse_ip_chars;
use crate::ip_text::spec_parse_ip;
use crate::text::chars_of;
use crate::text::spec_is_digit;
use crate::text::spec_split;
use crate::text::spec_views;
use crate::text::split_chars;

verus! {

/// What a host text asks for: a concrete address, or a name to resolve.
#[derive(Debug, Clone, Copy)]
pub enum HostQuery {
    Resolved(IpAddress),
    NeedsDns,
}

/// Literal addresses refused for attribution: unspecified, broadcast, and
/// the documentation blocks of both versions.
pub open spec fn spec_reject_literal(ip: IpAddress) -> bool {
    match ip {
        IpAddress::V4 { a, b, c, d } => {
            ||| (a == 0 && b == 0 && c == 0 && d == 0)
            ||| (a == 255 && b == 255 && c == 255 && d == 255)
            ||| spec_is_documentation_v4(a, b, c)
        },
        IpAddress::V6 { s0, s1, .. } => {
            ||| spec_is_v6_unspecified(ip)
            ||| (s0 == 0x2001 && s1 == 0xdb8)
        },
    }
}

pub open spec fn spec_is_host_char(c: char) -> bool {
    spec_is_digit(c) || ('a' <= c && c <= 'z') || ('A' <= c && c <= 'Z') || c == '.' || c == '-'
}

/// A syntactically plausible domain name: up to 253 such characters, not
/// starting or ending with a dot or dash, with at least one dot, not made of
/// digits and dots alone, and every dot-separated label of 1 to 63
/// characters.
pub open spec fn spec_is_valid_domain(s: Seq<char>) -> bool {
    &&& 1 <= s.len() <= 253
    &&& forall|i: int| 0 <= i < s.len() ==> spec_is_host_char(#[trigger] s[i])
    &&& s[0] != '.' && s[0] != '-' && s[s.len() - 1] != '.' && s[s.len() - 1] != '-'
    &&& exists|i: int| 0 <= i < s.len() && #[trigger] s[i] == '.'
    &&& !(forall|i: int| 0 <= i < s.len() ==> (spec_is_digit(#[trigger] s[i]) || s[i] == '.'))
    &&& forall|k: int|
        0 <= k < spec_split(s, '.').len() ==> 1 <= (#[trigger] spec_split(s, '.')[k]).len() <= 63
}

/// Decides whether a text is a plausible domain name.
pub fn is_valid_domain(host: &str) -> (r: bool)
    ensures
        r == spec_is_valid_domain(host@),
{
    let v = chars_of(host);
    let n = v.len();
    if n < 1 || n > 253 {
        return false;
    }
    let first = v[0];
    let last = v[n - 1];
    if first == '.' || first == '-' || last == '.' || last == '-' {
        return false;
    }
    let mut all_host_chars = true;
    let mut has_dot = false;
    let mut digits_dots_only = true;
    let mut i: usize = 0;
    while i < n
        invariant
            i <= n,
            n == v@.len(),
            v@ == host@,
            all_host_chars == (forall|k: int| 0 <= k < i ==> spec_is_host_char(v@[k])),
            has_dot == (exists|k: int| 0 <= k < i && v@[k] == '.'),
            digits_dots_only == (forall|k: int|
                0 <= k < i ==> (spec_is_digit(v@[k]) || v@[k] == '.')),
        decreases n - i,
    {
        let c = v[i];
        let is_digit = '0' <= c && c <= '9';
        let ok = is_digit || ('a' <= c && c <= 'z') || ('A' <= c && c <= 'Z') || c == '.' || c
            == '-';
        if !ok {
            all_host_chars = false;
        }
        if c == '.' {
            has_dot = true;
        }
        if !(is_digit || c == '.') {
            digits_dots_only = false;
        }
        i = i + 1;
    }
    if !all_host_chars || !has_dot || digits_dots_only {
        return false;
    }
    let labels = split_chars(&v, '.');
    let ghost lviews = spec_split(host@, '.');
    let mut k: usize = 0;
    while k < labels.len()
        invariant
            k <= labels@.len(),
            lviews == spec_views(labels@),
            lviews == spec_split(host@, '.'),
            forall|m: int| 0 <= m < k ==> 1 <= (#[trigger] lviews[m]).len() <= 63,
        decreases labels.len() - k,
    {
        proof {
            assert(lviews[k as int] == labels@[k as int]@);
        }
        let len = labels[k].len();
        if len < 1 || len > 63 {
            return false;
        }
        k = k + 1;
    }
    true
}

/// Classifies a host text: a parseable address is used directly unless it is
/// one of the refused literals; otherwise a plausible domain name goes to
/// resolution; anything else is invalid input, carrying the text back.
pub fn check_host(host: &str) -> (r: Result<HostQuery, IpGeoError>)
    ensures
        spec_parse_ip(host@) matches Some(ip) ==> (if spec_reject_literal(ip) {
            r matches Err(e) && e matches IpGeoError::InvalidInput(m) && m@ == host@
        } else {
            r matches Ok(q) && q matches HostQuery::Resolved(got) && got == ip
        }),
        spec_parse_ip(host@) is None ==> (if spec_is_valid_domain(host@) {
            r matches Ok(q) && q is NeedsDns
        } else {
            r matches Err(e) && e matches IpGeoError::InvalidInput(m) && m@ == host@
        }),
{
    let v = chars_of(host);
    match parse_ip_chars(&v) {
        Option::Some(ip) => {
            let reject = match ip {
                IpAddress::V4 { a, b, c, d } => {
                    (a == 0 && b == 0 && c == 0 && d == 0) || (a == 255 && b == 255 && c == 255
                        && d == 255) || (a == 192 && b == 0 && c == 2) || (a == 198 && b == 51 && c
                        == 100) || (a == 203 && b == 0 && c == 113)
                },
                IpAddress::V6 { s0, s1, s2, s3, s4, s5, s6, s7 } => {
                    (s0 == 0 && s1 == 0 && s2 == 0 && s3 == 0 && s4 == 0 && s5 == 0 && s6 == 0
                        && s7 == 0) || (s0 == 0x2001 && s1 == 0xdb8)
                },
            };
            if reject {
                Result::Err(IpGeoError::InvalidInput(host.to_owned()))
            } else {
                Result::Ok(HostQuery::Resolved(ip))
            }
        },
        Option::None => {
            if is_valid_domain(host) {
                Result::Ok(HostQuery::NeedsDns)
            } else {
                Result::Err(IpGeoError::InvalidInput(host.to_owned()))
            }
        },
    }
}

/// The first version-4 address of a list.
pub open spec fn spec_first_v4(addrs: Seq<IpAddress>) -> Option<IpAddress>
    decreases addrs.len(),
{
    if addrs.len() == 0 {
        Option::None
    } else if addrs[0] is V4 {
        Option::Some(addrs[0])
    } else {
        spec_first_v4(addrs.drop_first())
    }
}

/// The first version-6 address of a list.
pub open spec fn spec_first_v6(addrs: Seq<IpAddress>) -> Option<IpAddress>
    decreases addrs.len(),
{
    if addrs.len() == 0 {
        Option::None
    } else if addrs[0] is V6 {
        Option::Some(addrs[0])
    } else {
        spec_first_v6(addrs.drop_first())
    }
}

/// The address attribution prefers among those a name resolved to: the
/// first version-4 address, else the first version-6 address.
pub open spec fn spec_pick_address(addrs: Seq<IpAddress>) -> Option<IpAddress> {
    match spec_first_v4(addrs) {
        Option::Some(ip) => Option::Some(ip),
        Option::None => spec_first_v6(addrs),
    }
}

/// Picks the preferred address from a resolution result.
pub fn pick_address(addrs: &Vec<IpAddress>) -> (r: Option<IpAddress>)
    ensures
        r == spec_pick_address(addrs@),
{
    let mut i: usize = 0;
    proof {
        assert(addrs@.skip(0) =~= addrs@);
    }
    while i < addrs.len()
        invariant
            i <= addrs@.len(),
            spec_first_v4(addrs@) == spec_first_v4(addrs@.skip(i as int)),
            forall|k: int| 0 <= k < i ==> !(addrs@[k] is V4),
        decreases addrs.len() - i,
    {
        proof {
            assert(addrs@.skip(i as int)[0] == addrs@[i as int]);
            assert(addrs@.skip(i as int).drop_first() =~= addrs@.skip(i + 1));
        }
        match addrs[i] {
            IpAddress::V4 { .. } => {
                return Option::Some(addrs[i]);
            },
            _ => {},
        }
        i = i + 1;
    }
    proof {
        assert(addrs@.skip(addrs@.len() as int) =~= Seq::<IpAddress>::empty());
    }
    let mut j: usize = 0;
    proof {
        assert(addrs@.skip(0) =~= addrs@);
    }
    while j < addrs.len()
        invariant
            j <= addrs@.len(),
            spec_first_v4(addrs@) is None,
            spec_first_v6(addrs@) == spec_first_v6(addrs@.skip(j as int)),
        decreases addrs.len() - j,
    {
        proof {
            assert(addrs@.skip(j as int)[0] == addrs@[j as int]);
            assert(addrs@.skip(j as int).drop_first() =~= addrs@.skip(j + 1));
        }
        match addrs[j] {
            IpAddress::V6 { .. } => {
                return Option::Some(addrs[j]);
            },
            _ => {},
        }
        j = j + 1;
    }
    proof {
        assert(addrs@.skip(addrs@.len() as int) =~= Seq::<IpAddress>::empty());
    }
    Option::None
}

} // verus!
