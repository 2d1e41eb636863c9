//! Reading IP addresses from text.
//!
//! Version 4 is the dotted quad: four decimal octets, each at most 255, with
//! no leading zeros. Version 6 is groups of one to four hexadecimal digits
//! separated by colons, eight groups in full form, or fewer with one `::`
//! standing for the missing zero groups.

use vstd::prelude::*;
use crate::ip::IpAddress;
use crate::num::spec_parse_dec_u32;
use crate::num::spec_parse_hex_u16;
use crate::num::spec_dec_value;
use crate::num::spec_hex_value;
use crate::num::parse_dec_u32;
use crate::num::parse_hex_u16;
use crate::text::spec_split;
use crate::text::spec_views;
use crate::text::split_chars;
use crate::text::sub_chars;
use crate::text::chars_of;

verus! {

/// What a version-4 octet field parses to: decimal, at most 255, and no
/// leading zero.
pub open spec fn spec_parse_octet(p: Seq<char>) -> Option<u8> {
    if spec_parse_dec_u32(p, 255) is Some && (p[0] == '0' ==> p.len() == 1) {
        Some(spec_dec_value(p) as u8)
    } else {
        None
    }
}

/// What a whole text parses to as a version-4 address.
pub open spec fn spec_parse_ipv4(s: Seq<char>) -> Option<IpAddress> {
    let ps = spec_split(s, '.');
    if ps.len() == 4 && spec_parse_octet(ps[0]) is Some && spec_parse_octet(ps[1]) is Some
        && spec_parse_octet(ps[2]) is Some && spec_parse_octet(ps[3]) is Some {
        Some(
            IpAddress::V4 {
                a: spec_dec_value(ps[0]) as u8,
                b: spec_dec_value(ps[1]) as u8,
                c: spec_dec_value(ps[2]) as u8,
                d: spec_dec_value(ps[3]) as u8,
            },
        )
    } else {
        None
    }
}

/// Every piece is a valid version-6 group.
pub open spec fn spec_groups_ok(ps: Seq<Seq<char>>) -> bool {
    forall|i: int| 0 <= i < ps.len() ==> spec_parse_hex_u16(ps[i]) is Some
}

/// The group values, in order.
pub open spec fn spec_group_vals(ps: Seq<Seq<char>>) -> Seq<u16> {
    Seq::new(ps.len(), |i: int| spec_hex_value(ps[i]) as u16)
}

/// The position of the first `::`, scanning from `i`.
pub open spec fn spec_dc_pos_from(s: Seq<char>, i: int) -> Option<int>
    recommends
        0 <= i,
    decreases s.len() - i,
{
    if i + 1 >= s.len() {
        None
    } else if s[i] == ':' && s[i + 1] == ':' {
        Some(i)
    } else {
        spec_dc_pos_from(s, i + 1)
    }
}

proof fn lemma_dc_pos_props(s: Seq<char>, i: int, k: int)
    requires
        0 <= i,
        spec_dc_pos_from(s, i) == Some(k),
    ensures
        i <= k,
        k + 1 < s.len(),
        s[k] == ':',
        s[k + 1] == ':',
    decreases s.len() - i,
{
    if i + 1 >= s.len() {
    } else if s[i] == ':' && s[i + 1] == ':' {
    } else {
        lemma_dc_pos_props(s, i + 1, k);
    }
}

/// A run of zero group values.
pub open spec fn spec_zero_groups(n: int) -> Seq<u16> {
    Seq::new(n as nat, |i: int| 0u16)
}

/// The address with the eight given segment values.
pub open spec fn spec_v6_of(vals: Seq<u16>) -> IpAddress
    recommends
        vals.len() == 8,
{
    IpAddress::V6 {
        s0: vals[0],
        s1: vals[1],
        s2: vals[2],
        s3: vals[3],
        s4: vals[4],
        s5: vals[5],
        s6: vals[6],
        s7: vals[7],
    }
}

/// What a whole text parses to as a version-6 address. With a `::` the text
/// left and right of it holds colon-separated groups, together at most seven,
/// and the gap is filled with zeros; without one there are exactly eight
/// groups.
pub open spec fn spec_parse_ipv6(s: Seq<char>) -> Option<IpAddress> {
    match spec_dc_pos_from(s, 0) {
        Some(k) => {
            let left = s.take(k);
            let right = s.skip(k + 2);
            let lg = if left.len() == 0 {
                Seq::<Seq<char>>::empty()
            } else {
                spec_split(left, ':')
            };
            let rg = if right.len() == 0 {
                Seq::<Seq<char>>::empty()
            } else {
                spec_split(right, ':')
            };
            if spec_groups_ok(lg) && spec_groups_ok(rg) && lg.len() + rg.len() <= 7 {
                Some(
                    spec_v6_of(
                        spec_group_vals(lg) + spec_zero_groups(8 - lg.len() - rg.len())
                            + spec_group_vals(rg),
                    ),
                )
            } else {
                None
            }
        },
        None => {
            let gs = spec_split(s, ':');
            if gs.len() == 8 && spec_groups_ok(gs) {
                Some(spec_v6_of(spec_group_vals(gs)))
            } else {
                None
            }
        },
    }
}

/// What a whole text parses to as an address of either version.
pub open spec fn spec_parse_ip(s: Seq<char>) -> Option<IpAddress> {
    if spec_parse_ipv4(s) is Some {
        spec_parse_ipv4(s)
    } else {
        spec_parse_ipv6(s)
    }
}

/// Reads one version-4 octet field.
fn parse_octet(p: &Vec<char>) -> (r: Option<u8>)
    ensures
        r == spec_parse_octet(p@),
{
    match parse_dec_u32(p, 255) {
        Some(n) => {
            proof {
                crate::num::lemma_dec_value_nonneg(p@);
            }
            if p[0] == '0' && p.len() > 1 {
                None
            } else {
                Some(n as u8)
            }
        },
        None => None,
    }
}

/// Reads a version-4 address from the whole text.
pub fn parse_ipv4_chars(v: &Vec<char>) -> (r: Option<IpAddress>)
    ensures
        r == spec_parse_ipv4(v@),
{
    let ps = split_chars(v, '.');
    proof {
        assert(spec_views(ps@).len() == ps@.len());
    }
    if ps.len() != 4 {
        return None;
    }
    proof {
        assert(spec_views(ps@)[0] == ps@[0]@);
        assert(spec_views(ps@)[1] == ps@[1]@);
        assert(spec_views(ps@)[2] == ps@[2]@);
        assert(spec_views(ps@)[3] == ps@[3]@);
    }
    let a = match parse_octet(&ps[0]) {
        Some(x) => x,
        None => {
            return None;
        },
    };
    let b = match parse_octet(&ps[1]) {
        Some(x) => x,
        None => {
            return None;
        },
    };
    let c = match parse_octet(&ps[2]) {
        Some(x) => x,
        None => {
            return None;
        },
    };
    let d = match parse_octet(&ps[3]) {
        Some(x) => x,
        None => {
            return None;
        },
    };
    Some(IpAddress::V4 { a, b, c, d })
}

/// Finds the first `::` in the text.
fn find_double_colon(v: &Vec<char>) -> (r: Option<usize>)
    ensures
        r is Some <==> spec_dc_pos_from(v@, 0) is Some,
        r matches Some(k) ==> spec_dc_pos_from(v@, 0) == Some(k as int),
{
    if v.len() < 2 {
        return None;
    }
    let mut i: usize = 0;
    while i + 1 < v.len()
        invariant
            i + 1 <= v@.len(),
            spec_dc_pos_from(v@, 0) == spec_dc_pos_from(v@, i as int),
        decreases v.len() - i,
    {
        if v[i] == ':' && v[i + 1] == ':' {
            return Some(i);
        }
        i = i + 1;
    }
    None
}

/// Reads the colon-separated pieces as group values; any bad group rejects.
fn parse_groups(ps: &Vec<Vec<char>>) -> (r: Option<Vec<u16>>)
    ensures
        r is Some <==> spec_groups_ok(spec_views(ps@)),
        r matches Some(vs) ==> vs@ == spec_group_vals(spec_views(ps@)),
{
    let mut vs: Vec<u16> = Vec::new();
    let mut i: usize = 0;
    while i < ps.len()
        invariant
            i <= ps@.len(),
            vs@.len() == i,
            forall|k: int| 0 <= k < i ==> spec_parse_hex_u16(spec_views(ps@)[k]) is Some,
            forall|k: int|
                0 <= k < i ==> vs@[k] == (spec_hex_value(spec_views(ps@)[k]) as u16),
        decreases ps.len() - i,
    {
        proof {
            assert(spec_views(ps@)[i as int] == ps@[i as int]@);
        }
        match parse_hex_u16(&ps[i]) {
            Some(x) => {
                vs.push(x);
            },
            None => {
                return None;
            },
        }
        i = i + 1;
    }
    proof {
        assert(vs@ =~= spec_group_vals(spec_views(ps@)));
    }
    Some(vs)
}

/// Reads a version-6 address from the whole text.
pub fn parse_ipv6_chars(v: &Vec<char>) -> (r: Option<IpAddress>)
    ensures
        r == spec_parse_ipv6(v@),
{
    match find_double_colon(v) {
        Some(k) => {
            let n = v.len();
            proof {
                lemma_dc_pos_props(v@, 0, k as int);
                assert(k + 2 <= n);
            }
            let left = sub_chars(v, 0, k);
            let right = sub_chars(v, k + 2, n);
            proof {
                assert(left@ =~= v@.take(k as int));
                assert(right@ =~= v@.skip(k + 2));
            }
            let lps: Vec<Vec<char>> = if left.len() == 0 {
                Vec::new()
            } else {
                split_chars(&left, ':')
            };
            let rps: Vec<Vec<char>> = if right.len() == 0 {
                Vec::new()
            } else {
                split_chars(&right, ':')
            };
            proof {
                if left@.len() == 0 {
                    assert(spec_views(Seq::<Vec<char>>::empty()) =~= Seq::<Seq<char>>::empty());
                }
                if right@.len() == 0 {
                    assert(spec_views(Seq::<Vec<char>>::empty()) =~= Seq::<Seq<char>>::empty());
                }
            }
            let lv = match parse_groups(&lps) {
                Some(x) => x,
                None => {
                    return None;
                },
            };
            let rv = match parse_groups(&rps) {
                Some(x) => x,
                None => {
                    return None;
                },
            };
            if lv.len() > 7 || rv.len() > 7 - lv.len() {
                return None;
            }
            let fill = 8 - lv.len() - rv.len();
            let mut all = lv;
            let mut z: usize = 0;
            while z < fill
                invariant
                    z <= fill,
                    all@.len() == lv@.len() + z,
                    all@ =~= lv@ + spec_zero_groups(z as int),
                decreases fill - z,
            {
                all.push(0u16);
                proof {
                    assert(all@ =~= lv@ + spec_zero_groups(z + 1 as int));
                }
                z = z + 1;
            }
            let mut j: usize = 0;
            while j < rv.len()
                invariant
                    j <= rv@.len(),
                    all@ =~= lv@ + spec_zero_groups(fill as int) + rv@.take(j as int),
                decreases rv.len() - j,
            {
                all.push(rv[j]);
                proof {
                    assert(all@ =~= lv@ + spec_zero_groups(fill as int) + rv@.take(j + 1 as int));
                }
                j = j + 1;
            }
            proof {
                assert(rv@.take(rv@.len() as int) =~= rv@);
                assert(all@ =~= lv@ + spec_zero_groups(fill as int) + rv@);
            }
            Some(
                IpAddress::V6 {
                    s0: all[0],
                    s1: all[1],
                    s2: all[2],
                    s3: all[3],
                    s4: all[4],
                    s5: all[5],
                    s6: all[6],
                    s7: all[7],
                },
            )
        },
        None => {
            let gs = split_chars(v, ':');
            proof {
                assert(spec_views(gs@).len() == gs@.len());
            }
            if gs.len() != 8 {
                return None;
            }
            let vs = match parse_groups(&gs) {
                Some(x) => x,
                None => {
                    return None;
                },
            };
            Some(
                IpAddress::V6 {
                    s0: vs[0],
                    s1: vs[1],
                    s2: vs[2],
                    s3: vs[3],
                    s4: vs[4],
                    s5: vs[5],
                    s6: vs[6],
                    s7: vs[7],
                },
            )
        },
    }
}

/// Reads an address of either version from the whole text.
pub fn parse_ip_chars(v: &Vec<char>) -> (r: Option<IpAddress>)
    ensures
        r == spec_parse_ip(v@),
{
    match parse_ipv4_chars(v) {
        Some(ip) => Some(ip),
        None => parse_ipv6_chars(v),
    }
}

/// Reads an address of either version from a string.
pub fn parse_ip(s: &str) -> (r: Option<IpAddress>)
    ensures
        r == spec_parse_ip(s@),
{
    let v = chars_of(s);
    parse_ip_chars(&v)
}

} // verus!
