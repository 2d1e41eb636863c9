//! Writing IP addresses as text.
//!
//! Version 4 is the dotted quad. Version 6 is lower-case hexadecimal groups
//! separated by colons, with the leftmost longest run of two or more zero
//! groups compressed to `::`. The network-block text is the `/16` of a
//! version-4 address or the leading 32 bits of a version-6 address.

use vstd::prelude::*;
use crate::ip::IpAddress;
use crate::ip::spec_v6_segments;
use crate::num::spec_dec_digits;
use crate::num::spec_hex_digits;
use crate::num::dec_chars_u8;
use crate::num::hex_chars_u16;
use crate::text::string_from_chars;

verus! {

/// The length of the run of zero segments starting at `i`.
pub open spec fn spec_zero_run_len(gs: Seq<u16>, i: int) -> int
    decreases gs.len() - i,
{
    if i < 0 || i >= gs.len() {
        0
    } else if gs[i] != 0 {
        0
    } else {
        1 + spec_zero_run_len(gs, i + 1)
    }
}

/// The start of the longest zero run at or after `i`, leftmost on ties; the
/// sequence length itself when scanning past the end.
pub open spec fn spec_best_zero_run(gs: Seq<u16>, i: int) -> int
    decreases gs.len() - i,
{
    if i >= gs.len() {
        i
    } else {
        let rest = spec_best_zero_run(gs, i + 1);
        if spec_zero_run_len(gs, i) >= spec_zero_run_len(gs, rest) {
            i
        } else {
            rest
        }
    }
}

proof fn lemma_zero_run_le(gs: Seq<u16>, i: int)
    requires
        0 <= i <= gs.len(),
    ensures
        0 <= spec_zero_run_len(gs, i) <= gs.len() - i,
    decreases gs.len() - i,
{
    if i < gs.len() && gs[i] == 0 {
        lemma_zero_run_le(gs, i + 1);
    }
}

proof fn lemma_best_in_range(gs: Seq<u16>, i: int)
    requires
        0 <= i <= gs.len(),
    ensures
        i <= spec_best_zero_run(gs, i) <= gs.len(),
    decreases gs.len() - i,
{
    if i < gs.len() {
        lemma_best_in_range(gs, i + 1);
    }
}

/// The hexadecimal groups joined with colons.
pub open spec fn spec_join_hex(gs: Seq<u16>) -> Seq<char>
    decreases gs.len(),
{
    if gs.len() == 0 {
        Seq::<char>::empty()
    } else if gs.len() == 1 {
        spec_hex_digits(gs[0] as nat)
    } else {
        spec_join_hex(gs.drop_last()) + seq![':'] + spec_hex_digits(gs.last() as nat)
    }
}

/// The text of a version-4 address.
pub open spec fn spec_format_ipv4(a: u8, b: u8, c: u8, d: u8) -> Seq<char> {
    spec_dec_digits(a as nat) + seq!['.'] + spec_dec_digits(b as nat) + seq!['.']
        + spec_dec_digits(c as nat) + seq!['.'] + spec_dec_digits(d as nat)
}

/// The text of a version-6 address, `::` compressing the leftmost longest run
/// of two or more zero groups.
pub open spec fn spec_format_ipv6(ip: IpAddress) -> Seq<char>
    recommends
        ip is V6,
{
    let gs = spec_v6_segments(ip);
    let b = spec_best_zero_run(gs, 0);
    let l = spec_zero_run_len(gs, b);
    if l >= 2 {
        spec_join_hex(gs.take(b)) + "::"@ + spec_join_hex(gs.skip(b + l))
    } else {
        spec_join_hex(gs)
    }
}

/// The text of an address of either version.
pub open spec fn spec_format_ip(ip: IpAddress) -> Seq<char> {
    match ip {
        IpAddress::V4 { a, b, c, d } => spec_format_ipv4(a, b, c, d),
        IpAddress::V6 { .. } => spec_format_ipv6(ip),
    }
}

/// The network-block text an attributed address defaults to: its `/16` for
/// version 4, its leading 32 bits for version 6.
pub open spec fn spec_network_prefix(ip: IpAddress) -> Seq<char> {
    match ip {
        IpAddress::V4 { a, b, .. } => spec_dec_digits(a as nat) + seq!['.'] + spec_dec_digits(
            b as nat,
        ) + ".0.0/16"@,
        IpAddress::V6 { s0, s1, .. } => spec_hex_digits(s0 as nat) + seq![':'] + spec_hex_digits(
            s1 as nat,
        ) + "::/32"@,
    }
}

fn extend_chars(dst: &mut Vec<char>, src: &Vec<char>)
    ensures
        final(dst)@ == old(dst)@ + src@,
{
    let mut i: usize = 0;
    proof {
        assert(dst@ =~= old(dst)@ + src@.take(0));
    }
    while i < src.len()
        invariant
            i <= src@.len(),
            dst@ == old(dst)@ + src@.take(i as int),
        decreases src.len() - i,
    {
        dst.push(src[i]);
        proof {
            assert(dst@ =~= old(dst)@ + src@.take(i + 1 as int));
        }
        i = i + 1;
    }
    proof {
        assert(src@.take(src@.len() as int) =~= src@);
    }
}

fn extend_str_chars(dst: &mut Vec<char>, src: &str)
    ensures
        final(dst)@ == old(dst)@ + src@,
{
    let v = crate::text::chars_of(src);
    extend_chars(dst, &v);
}

/// Writes the hexadecimal groups joined with colons.
fn join_hex(vals: &Vec<u16>) -> (r: Vec<char>)
    ensures
        r@ == spec_join_hex(vals@),
{
    let mut r: Vec<char> = Vec::new();
    let mut i: usize = 0;
    proof {
        assert(r@ =~= spec_join_hex(vals@.take(0)));
    }
    while i < vals.len()
        invariant
            i <= vals@.len(),
            r@ == spec_join_hex(vals@.take(i as int)),
        decreases vals.len() - i,
    {
        if i > 0 {
            r.push(':');
        }
        let h = hex_chars_u16(vals[i]);
        extend_chars(&mut r, &h);
        proof {
            let t = vals@.take(i + 1 as int);
            assert(t.last() == vals@[i as int]);
            if i == 0 {
                assert(t.len() == 1);
                assert(t[0] == vals@[0]);
                assert(r@ =~= spec_join_hex(t));
            } else {
                assert(t.drop_last() =~= vals@.take(i as int));
                assert(r@ =~= spec_join_hex(t));
            }
        }
        i = i + 1;
    }
    proof {
        assert(vals@.take(vals@.len() as int) =~= vals@);
    }
    r
}

fn sub_u16s(v: &Vec<u16>, from: usize, to: usize) -> (r: Vec<u16>)
    requires
        from <= to <= v@.len(),
    ensures
        r@ == v@.subrange(from as int, to as int),
{
    let mut r: Vec<u16> = Vec::new();
    let mut i: usize = from;
    while i < to
        invariant
            from <= i <= to <= v@.len(),
            r@ == v@.subrange(from as int, i as int),
        decreases to - i,
    {
        r.push(v[i]);
        proof {
            assert(r@ =~= v@.subrange(from as int, i + 1 as int));
        }
        i = i + 1;
    }
    r
}

/// Writes the text of an address of either version.
pub fn format_ip(ip: &IpAddress) -> (r: String)
    ensures
        r@ == spec_format_ip(*ip),
{
    match *ip {
        IpAddress::V4 { a, b, c, d } => {
            let mut out: Vec<char> = Vec::new();
            let pa = dec_chars_u8(a);
            extend_chars(&mut out, &pa);
            out.push('.');
            let pb = dec_chars_u8(b);
            extend_chars(&mut out, &pb);
            out.push('.');
            let pc = dec_chars_u8(c);
            extend_chars(&mut out, &pc);
            out.push('.');
            let pd = dec_chars_u8(d);
            extend_chars(&mut out, &pd);
            proof {
                assert(out@ =~= spec_format_ipv4(a, b, c, d));
            }
            string_from_chars(&out)
        },
        IpAddress::V6 { s0, s1, s2, s3, s4, s5, s6, s7 } => {
            let mut vals: Vec<u16> = Vec::new();
            vals.push(s0);
            vals.push(s1);
            vals.push(s2);
            vals.push(s3);
            vals.push(s4);
            vals.push(s5);
            vals.push(s6);
            vals.push(s7);
            let ghost gs = spec_v6_segments(*ip);
            proof {
                assert(vals@ =~= gs);
            }
            let mut best: usize = 8;
            let mut best_len: usize = 0;
            let mut cur: usize = 0;
            let mut i: usize = 8;
            proof {
                assert(spec_zero_run_len(gs, 8) == 0);
                assert(spec_best_zero_run(gs, 8) == 8);
            }
            while i > 0
                invariant
                    i <= 8,
                    vals@ == gs,
                    gs.len() == 8,
                    best == spec_best_zero_run(gs, i as int),
                    i <= best <= 8,
                    cur == spec_zero_run_len(gs, i as int),
                    cur <= 8 - i,
                    best_len == spec_zero_run_len(gs, best as int),
                decreases i,
            {
                i = i - 1;
                if vals[i] == 0 {
                    cur = cur + 1;
                } else {
                    cur = 0;
                }
                if cur >= best_len {
                    best = i;
                    best_len = cur;
                }
                proof {
                    lemma_best_in_range(gs, i as int);
                }
            }
            if best_len >= 2 {
                proof {
                    lemma_zero_run_le(gs, best as int);
                }
                let left = sub_u16s(&vals, 0, best);
                let right = sub_u16s(&vals, best + best_len, 8);
                proof {
                    assert(left@ =~= gs.take(best as int));
                    assert(right@ =~= gs.skip(best + best_len));
                }
                let mut out = join_hex(&left);
                out.push(':');
                out.push(':');
                let jr = join_hex(&right);
                extend_chars(&mut out, &jr);
                proof {
                    reveal_strlit("::");
                    assert("::"@ =~= seq![':', ':']);
                    assert(out@ =~= spec_format_ipv6(*ip));
                }
                string_from_chars(&out)
            } else {
                let out = join_hex(&vals);
                string_from_chars(&out)
            }
        },
    }
}

/// Writes the default network-block text of an address.
pub fn network_prefix(ip: &IpAddress) -> (r: String)
    ensures
        r@ == spec_network_prefix(*ip),
{
    match *ip {
        IpAddress::V4 { a, b, .. } => {
            let mut out: Vec<char> = Vec::new();
            let pa = dec_chars_u8(a);
            extend_chars(&mut out, &pa);
            out.push('.');
            let pb = dec_chars_u8(b);
            extend_chars(&mut out, &pb);
            extend_str_chars(&mut out, ".0.0/16");
            proof {
                assert(out@ =~= spec_network_prefix(*ip));
            }
            string_from_chars(&out)
        },
        IpAddress::V6 { s0, s1, .. } => {
            let mut out: Vec<char> = Vec::new();
            let h0 = hex_chars_u16(s0);
            extend_chars(&mut out, &h0);
            out.push(':');
            let h1 = hex_chars_u16(s1);
            extend_chars(&mut out, &h1);
            extend_str_chars(&mut out, "::/32");
            proof {
                assert(out@ =~= spec_network_prefix(*ip));
            }
            string_from_chars(&out)
        },
    }
}

} // verus!
