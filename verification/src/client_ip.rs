//! Choosing the client address from forwarding headers.
//!
//! Headers are attacker-controlled, so a value is accepted only if it parses
//! and is not private. The provider-specific headers are tried first, in a
//! fixed order, then `X-Real-IP`, then the first entry of
//! `X-Forwarded-For`, then the `for=` directive of `Forwarded`; the
//! transport peer address is the unconditional fallback, the only step that
//! accepts a private address.

use vstd::prelude::*;
use crate::ip::IpAddress;
use crate::ip::is_private_ip;
use crate::ip::spec_is_private;
use crate::ip_text::parse_ip_chars;
use crate::ip_text::spec_parse_ip;
use crate::text::chars_of;
use crate::text::eq_ignore_case;
use crate::text::lemma_split_len;
use crate::text::spec_eq_ignore_case;
use crate::text::spec_split;
use crate::text::spec_starts_with;
use crate::text::spec_trim;
use crate::text::spec_views;
use crate::text::split_chars;
use crate::text::starts_with;
use crate::text::sub_chars;
use crate::text::trim_chars;

verus! {

/// One request header, name and value.
#[derive(Debug, Clone)]
pub struct Header {
    pub name: String,
    pub value: String,
}

/// The value of the first header with the given name, names compared
/// without regard to ASCII case.
pub open spec fn spec_header_value(hs: Seq<Header>, name: Seq<char>) -> Option<Seq<char>>
    decreases hs.len(),
{
    if hs.len() == 0 {
        Option::None
    } else if spec_eq_ignore_case(hs[0].name@, name) {
        Option::Some(hs[0].value@)
    } else {
        spec_header_value(hs.drop_first(), name)
    }
}

/// A parsed, non-private address; anything else is treated as absent.
pub open spec fn spec_accept(t: Seq<char>) -> Option<IpAddress> {
    match spec_parse_ip(t) {
        Option::Some(ip) => {
            if !spec_is_private(ip) {
                Option::Some(ip)
            } else {
                Option::None
            }
        },
        Option::None => Option::None,
    }
}

/// What one trimmed-and-validated header contributes.
pub open spec fn spec_candidate_trimmed(hs: Seq<Header>, name: Seq<char>) -> Option<IpAddress> {
    match spec_header_value(hs, name) {
        Option::Some(v) => spec_accept(spec_trim(v)),
        Option::None => Option::None,
    }
}

/// What the real-IP header contributes: its value taken as written.
pub open spec fn spec_candidate_plain(hs: Seq<Header>, name: Seq<char>) -> Option<IpAddress> {
    match spec_header_value(hs, name) {
        Option::Some(v) => spec_accept(v),
        Option::None => Option::None,
    }
}

/// What the forwarded-for header contributes: its first comma-separated
/// entry, trimmed, is the address closest to the original client.
pub open spec fn spec_candidate_forwarded_for(hs: Seq<Header>) -> Option<IpAddress> {
    match spec_header_value(hs, "x-forwarded-for"@) {
        Option::Some(v) => spec_accept(spec_trim(spec_split(v, ',')[0])),
        Option::None => Option::None,
    }
}

/// Quotes and brackets stripped from both ends of a `for=` token.
pub open spec fn spec_is_quote_or_bracket(c: char) -> bool {
    c == '"' || c == '[' || c == ']'
}

pub open spec fn spec_strip_marks_start(s: Seq<char>) -> Seq<char>
    decreases s.len(),
{
    if s.len() > 0 && spec_is_quote_or_bracket(s[0]) {
        spec_strip_marks_start(s.drop_first())
    } else {
        s
    }
}

pub open spec fn spec_strip_marks_end(s: Seq<char>) -> Seq<char>
    decreases s.len(),
{
    if s.len() > 0 && spec_is_quote_or_bracket(s[s.len() - 1]) {
        spec_strip_marks_end(s.drop_last())
    } else {
        s
    }
}

pub open spec fn spec_strip_marks(s: Seq<char>) -> Seq<char> {
    spec_strip_marks_end(spec_strip_marks_start(s))
}

/// The address text of the first `for=` directive among the
/// semicolon-separated pieces, unquoted and unbracketed.
pub open spec fn spec_forwarded_token(ps: Seq<Seq<char>>) -> Option<Seq<char>>
    decreases ps.len(),
{
    if ps.len() == 0 {
        Option::None
    } else if spec_starts_with(spec_trim(ps[0]), "for="@) {
        Option::Some(spec_strip_marks(spec_trim(ps[0]).skip(4)))
    } else {
        spec_forwarded_token(ps.drop_first(), )
    }
}

/// What the standard `Forwarded` header contributes.
pub open spec fn spec_candidate_forwarded(hs: Seq<Header>) -> Option<IpAddress> {
    match spec_header_value(hs, "forwarded"@) {
        Option::Some(v) => match spec_forwarded_token(spec_split(v, ';')) {
            Option::Some(t) => spec_accept(t),
            Option::None => Option::None,
        },
        Option::None => Option::None,
    }
}

/// The provider-specific headers, in trust order.
pub open spec fn spec_cdn_names() -> Seq<Seq<char>> {
    seq![
        "cf-connecting-ip"@,
        "fastly-client-ip"@,
        "x-azure-clientip"@,
        "x-akamai-client-ip"@,
        "true-client-ip"@,
        "x-cdn-src-ip"@,
    ]
}

/// The first provider header, from position `i` on, that contributes.
pub open spec fn spec_first_cdn(hs: Seq<Header>, i: int) -> Option<IpAddress>
    decreases 6 - i,
{
    if i < 0 || i >= 6 {
        Option::None
    } else {
        match spec_candidate_trimmed(hs, spec_cdn_names()[i]) {
            Option::Some(ip) => Option::Some(ip),
            Option::None => spec_first_cdn(hs, i + 1),
        }
    }
}

/// The address to treat as the client: the first acceptable header value in
/// trust order, else the transport peer address.
pub open spec fn spec_resolve_client_ip(hs: Seq<Header>, peer: IpAddress) -> IpAddress {
    match spec_first_cdn(hs, 0) {
        Option::Some(ip) => ip,
        Option::None => match spec_candidate_plain(hs, "x-real-ip"@) {
            Option::Some(ip) => ip,
            Option::None => match spec_candidate_forwarded_for(hs) {
                Option::Some(ip) => ip,
                Option::None => match spec_candidate_forwarded(hs) {
                    Option::Some(ip) => ip,
                    Option::None => peer,
                },
            },
        },
    }
}

/// Finds the value of the first header with the given name.
fn header_value(headers: &Vec<Header>, name: &Vec<char>) -> (r: Option<String>)
    ensures
        r is Some <==> spec_header_value(headers@, name@) is Some,
        r matches Some(s) ==> spec_header_value(headers@, name@) matches Some(v) && s@ == v,
{
    let mut j: usize = 0;
    proof {
        assert(headers@.skip(0) =~= headers@);
    }
    while j < headers.len()
        invariant
            j <= headers@.len(),
            spec_header_value(headers@, name@) == spec_header_value(
                headers@.skip(j as int),
                name@,
            ),
        decreases headers.len() - j,
    {
        proof {
            assert(headers@.skip(j as int)[0] == headers@[j as int]);
            assert(headers@.skip(j as int).drop_first() =~= headers@.skip(j + 1));
        }
        let hn = chars_of(headers[j].name.as_str());
        if eq_ignore_case(&hn, name) {
            return Option::Some(headers[j].value.clone());
        }
        j = j + 1;
    }
    proof {
        assert(headers@.skip(headers@.len() as int) =~= Seq::<Header>::empty());
    }
    Option::None
}

/// Parses a candidate text and rejects private addresses.
fn accept_chars(t: &Vec<char>) -> (r: Option<IpAddress>)
    ensures
        r == spec_accept(t@),
{
    match parse_ip_chars(t) {
        Option::Some(ip) => {
            if !is_private_ip(&ip) {
                Option::Some(ip)
            } else {
                Option::None
            }
        },
        Option::None => Option::None,
    }
}

/// Evaluates one header under the trim-validate rule.
fn candidate_trimmed(headers: &Vec<Header>, name: &Vec<char>) -> (r: Option<IpAddress>)
    ensures
        r == spec_candidate_trimmed(headers@, name@),
{
    match header_value(headers, name) {
        Option::Some(v) => {
            let vc = chars_of(v.as_str());
            let t = trim_chars(&vc);
            accept_chars(&t)
        },
        Option::None => Option::None,
    }
}

/// Evaluates the real-IP header, value taken as written.
fn candidate_plain(headers: &Vec<Header>, name: &Vec<char>) -> (r: Option<IpAddress>)
    ensures
        r == spec_candidate_plain(headers@, name@),
{
    match header_value(headers, name) {
        Option::Some(v) => {
            let vc = chars_of(v.as_str());
            accept_chars(&vc)
        },
        Option::None => Option::None,
    }
}

/// Evaluates the forwarded-for header: first entry wins.
fn candidate_forwarded_for(headers: &Vec<Header>) -> (r: Option<IpAddress>)
    ensures
        r == spec_candidate_forwarded_for(headers@),
{
    let name = chars_of("x-forwarded-for");
    match header_value(headers, &name) {
        Option::Some(v) => {
            let vc = chars_of(v.as_str());
            let pieces = split_chars(&vc, ',');
            proof {
                lemma_split_len(vc@, ',');
                assert(spec_views(pieces@)[0] == pieces@[0]@);
            }
            let first = trim_chars(&pieces[0]);
            accept_chars(&first)
        },
        Option::None => Option::None,
    }
}

/// Strips quotes and brackets from both ends of a token.
fn strip_marks(v: &Vec<char>) -> (r: Vec<char>)
    ensures
        r@ == spec_strip_marks(v@),
{
    let mut start: usize = 0;
    while start < v.len() && is_mark(v[start])
        invariant
            start <= v@.len(),
            forall|j: int| 0 <= j < start ==> spec_is_quote_or_bracket(v@[j]),
        decreases v.len() - start,
    {
        start = start + 1;
    }
    proof {
        lemma_strip_start_skip(v@, start as int);
        assert(spec_strip_marks_start(v@.skip(start as int)) == v@.skip(start as int));
    }
    let mut end: usize = v.len();
    while end > start && is_mark(v[end - 1])
        invariant
            start <= end <= v@.len(),
            forall|j: int| end <= j < v@.len() ==> spec_is_quote_or_bracket(v@[j]),
            spec_strip_marks_start(v@) == v@.skip(start as int),
        decreases end,
    {
        end = end - 1;
    }
    proof {
        let tail = v@.skip(start as int);
        lemma_strip_end_take(tail, end - start);
        assert(tail.take(end - start) =~= v@.subrange(start as int, end as int));
        assert(spec_strip_marks_end(v@.subrange(start as int, end as int)) == v@.subrange(
            start as int,
            end as int,
        ));
    }
    sub_chars(v, start, end)
}

fn is_mark(c: char) -> (r: bool)
    ensures
        r == spec_is_quote_or_bracket(c),
{
    c == '"' || c == '[' || c == ']'
}

proof fn lemma_strip_start_skip(s: Seq<char>, i: int)
    requires
        0 <= i <= s.len(),
        forall|j: int| 0 <= j < i ==> spec_is_quote_or_bracket(s[j]),
    ensures
        spec_strip_marks_start(s) == spec_strip_marks_start(s.skip(i)),
    decreases i,
{
    if i > 0 {
        assert(s.skip(0) =~= s);
        assert(s.drop_first() =~= s.skip(1));
        lemma_strip_start_skip(s.skip(1), i - 1);
        assert(s.skip(1).skip(i - 1) =~= s.skip(i));
    } else {
        assert(s.skip(0) =~= s);
    }
}

proof fn lemma_strip_end_take(s: Seq<char>, i: int)
    requires
        0 <= i <= s.len(),
        forall|j: int| i <= j < s.len() ==> spec_is_quote_or_bracket(s[j]),
    ensures
        spec_strip_marks_end(s) == spec_strip_marks_end(s.take(i)),
    decreases s.len() - i,
{
    if i < s.len() {
        assert(s.drop_last() =~= s.take(s.len() - 1));
        lemma_strip_end_take(s.take(s.len() - 1), i);
        assert(s.take(s.len() - 1).take(i) =~= s.take(i));
    } else {
        assert(s.take(i) =~= s);
    }
}

/// Reads the address text of the first `for=` directive of a `Forwarded`
/// header value.
pub fn parse_forwarded_header(value: &str) -> (r: Option<String>)
    ensures
        r is Some <==> spec_forwarded_token(spec_split(value@, ';')) is Some,
        r matches Some(s) ==> spec_forwarded_token(spec_split(value@, ';')) matches Some(t) && s@
            == t,
{
    let vc = chars_of(value);
    let pieces = split_chars(&vc, ';');
    let ghost views = spec_split(value@, ';');
    let prefix = chars_of("for=");
    let mut j: usize = 0;
    proof {
        assert(views.skip(0) =~~= views);
        assert(spec_views(pieces@) == views);
    }
    while j < pieces.len()
        invariant
            j <= pieces@.len(),
            views == spec_views(pieces@),
            views == spec_split(value@, ';'),
            prefix@ == "for="@,
            spec_forwarded_token(views) == spec_forwarded_token(views.skip(j as int)),
        decreases pieces.len() - j,
    {
        proof {
            assert(views.skip(j as int)[0] == views[j as int]);
            assert(views[j as int] == pieces@[j as int]@);
            assert(views.skip(j as int).drop_first() =~~= views.skip(j + 1));
        }
        let t = trim_chars(&pieces[j]);
        if starts_with(&t, &prefix) {
            proof {
                assert("for="@.len() == 4) by {
                    reveal_strlit("for=");
                }
            }
            let rest = sub_chars(&t, 4, t.len());
            proof {
                assert(rest@ =~= spec_trim(views[j as int]).skip(4));
            }
            let token = strip_marks(&rest);
            proof {
                assert(spec_forwarded_token(views.skip(j as int)) == Option::Some(
                    spec_strip_marks(spec_trim(views[j as int]).skip(4)),
                ));
                assert(token@ == spec_strip_marks(spec_trim(views[j as int]).skip(4)));
            }
            return Option::Some(crate::text::string_from_chars(&token));
        }
        j = j + 1;
    }
    proof {
        assert(views.skip(pieces@.len() as int) =~~= Seq::<Seq<char>>::empty());
    }
    Option::None
}

/// Evaluates the standard `Forwarded` header.
fn candidate_forwarded(headers: &Vec<Header>) -> (r: Option<IpAddress>)
    ensures
        r == spec_candidate_forwarded(headers@),
{
    let name = chars_of("forwarded");
    match header_value(headers, &name) {
        Option::Some(v) => {
            match parse_forwarded_header(v.as_str()) {
                Option::Some(t) => {
                    let tc = chars_of(t.as_str());
                    accept_chars(&tc)
                },
                Option::None => Option::None,
            }
        },
        Option::None => Option::None,
    }
}

/// Chooses the client address from the headers and the peer address, in the
/// fixed trust order, falling back to the peer unconditionally.
pub fn get_real_ip(headers: &Vec<Header>, peer: &IpAddress) -> (r: IpAddress)
    ensures
        r == spec_resolve_client_ip(headers@, *peer),
{
    let n0 = chars_of("cf-connecting-ip");
    let n1 = chars_of("fastly-client-ip");
    let n2 = chars_of("x-azure-clientip");
    let n3 = chars_of("x-akamai-client-ip");
    let n4 = chars_of("true-client-ip");
    let n5 = chars_of("x-cdn-src-ip");
    proof {
        assert(spec_cdn_names()[0] == "cf-connecting-ip"@);
    }
    let cdn = {
        if let Option::Some(ip) = candidate_trimmed(headers, &n0) {
            Option::Some(ip)
        } else if let Option::Some(ip) = candidate_trimmed(headers, &n1) {
            Option::Some(ip)
        } else if let Option::Some(ip) = candidate_trimmed(headers, &n2) {
            Option::Some(ip)
        } else if let Option::Some(ip) = candidate_trimmed(headers, &n3) {
            Option::Some(ip)
        } else if let Option::Some(ip) = candidate_trimmed(headers, &n4) {
            Option::Some(ip)
        } else if let Option::Some(ip) = candidate_trimmed(headers, &n5) {
            Option::Some(ip)
        } else {
            Option::None
        }
    };
    proof {
        reveal_with_fuel(spec_first_cdn, 8);
        assert(cdn == spec_first_cdn(headers@, 0));
    }
    if let Option::Some(ip) = cdn {
        return ip;
    }
    let real_name = chars_of("x-real-ip");
    if let Option::Some(ip) = candidate_plain(headers, &real_name) {
        return ip;
    }
    if let Option::Some(ip) = candidate_forwarded_for(headers) {
        return ip;
    }
    if let Option::Some(ip) = candidate_forwarded(headers) {
        return ip;
    }
    *peer
}

} // verus!
