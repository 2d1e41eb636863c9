//! Numbers read from and written as text: decimal values for version-4
//! octets and autonomous-system numbers, hexadecimal values for version-6
//! segments.

use vstd::prelude::*;
use crate::text::spec_is_digit;
use crate::text::spec_is_hex_digit;

verus! {

/// The value of a decimal digit character.
pub open spec fn spec_digit_val(c: char) -> int {
    c as u32 - 48
}

/// The value of a hexadecimal digit character, either case.
pub open spec fn spec_hex_val(c: char) -> int {
    if spec_is_digit(c) {
        c as u32 - 48
    } else if 'a' <= c && c <= 'f' {
        c as u32 - 87
    } else {
        c as u32 - 55
    }
}

pub open spec fn spec_all_digits(s: Seq<char>) -> bool {
    forall|i: int| 0 <= i < s.len() ==> spec_is_digit(s[i])
}

pub open spec fn spec_all_hex_digits(s: Seq<char>) -> bool {
    forall|i: int| 0 <= i < s.len() ==> spec_is_hex_digit(s[i])
}

/// The number denoted by a decimal digit string, most significant first.
pub open spec fn spec_dec_value(s: Seq<char>) -> int
    decreases s.len(),
{
    if s.len() == 0 {
        0
    } else {
        spec_dec_value(s.drop_last()) * 10 + spec_digit_val(s.last())
    }
}

/// The number denoted by a hexadecimal digit string, most significant first.
pub open spec fn spec_hex_value(s: Seq<char>) -> int
    decreases s.len(),
{
    if s.len() == 0 {
        0
    } else {
        spec_hex_value(s.drop_last()) * 16 + spec_hex_val(s.last())
    }
}

/// What a bounded decimal field parses to: defined exactly when the text is
/// one or more digits whose value does not exceed the bound.
pub open spec fn spec_parse_dec_u32(s: Seq<char>, bound: u32) -> Option<u32> {
    if s.len() >= 1 && spec_all_digits(s) && spec_dec_value(s) <= bound {
        Some(spec_dec_value(s) as u32)
    } else {
        None
    }
}

/// What a version-6 group parses to: one to four hexadecimal digits.
pub open spec fn spec_parse_hex_u16(s: Seq<char>) -> Option<u16> {
    if 1 <= s.len() <= 4 && spec_all_hex_digits(s) {
        Some(spec_hex_value(s) as u16)
    } else {
        None
    }
}

pub proof fn lemma_dec_value_nonneg(s: Seq<char>)
    requires
        spec_all_digits(s),
    ensures
        spec_dec_value(s) >= 0,
    decreases s.len(),
{
    if s.len() > 0 {
        assert(spec_all_digits(s.drop_last()));
        lemma_dec_value_nonneg(s.drop_last());
    }
}

proof fn lemma_dec_value_grows(s: Seq<char>, j: int, bound: int)
    requires
        0 <= j <= s.len(),
        bound >= 5,
        spec_dec_value(s.take(j)) > bound,
    ensures
        spec_dec_value(s) > bound,
    decreases s.len() - j,
{
    if j == s.len() {
        assert(s.take(j) =~= s);
    } else {
        let t = s.take(j + 1);
        assert(t.drop_last() =~= s.take(j));
        assert(t.last() == s[j]);
        assert(s[j] as u32 >= 0);
        assert(spec_dec_value(t) == spec_dec_value(s.take(j)) * 10 + spec_digit_val(s[j]));
        assert(spec_dec_value(s.take(j)) * 10 >= (bound + 1) * 10);
        assert(spec_dec_value(t) > bound);
        lemma_dec_value_grows(s, j + 1, bound);
    }
}

/// Reads a decimal number of at most `bound` from the whole text; any other
/// text, or a larger value, is rejected.
pub fn parse_dec_u32(v: &Vec<char>, bound: u32) -> (r: Option<u32>)
    requires
        bound >= 5,
    ensures
        r == spec_parse_dec_u32(v@, bound),
{
    if v.len() == 0 {
        return None;
    }
    let mut acc: u64 = 0;
    let mut i: usize = 0;
    proof {
        assert(v@.take(0) =~= Seq::<char>::empty());
    }
    while i < v.len()
        invariant
            i <= v@.len(),
            bound >= 5,
            forall|k: int| 0 <= k < i ==> spec_is_digit(v@[k]),
            acc == spec_dec_value(v@.take(i as int)),
            acc <= bound,
        decreases v.len() - i,
    {
        let c = v[i];
        if !('0' <= c && c <= '9') {
            return None;
        }
        let d: u64 = (c as u32 - 48) as u64;
        let next = acc * 10 + d;
        proof {
            assert(v@.take(i as int + 1).drop_last() =~= v@.take(i as int));
            assert(v@.take(i as int + 1).last() == v@[i as int]);
        }
        if next > bound as u64 {
            proof {
                lemma_dec_value_grows(v@, i as int + 1, bound as int);
            }
            return None;
        }
        acc = next;
        i = i + 1;
    }
    proof {
        assert(v@.take(v@.len() as int) =~= v@);
    }
    Some(acc as u32)
}

proof fn lemma_hex_value_bound(s: Seq<char>)
    requires
        spec_all_hex_digits(s),
        s.len() <= 4,
    ensures
        0 <= spec_hex_value(s) < 65536,
    decreases s.len(),
{
    if s.len() > 0 {
        assert(spec_all_hex_digits(s.drop_last()));
        lemma_hex_value_bound_aux(s.drop_last());
        assert(0 <= spec_hex_val(s.last()) < 16);
    }
}

proof fn lemma_hex_value_bound_aux(s: Seq<char>)
    requires
        spec_all_hex_digits(s),
        s.len() <= 3,
    ensures
        0 <= spec_hex_value(s) < 4096,
    decreases s.len(),
{
    if s.len() > 0 {
        assert(spec_all_hex_digits(s.drop_last()));
        lemma_hex_value_bound_aux2(s.drop_last());
        assert(0 <= spec_hex_val(s.last()) < 16);
    }
}

proof fn lemma_hex_value_bound_aux2(s: Seq<char>)
    requires
        spec_all_hex_digits(s),
        s.len() <= 2,
    ensures
        0 <= spec_hex_value(s) < 256,
    decreases s.len(),
{
    if s.len() > 0 {
        let p = s.drop_last();
        assert(spec_all_hex_digits(p));
        if p.len() > 0 {
            assert(spec_hex_value(p.drop_last()) == 0);
            assert(spec_hex_value(p) == spec_hex_val(p.last()));
            assert(0 <= spec_hex_val(p.last()) < 16);
        } else {
            assert(spec_hex_value(p) == 0);
        }
        assert(0 <= spec_hex_val(s.last()) < 16);
        assert(spec_hex_value(s) == spec_hex_value(p) * 16 + spec_hex_val(s.last()));
    }
}

/// Reads a version-6 group: one to four hexadecimal digits.
pub fn parse_hex_u16(v: &Vec<char>) -> (r: Option<u16>)
    ensures
        r == spec_parse_hex_u16(v@),
{
    if v.len() == 0 || v.len() > 4 {
        return None;
    }
    let mut acc: u32 = 0;
    let mut i: usize = 0;
    proof {
        assert(v@.take(0) =~= Seq::<char>::empty());
    }
    while i < v.len()
        invariant
            i <= v@.len() <= 4,
            forall|k: int| 0 <= k < i ==> spec_is_hex_digit(v@[k]),
            acc == spec_hex_value(v@.take(i as int)),
            acc < 65536,
        decreases v.len() - i,
    {
        let c = v[i];
        let d: u32 = if '0' <= c && c <= '9' {
            c as u32 - 48
        } else if 'a' <= c && c <= 'f' {
            c as u32 - 87
        } else if 'A' <= c && c <= 'F' {
            c as u32 - 55
        } else {
            return None;
        };
        proof {
            assert(v@.take(i as int + 1).drop_last() =~= v@.take(i as int));
            assert(v@.take(i as int + 1).last() == v@[i as int]);
            assert(spec_all_hex_digits(v@.take(i as int + 1)));
            lemma_hex_value_bound(v@.take(i as int + 1));
        }
        acc = acc * 16 + d;
        i = i + 1;
    }
    proof {
        assert(v@.take(v@.len() as int) =~= v@);
        lemma_hex_value_bound(v@);
    }
    Some(acc as u16)
}

/// The decimal digit character for a value below ten.
pub open spec fn spec_digit_char(d: int) -> char {
    if d == 0 {
        '0'
    } else if d == 1 {
        '1'
    } else if d == 2 {
        '2'
    } else if d == 3 {
        '3'
    } else if d == 4 {
        '4'
    } else if d == 5 {
        '5'
    } else if d == 6 {
        '6'
    } else if d == 7 {
        '7'
    } else if d == 8 {
        '8'
    } else {
        '9'
    }
}

/// The lower-case hexadecimal digit character for a value below sixteen.
pub open spec fn spec_hex_digit_char(d: int) -> char {
    if d < 10 {
        spec_digit_char(d)
    } else if d == 10 {
        'a'
    } else if d == 11 {
        'b'
    } else if d == 12 {
        'c'
    } else if d == 13 {
        'd'
    } else if d == 14 {
        'e'
    } else {
        'f'
    }
}

fn digit_char(d: u8) -> (r: char)
    requires
        d < 10,
    ensures
        r == spec_digit_char(d as int),
{
    if d == 0 {
        '0'
    } else if d == 1 {
        '1'
    } else if d == 2 {
        '2'
    } else if d == 3 {
        '3'
    } else if d == 4 {
        '4'
    } else if d == 5 {
        '5'
    } else if d == 6 {
        '6'
    } else if d == 7 {
        '7'
    } else if d == 8 {
        '8'
    } else {
        '9'
    }
}

fn hex_digit_char(d: u16) -> (r: char)
    requires
        d < 16,
    ensures
        r == spec_hex_digit_char(d as int),
{
    if d < 10 {
        digit_char(d as u8)
    } else if d == 10 {
        'a'
    } else if d == 11 {
        'b'
    } else if d == 12 {
        'c'
    } else if d == 13 {
        'd'
    } else if d == 14 {
        'e'
    } else {
        'f'
    }
}

/// The decimal digit string of a number, without leading zeros.
pub open spec fn spec_dec_digits(n: nat) -> Seq<char>
    decreases n,
{
    if n < 10 {
        seq![spec_digit_char(n as int)]
    } else {
        spec_dec_digits(n / 10).push(spec_digit_char((n % 10) as int))
    }
}

/// The lower-case hexadecimal digit string of a number, without leading zeros.
pub open spec fn spec_hex_digits(n: nat) -> Seq<char>
    decreases n,
{
    if n < 16 {
        seq![spec_hex_digit_char(n as int)]
    } else {
        spec_hex_digits(n / 16).push(spec_hex_digit_char((n % 16) as int))
    }
}

/// Writes an octet in decimal.
pub fn dec_chars_u8(x: u8) -> (r: Vec<char>)
    ensures
        r@ == spec_dec_digits(x as nat),
{
    let mut r: Vec<char> = Vec::new();
    proof {
        reveal_with_fuel(spec_dec_digits, 4);
    }
    if x >= 100 {
        proof {
            assert((x as nat / 10) / 10 == x as nat / 100) by (nonlinear_arith);
        }
        r.push(digit_char(x / 100));
        r.push(digit_char((x / 10) % 10));
        r.push(digit_char(x % 10));
        proof {
            assert(r@ =~= spec_dec_digits(x as nat));
        }
    } else if x >= 10 {
        r.push(digit_char(x / 10));
        r.push(digit_char(x % 10));
        proof {
            assert(r@ =~= spec_dec_digits(x as nat));
        }
    } else {
        r.push(digit_char(x));
        proof {
            assert(r@ =~= spec_dec_digits(x as nat));
        }
    }
    r
}

/// Writes a version-6 segment in lower-case hexadecimal.
pub fn hex_chars_u16(x: u16) -> (r: Vec<char>)
    ensures
        r@ == spec_hex_digits(x as nat),
{
    let mut r: Vec<char> = Vec::new();
    proof {
        reveal_with_fuel(spec_hex_digits, 5);
    }
    if x >= 4096 {
        proof {
            assert((x as nat / 16) / 16 == x as nat / 256) by (nonlinear_arith);
            assert((x as nat / 256) / 16 == x as nat / 4096) by (nonlinear_arith);
            assert((x as nat / 16) / 16 / 16 == x as nat / 4096) by (nonlinear_arith);
        }
        r.push(hex_digit_char(x / 4096));
        r.push(hex_digit_char((x / 256) % 16));
        r.push(hex_digit_char((x / 16) % 16));
        r.push(hex_digit_char(x % 16));
        proof {
            assert(r@ =~= spec_hex_digits(x as nat));
        }
    } else if x >= 256 {
        proof {
            assert((x as nat / 16) / 16 == x as nat / 256) by (nonlinear_arith);
        }
        r.push(hex_digit_char(x / 256));
        r.push(hex_digit_char((x / 16) % 16));
        r.push(hex_digit_char(x % 16));
        proof {
            assert(r@ =~= spec_hex_digits(x as nat));
        }
    } else if x >= 16 {
        r.push(hex_digit_char(x / 16));
        r.push(hex_digit_char(x % 16));
        proof {
            assert(r@ =~= spec_hex_digits(x as nat));
        }
    } else {
        r.push(hex_digit_char(x));
        proof {
            assert(r@ =~= spec_hex_digits(x as nat));
        }
    }
    r
}

} // verus!
