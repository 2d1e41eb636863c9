//! Text handled as sequences of characters.
//!
//! Every string rule of the library (trimming, splitting, keyword search,
//! suffix removal, case folding) is stated over `Seq<char>` and computed on
//! `Vec<char>`, so each operation carries an exact contract.

use vstd::prelude::*;

verus! {

pub open spec fn spec_is_ws(c: char) -> bool {
    c == ' ' || c == '\t' || c == '\n' || c == '\r'
}

pub open spec fn spec_is_digit(c: char) -> bool {
    '0' <= c && c <= '9'
}

pub open spec fn spec_is_ascii_alpha(c: char) -> bool {
    ('a' <= c && c <= 'z') || ('A' <= c && c <= 'Z')
}

pub open spec fn spec_is_hex_digit(c: char) -> bool {
    spec_is_digit(c) || ('a' <= c && c <= 'f') || ('A' <= c && c <= 'F')
}

/// ASCII upper-case letters fold to lower case; all else is unchanged.
pub open spec fn spec_lower_char(c: char) -> char {
    if c == 'A' {
        'a'
    } else if c == 'B' {
        'b'
    } else if c == 'C' {
        'c'
    } else if c == 'D' {
        'd'
    } else if c == 'E' {
        'e'
    } else if c == 'F' {
        'f'
    } else if c == 'G' {
        'g'
    } else if c == 'H' {
        'h'
    } else if c == 'I' {
        'i'
    } else if c == 'J' {
        'j'
    } else if c == 'K' {
        'k'
    } else if c == 'L' {
        'l'
    } else if c == 'M' {
        'm'
    } else if c == 'N' {
        'n'
    } else if c == 'O' {
        'o'
    } else if c == 'P' {
        'p'
    } else if c == 'Q' {
        'q'
    } else if c == 'R' {
        'r'
    } else if c == 'S' {
        's'
    } else if c == 'T' {
        't'
    } else if c == 'U' {
        'u'
    } else if c == 'V' {
        'v'
    } else if c == 'W' {
        'w'
    } else if c == 'X' {
        'x'
    } else if c == 'Y' {
        'y'
    } else if c == 'Z' {
        'z'
    } else {
        c
    }
}

pub open spec fn spec_lower(s: Seq<char>) -> Seq<char> {
    s.map_values(|c: char| spec_lower_char(c))
}

pub fn lower_char(c: char) -> (r: char)
    ensures
        r == spec_lower_char(c),
{
    if 'A' <= c && c <= 'Z' {
        if c == 'A' {
            'a'
        } else if c == 'B' {
            'b'
        } else if c == 'C' {
            'c'
        } else if c == 'D' {
            'd'
        } else if c == 'E' {
            'e'
        } else if c == 'F' {
            'f'
        } else if c == 'G' {
            'g'
        } else if c == 'H' {
            'h'
        } else if c == 'I' {
            'i'
        } else if c == 'J' {
            'j'
        } else if c == 'K' {
            'k'
        } else if c == 'L' {
            'l'
        } else if c == 'M' {
            'm'
        } else if c == 'N' {
            'n'
        } else if c == 'O' {
            'o'
        } else if c == 'P' {
            'p'
        } else if c == 'Q' {
            'q'
        } else if c == 'R' {
            'r'
        } else if c == 'S' {
            's'
        } else if c == 'T' {
            't'
        } else if c == 'U' {
            'u'
        } else if c == 'V' {
            'v'
        } else if c == 'W' {
            'w'
        } else if c == 'X' {
            'x'
        } else if c == 'Y' {
            'y'
        } else {
            'z'
        }
    } else {
        c
    }
}

/// Folds a text to lower case, character by character.
pub fn lower_chars(v: &Vec<char>) -> (r: Vec<char>)
    ensures
        r@ == spec_lower(v@),
{
    let mut r: Vec<char> = Vec::new();
    let mut i: usize = 0;
    while i < v.len()
        invariant
            i <= v.len(),
            r@ == spec_lower(v@.take(i as int)),
        decreases v.len() - i,
    {
        r.push(lower_char(v[i]));
        proof {
            assert(spec_lower(v@.take(i + 1 as int)) =~= spec_lower(v@.take(i as int)).push(
                spec_lower_char(v@[i as int]),
            ));
        }
        i = i + 1;
    }
    proof {
        assert(v@.take(v@.len() as int) =~= v@);
    }
    r
}

/// Reads a string into its sequence of characters.
pub fn chars_of(s: &str) -> (r: Vec<char>)
    ensures
        r@ == s@,
{
    let n = s.unicode_len();
    let mut r: Vec<char> = Vec::new();
    let mut i: usize = 0;
    while i < n
        invariant
            i <= n,
            n == s@.len(),
            r@ == s@.take(i as int),
        decreases n - i,
    {
        let c = s.get_char(i);
        r.push(c);
        proof {
            assert(r@ =~= s@.take(i + 1 as int));
        }
        i = i + 1;
    }
    proof {
        assert(s@.take(n as int) =~= s@);
    }
    r
}

/// Relies on `String::push` from std: appends exactly the one character.
#[verifier::external_body]
fn push_char(s: &mut String, c: char)
    ensures
        final(s)@ == old(s)@.push(c),
{
    s.push(c);
}

/// Builds a string holding exactly the given characters.
pub fn string_from_chars(v: &Vec<char>) -> (r: String)
    ensures
        r@ == v@,
{
    let mut r = String::new();
    let mut i: usize = 0;
    while i < v.len()
        invariant
            i <= v.len(),
            r@ == v@.take(i as int),
        decreases v.len() - i,
    {
        push_char(&mut r, v[i]);
        proof {
            assert(r@ =~= v@.take(i + 1 as int));
        }
        i = i + 1;
    }
    proof {
        assert(v@.take(v@.len() as int) =~= v@);
    }
    r
}

/// Copies the characters of `v` between `from` and `to`.
pub fn sub_chars(v: &Vec<char>, from: usize, to: usize) -> (r: Vec<char>)
    requires
        from <= to <= v@.len(),
    ensures
        r@ == v@.subrange(from as int, to as int),
{
    let mut r: Vec<char> = Vec::new();
    let mut i: usize = from;
    while i < to
        invariant
            from <= i <= to <= v@.len(),
            r@ == v@.subrange(from as int, i as int),
        decreases to - i,
    {
        r.push(v[i]);
        proof {
            assert(r@ =~= v@.subrange(from as int, i + 1 as int));
        }
        i = i + 1;
    }
    r
}

pub open spec fn spec_trim_start(s: Seq<char>) -> Seq<char>
    decreases s.len(),
{
    if s.len() > 0 && spec_is_ws(s[0]) {
        spec_trim_start(s.drop_first())
    } else {
        s
    }
}

pub open spec fn spec_trim_end(s: Seq<char>) -> Seq<char>
    decreases s.len(),
{
    if s.len() > 0 && spec_is_ws(s[s.len() - 1]) {
        spec_trim_end(s.drop_last())
    } else {
        s
    }
}

/// Text with leading and trailing whitespace removed.
pub open spec fn spec_trim(s: Seq<char>) -> Seq<char> {
    spec_trim_end(spec_trim_start(s))
}

proof fn lemma_trim_start_skip(s: Seq<char>, i: int)
    requires
        0 <= i <= s.len(),
        forall|j: int| 0 <= j < i ==> spec_is_ws(s[j]),
    ensures
        spec_trim_start(s) == spec_trim_start(s.skip(i)),
    decreases i,
{
    if i > 0 {
        assert(s.skip(0) =~= s);
        assert(spec_trim_start(s) == spec_trim_start(s.drop_first()));
        assert(s.drop_first() =~= s.skip(1));
        lemma_trim_start_skip(s.skip(1), i - 1);
        assert(s.skip(1).skip(i - 1) =~= s.skip(i));
    } else {
        assert(s.skip(0) =~= s);
    }
}

proof fn lemma_trim_end_take(s: Seq<char>, i: int)
    requires
        0 <= i <= s.len(),
        forall|j: int| i <= j < s.len() ==> spec_is_ws(s[j]),
    ensures
        spec_trim_end(s) == spec_trim_end(s.take(i)),
    decreases s.len() - i,
{
    if i < s.len() {
        assert(spec_trim_end(s) == spec_trim_end(s.drop_last()));
        assert(s.drop_last() =~= s.take(s.len() - 1));
        lemma_trim_end_take(s.take(s.len() - 1), i);
        assert(s.take(s.len() - 1).take(i) =~= s.take(i));
    } else {
        assert(s.take(i) =~= s);
    }
}

/// Removes leading and trailing whitespace.
pub fn trim_chars(v: &Vec<char>) -> (r: Vec<char>)
    ensures
        r@ == spec_trim(v@),
{
    let mut start: usize = 0;
    while start < v.len() && is_ws(v[start])
        invariant
            start <= v@.len(),
            forall|j: int| 0 <= j < start ==> spec_is_ws(v@[j]),
        decreases v.len() - start,
    {
        start = start + 1;
    }
    proof {
        lemma_trim_start_skip(v@, start as int);
        assert(spec_trim_start(v@.skip(start as int)) == v@.skip(start as int));
    }
    let mut end: usize = v.len();
    while end > start && is_ws(v[end - 1])
        invariant
            start <= end <= v@.len(),
            forall|j: int| end <= j < v@.len() ==> spec_is_ws(v@[j]),
            spec_trim_start(v@) == v@.skip(start as int),
        decreases end,
    {
        end = end - 1;
    }
    proof {
        let tail = v@.skip(start as int);
        lemma_trim_end_take(tail, end - start);
        assert(tail.take(end - start) =~= v@.subrange(start as int, end as int));
        assert(spec_trim_end(v@.subrange(start as int, end as int)) == v@.subrange(
            start as int,
            end as int,
        ));
    }
    sub_chars(v, start, end)
}

fn is_ws(c: char) -> (r: bool)
    ensures
        r == spec_is_ws(c),
{
    c == ' ' || c == '\t' || c == '\n' || c == '\r'
}

/// The pattern `p` occurs in `s` starting at position `i`.
pub open spec fn spec_matches_at(s: Seq<char>, p: Seq<char>, i: int) -> bool {
    0 <= i && i + p.len() <= s.len() && s.subrange(i, i + p.len()) == p
}

/// The pattern `p` occurs somewhere in `s`.
pub open spec fn spec_has_substring(s: Seq<char>, p: Seq<char>) -> bool {
    exists|i: int| spec_matches_at(s, p, i)
}

/// Decides whether `p` occurs in `v` at position `i`.
pub fn matches_at(v: &Vec<char>, p: &Vec<char>, i: usize) -> (r: bool)
    requires
        i <= v@.len(),
    ensures
        r == spec_matches_at(v@, p@, i as int),
{
    if p.len() > v.len() - i {
        return false;
    }
    let n = v.len();
    let mut j: usize = 0;
    while j < p.len()
        invariant
            j <= p@.len(),
            i + p@.len() <= v@.len(),
            n == v@.len(),
            forall|k: int| 0 <= k < j ==> v@[i + k] == p@[k],
        decreases p.len() - j,
    {
        if v[i + j] != p[j] {
            proof {
                assert(v@.subrange(i as int, i + p@.len())[j as int] == v@[i + j]);
            }
            return false;
        }
        j = j + 1;
    }
    proof {
        assert(v@.subrange(i as int, i + p@.len()) =~= p@);
    }
    true
}

/// Decides whether `p` occurs anywhere in `v`.
pub fn has_substring(v: &Vec<char>, p: &Vec<char>) -> (r: bool)
    ensures
        r == spec_has_substring(v@, p@),
{
    if p.len() > v.len() {
        proof {
            assert forall|k: int| !spec_matches_at(v@, p@, k) by {}
        }
        return false;
    }
    if p.len() == 0 {
        proof {
            assert(v@.subrange(0, 0) =~= p@);
            assert(spec_matches_at(v@, p@, 0));
        }
        return true;
    }
    let n = v.len();
    let last = n - p.len();
    let mut i: usize = 0;
    while i <= last
        invariant
            i <= last + 1,
            n == v@.len(),
            p@.len() >= 1,
            last + p@.len() == v@.len(),
            forall|k: int| 0 <= k < i ==> !spec_matches_at(v@, p@, k),
        decreases last + 1 - i,
    {
        if matches_at(v, p, i) {
            return true;
        }
        i = i + 1;
    }
    proof {
        assert forall|k: int| !spec_matches_at(v@, p@, k) by {
            if 0 <= k && k + p@.len() <= v@.len() {
                assert(k < i);
            }
        }
    }
    false
}

/// The text with every occurrence of `p` removed, scanning left to right.
pub open spec fn spec_remove_all(s: Seq<char>, p: Seq<char>) -> Seq<char>
    decreases s.len(),
{
    if p.len() == 0 || s.len() < p.len() {
        s
    } else if s.subrange(0, p.len() as int) == p {
        spec_remove_all(s.skip(p.len() as int), p)
    } else {
        seq![s[0]] + spec_remove_all(s.drop_first(), p)
    }
}

/// Removes every occurrence of `p` from `v`, scanning left to right.
pub fn remove_all(v: &Vec<char>, p: &Vec<char>) -> (r: Vec<char>)
    requires
        p@.len() > 0,
    ensures
        r@ == spec_remove_all(v@, p@),
{
    let mut r: Vec<char> = Vec::new();
    let mut i: usize = 0;
    proof {
        assert(v@.skip(0) =~= v@);
        assert(r@ + spec_remove_all(v@, p@) =~= spec_remove_all(v@, p@));
    }
    while i < v.len()
        invariant
            i <= v@.len(),
            p@.len() > 0,
            spec_remove_all(v@, p@) == r@ + spec_remove_all(v@.skip(i as int), p@),
        decreases v.len() - i,
    {
        let ghost rest = v@.skip(i as int);
        if matches_at(v, p, i) {
            proof {
                assert(rest.subrange(0, p@.len() as int) =~= v@.subrange(i as int, i + p@.len()));
                assert(rest.skip(p@.len() as int) =~= v@.skip(i + p@.len()));
            }
            i = i + p.len();
        } else {
            proof {
                if rest.len() >= p@.len() {
                    assert(rest.subrange(0, p@.len() as int) =~= v@.subrange(
                        i as int,
                        i + p@.len(),
                    ));
                    assert(rest.drop_first() =~= v@.skip(i + 1));
                    assert(spec_remove_all(rest, p@) == seq![v@[i as int]] + spec_remove_all(
                        v@.skip(i + 1),
                        p@,
                    ));
                } else {
                    assert(spec_remove_all(rest, p@) == rest);
                    assert(rest.drop_first() =~= v@.skip(i + 1));
                    assert(spec_remove_all(v@.skip(i + 1), p@) == v@.skip(i + 1));
                    assert(rest =~= seq![v@[i as int]] + v@.skip(i + 1));
                }
                assert(r@ + (seq![v@[i as int]] + spec_remove_all(v@.skip(i + 1), p@)) =~= r@.push(
                    v@[i as int],
                ) + spec_remove_all(v@.skip(i + 1), p@));
            }
            r.push(v[i]);
            i = i + 1;
        }
    }
    proof {
        assert(v@.skip(v@.len() as int) =~= Seq::<char>::empty());
        assert(r@ + Seq::<char>::empty() =~= r@);
    }
    r
}

/// The pieces of `s` between occurrences of the separator, in order; a text
/// with no separator is one piece, and adjacent separators yield empty pieces.
pub open spec fn spec_split(s: Seq<char>, sep: char) -> Seq<Seq<char>>
    decreases s.len(),
{
    if s.len() == 0 {
        seq![Seq::<char>::empty()]
    } else if s[0] == sep {
        seq![Seq::<char>::empty()] + spec_split(s.drop_first(), sep)
    } else {
        let rest = spec_split(s.drop_first(), sep);
        seq![seq![s[0]] + rest[0]] + rest.drop_first()
    }
}

pub proof fn lemma_split_len(s: Seq<char>, sep: char)
    ensures
        spec_split(s, sep).len() >= 1,
    decreases s.len(),
{
    if s.len() > 0 {
        lemma_split_len(s.drop_first(), sep);
    }
}

/// The views of a list of character vectors.
pub open spec fn spec_views(vs: Seq<Vec<char>>) -> Seq<Seq<char>> {
    vs.map_values(|x: Vec<char>| x@)
}

/// Splits `v` at every occurrence of the separator.
pub fn split_chars(v: &Vec<char>, sep: char) -> (r: Vec<Vec<char>>)
    ensures
        spec_views(r@) == spec_split(v@, sep),
{
    let mut r: Vec<Vec<char>> = Vec::new();
    let mut cur: Vec<char> = Vec::new();
    let mut i: usize = 0;
    proof {
        lemma_split_len(v@, sep);
        assert(v@.skip(0) =~= v@);
        assert(spec_glue(Seq::<char>::empty(), spec_split(v@, sep)) =~~= spec_split(v@, sep));
        assert(spec_views(r@) + spec_glue(cur@, spec_split(v@.skip(0), sep)) =~~= spec_glue(
            cur@,
            spec_split(v@.skip(0), sep),
        ));
    }
    while i < v.len()
        invariant
            i <= v@.len(),
            spec_split(v@, sep) == spec_views(r@) + spec_glue(cur@, spec_split(
                v@.skip(i as int),
                sep,
            )),
        decreases v.len() - i,
    {
        let ghost rest = v@.skip(i as int);
        proof {
            lemma_split_len(rest.drop_first(), sep);
            assert(rest.drop_first() =~= v@.skip(i + 1));
        }
        if v[i] == sep {
            proof {
                let tail_split = spec_split(v@.skip(i + 1), sep);
                assert(spec_split(rest, sep) == seq![Seq::<char>::empty()] + tail_split);
                assert(spec_glue(cur@, spec_split(rest, sep)) =~~= seq![cur@] + tail_split);
                assert(spec_views(r@.push(cur)) =~~= spec_views(r@).push(cur@));
                assert(spec_glue(Seq::<char>::empty(), tail_split)[0] =~= tail_split[0]);
                assert(spec_views(r@) + (seq![cur@] + tail_split) =~~= spec_views(r@.push(cur))
                    + spec_glue(Seq::<char>::empty(), tail_split));
            }
            r.push(cur);
            cur = Vec::new();
        } else {
            proof {
                let tail_split = spec_split(v@.skip(i + 1), sep);
                assert(spec_split(rest, sep) == seq![seq![rest[0]] + tail_split[0]]
                    + tail_split.drop_first());
                assert(rest[0] == v@[i as int]);
                assert(spec_glue(cur@, spec_split(rest, sep))[0] =~= cur@.push(v@[i as int])
                    + tail_split[0]);
                assert(spec_glue(cur@, spec_split(rest, sep)) =~~= spec_glue(
                    cur@.push(v@[i as int]),
                    tail_split,
                ));
            }
            let c = v[i];
            cur.push(c);
        }
        i = i + 1;
    }
    proof {
        assert(v@.skip(v@.len() as int) =~= Seq::<char>::empty());
        assert(spec_glue(cur@, spec_split(Seq::<char>::empty(), sep))[0] =~= cur@);
        assert(spec_glue(cur@, spec_split(Seq::<char>::empty(), sep)) =~~= seq![cur@]);
        assert(spec_views(r@.push(cur)) =~~= spec_views(r@).push(cur@));
        assert(spec_views(r@) + seq![cur@] =~~= spec_views(r@).push(cur@));
    }
    r.push(cur);
    r
}

/// A piece list with `cur` glued onto the front of its first piece.
pub open spec fn spec_glue(cur: Seq<char>, rest: Seq<Seq<char>>) -> Seq<Seq<char>>
    recommends
        rest.len() >= 1,
{
    seq![cur + rest[0]] + rest.drop_first()
}

/// Text equality up to ASCII case.
pub open spec fn spec_eq_ignore_case(a: Seq<char>, b: Seq<char>) -> bool {
    spec_lower(a) == spec_lower(b)
}

/// Compares two texts ignoring ASCII case.
pub fn eq_ignore_case(a: &Vec<char>, b: &Vec<char>) -> (r: bool)
    ensures
        r == spec_eq_ignore_case(a@, b@),
{
    if a.len() != b.len() {
        proof {
            assert(spec_lower(a@).len() == a@.len());
            assert(spec_lower(b@).len() == b@.len());
        }
        return false;
    }
    let mut i: usize = 0;
    while i < a.len()
        invariant
            i <= a@.len(),
            a@.len() == b@.len(),
            forall|k: int| 0 <= k < i ==> spec_lower_char(a@[k]) == spec_lower_char(b@[k]),
        decreases a.len() - i,
    {
        if lower_char(a[i]) != lower_char(b[i]) {
            proof {
                assert(spec_lower(a@)[i as int] != spec_lower(b@)[i as int]);
            }
            return false;
        }
        i = i + 1;
    }
    proof {
        assert(spec_lower(a@) =~= spec_lower(b@));
    }
    true
}

/// Whether `s` ends with the pattern `p`.
pub open spec fn spec_ends_with(s: Seq<char>, p: Seq<char>) -> bool {
    p.len() <= s.len() && s.subrange(s.len() - p.len(), s.len() as int) == p
}

/// Decides whether `v` ends with `p`.
pub fn ends_with(v: &Vec<char>, p: &Vec<char>) -> (r: bool)
    ensures
        r == spec_ends_with(v@, p@),
{
    if p.len() > v.len() {
        return false;
    }
    let start = v.len() - p.len();
    let r = matches_at(v, p, start);
    proof {
        assert(v@.subrange(v@.len() - p@.len(), v@.len() as int) =~= v@.subrange(
            start as int,
            start + p@.len(),
        ));
    }
    r
}

/// Decides whether two texts are equal.
pub fn chars_eq(a: &Vec<char>, b: &Vec<char>) -> (r: bool)
    ensures
        r == (a@ == b@),
{
    if a.len() != b.len() {
        return false;
    }
    let mut i: usize = 0;
    while i < a.len()
        invariant
            i <= a@.len(),
            a@.len() == b@.len(),
            forall|k: int| 0 <= k < i ==> a@[k] == b@[k],
        decreases a.len() - i,
    {
        if a[i] != b[i] {
            return false;
        }
        i = i + 1;
    }
    proof {
        assert(a@ =~= b@);
    }
    true
}

/// Whether `s` starts with the pattern `p`.
pub open spec fn spec_starts_with(s: Seq<char>, p: Seq<char>) -> bool {
    p.len() <= s.len() && s.subrange(0, p.len() as int) == p
}

/// Decides whether `v` starts with `p`.
pub fn starts_with(v: &Vec<char>, p: &Vec<char>) -> (r: bool)
    ensures
        r == spec_starts_with(v@, p@),
{
    if p.len() > v.len() {
        return false;
    }
    let r = matches_at(v, p, 0);
    proof {
        assert(v@.subrange(0, p@.len() as int) =~= v@.subrange(0 as int, 0 + p@.len() as int));
    }
    r
}

} // verus!
