//! Region and country names: localization choice, display suffixes, and the
//! abbreviated forms.
//!
//! A short name is derived by trimming the name and removing every
//! occurrence of the known administrative suffixes and ethnic-autonomous
//! qualifiers; what remains is returned whole when it has at most two
//! characters (which covers the municipalities and special administrative
//! regions, all two characters once stripped), and is cut to its first two
//! characters otherwise.

use vstd::prelude::*;
use crate::models::CountryRecord;
use crate::models::LangName;
use crate::text::chars_eq;
use crate::text::chars_of;
use crate::text::ends_with;
use crate::text::remove_all;
use crate::text::spec_ends_with;
use crate::text::spec_has_substring;
use crate::text::spec_is_ws;
use crate::text::spec_matches_at;
use crate::text::spec_remove_all;
use crate::text::spec_trim;
use crate::text::string_from_chars;
use crate::text::sub_chars;
use crate::text::trim_chars;

verus! {

/// The administrative suffixes and qualifiers removed from a region name, in
/// removal order.
pub open spec fn spec_region_patterns() -> Seq<Seq<char>> {
    seq![
        seq!['省'],
        seq!['自', '治', '区'],
        seq!['维', '吾', '尔'],
        seq!['壮', '族'],
        seq!['回', '族'],
        seq!['市'],
        seq!['特', '别', '行', '政', '区'],
    ]
}

/// The name trimmed and with every suffix occurrence removed.
pub open spec fn spec_strip_region_name(s: Seq<char>) -> Seq<char> {
    let ps = spec_region_patterns();
    spec_remove_all(
        spec_remove_all(
            spec_remove_all(
                spec_remove_all(
                    spec_remove_all(
                        spec_remove_all(spec_remove_all(spec_trim(s), ps[0]), ps[1]),
                        ps[2],
                    ),
                    ps[3],
                ),
                ps[4],
            ),
            ps[5],
        ),
        ps[6],
    )
}

/// The abbreviated form of a region name.
pub open spec fn spec_short_name(s: Seq<char>) -> Seq<char> {
    let t = spec_strip_region_name(s);
    if t.len() <= 2 {
        t
    } else {
        t.take(2)
    }
}

fn strip_region_name(v: &Vec<char>) -> (r: Vec<char>)
    ensures
        r@ == spec_strip_region_name(v@),
{
    let t0 = trim_chars(v);
    let mut pat: Vec<char> = Vec::new();
    pat.push('省');
    proof {
        assert(pat@ =~= spec_region_patterns()[0]);
    }
    let t1 = remove_all(&t0, &pat);
    let mut pat: Vec<char> = Vec::new();
    pat.push('自');
    pat.push('治');
    pat.push('区');
    proof {
        assert(pat@ =~= spec_region_patterns()[1]);
    }
    let t2 = remove_all(&t1, &pat);
    let mut pat: Vec<char> = Vec::new();
    pat.push('维');
    pat.push('吾');
    pat.push('尔');
    proof {
        assert(pat@ =~= spec_region_patterns()[2]);
    }
    let t3 = remove_all(&t2, &pat);
    let mut pat: Vec<char> = Vec::new();
    pat.push('壮');
    pat.push('族');
    proof {
        assert(pat@ =~= spec_region_patterns()[3]);
    }
    let t4 = remove_all(&t3, &pat);
    let mut pat: Vec<char> = Vec::new();
    pat.push('回');
    pat.push('族');
    proof {
        assert(pat@ =~= spec_region_patterns()[4]);
    }
    let t5 = remove_all(&t4, &pat);
    let mut pat: Vec<char> = Vec::new();
    pat.push('市');
    proof {
        assert(pat@ =~= spec_region_patterns()[5]);
    }
    let t6 = remove_all(&t5, &pat);
    let mut pat: Vec<char> = Vec::new();
    pat.push('特');
    pat.push('别');
    pat.push('行');
    pat.push('政');
    pat.push('区');
    proof {
        assert(pat@ =~= spec_region_patterns()[6]);
    }
    remove_all(&t6, &pat)
}

/// Abbreviates a region name.
pub fn get_short_name(name: &str) -> (r: String)
    ensures
        r@ == spec_short_name(name@),
{
    let v = chars_of(name);
    let t = strip_region_name(&v);
    if t.len() <= 2 {
        string_from_chars(&t)
    } else {
        let h = sub_chars(&t, 0, 2);
        proof {
            assert(h@ =~= spec_strip_region_name(name@).take(2));
        }
        string_from_chars(&h)
    }
}

/// A name free of whitespace and of every administrative suffix; short names
/// keep this shape.
pub open spec fn spec_region_clean(s: Seq<char>) -> bool {
    &&& forall|i: int| 0 <= i < s.len() ==> !spec_is_ws(s[i])
    &&& forall|k: int|
        0 <= k < spec_region_patterns().len() ==> !spec_has_substring(
            s,
            spec_region_patterns()[k],
        )
}

proof fn lemma_matches_transfer(s: Seq<char>, p: Seq<char>, a: int, b: int, i: int)
    requires
        0 <= a <= b <= s.len(),
        spec_matches_at(s.subrange(a, b), p, i),
    ensures
        spec_matches_at(s, p, a + i),
    decreases 0int,
{
    assert(s.subrange(a + i, a + i + p.len()) =~= s.subrange(a, b).subrange(i, i + p.len()));
}

proof fn lemma_no_sub_in_subrange(s: Seq<char>, p: Seq<char>, a: int, b: int)
    requires
        0 <= a <= b <= s.len(),
        !spec_has_substring(s, p),
    ensures
        !spec_has_substring(s.subrange(a, b), p),
{
    assert forall|i: int| !spec_matches_at(s.subrange(a, b), p, i) by {
        if spec_matches_at(s.subrange(a, b), p, i) {
            lemma_matches_transfer(s, p, a, b, i);
        }
    }
}

proof fn lemma_remove_all_id(s: Seq<char>, p: Seq<char>)
    requires
        p.len() > 0,
        !spec_has_substring(s, p),
    ensures
        spec_remove_all(s, p) == s,
    decreases s.len(),
{
    if s.len() < p.len() {
    } else if s.subrange(0, p.len() as int) == p {
        assert(spec_matches_at(s, p, 0));
        assert(false);
    } else {
        assert(s.drop_first() =~= s.subrange(1, s.len() as int));
        lemma_no_sub_in_subrange(s, p, 1, s.len() as int);
        lemma_remove_all_id(s.drop_first(), p);
        assert(seq![s[0]] + s.drop_first() =~= s);
    }
}

proof fn lemma_strip_clean_id(s: Seq<char>)
    requires
        spec_region_clean(s),
    ensures
        spec_strip_region_name(s) == s,
{
    assert(spec_trim(s) == s);
    let ps = spec_region_patterns();
    assert(ps[0].len() > 0 && ps[1].len() > 0 && ps[2].len() > 0 && ps[3].len() > 0 && ps[4].len()
        > 0 && ps[5].len() > 0 && ps[6].len() > 0);
    lemma_remove_all_id(s, ps[0]);
    lemma_remove_all_id(s, ps[1]);
    lemma_remove_all_id(s, ps[2]);
    lemma_remove_all_id(s, ps[3]);
    lemma_remove_all_id(s, ps[4]);
    lemma_remove_all_id(s, ps[5]);
    lemma_remove_all_id(s, ps[6]);
}

/// Abbreviating is idempotent: on a name already free of whitespace and of
/// the administrative suffixes, such as any short name over such names,
/// abbreviating a second time changes nothing.
pub proof fn lemma_short_name_idempotent(s: Seq<char>)
    requires
        spec_region_clean(s),
    ensures
        spec_short_name(spec_short_name(s)) == spec_short_name(s),
{
    lemma_strip_clean_id(s);
    let y = spec_short_name(s);
    if s.len() <= 2 {
        assert(y == s);
        lemma_strip_clean_id(y);
    } else {
        assert(y == s.take(2));
        assert(forall|i: int| 0 <= i < y.len() ==> !spec_is_ws(y[i]));
        assert(y =~= s.subrange(0, 2));
        assert forall|k: int|
            0 <= k < spec_region_patterns().len() implies !spec_has_substring(
            y,
            spec_region_patterns()[k],
        ) by {
            lemma_no_sub_in_subrange(s, spec_region_patterns()[k], 0, 2);
        }
        lemma_strip_clean_id(y);
    }
}

/// The display form of a province-level name: the provincial suffix is
/// appended unless the name already ends in one of the provincial suffixes.
pub open spec fn spec_province_display(name: Seq<char>) -> Seq<char> {
    if spec_ends_with(name, seq!['省']) || spec_ends_with(name, seq!['自', '治', '区'])
        || spec_ends_with(name, seq!['特', '别', '行', '政', '区']) {
        name
    } else {
        name + seq!['省']
    }
}

/// The display form of a city-level name: the city suffix is appended unless
/// already present.
pub open spec fn spec_city_display(name: Seq<char>) -> Seq<char> {
    if spec_ends_with(name, seq!['市']) {
        name
    } else {
        name + seq!['市']
    }
}

/// Writes the display form of a province-level name.
pub fn province_display(name: &str) -> (r: String)
    ensures
        r@ == spec_province_display(name@),
{
    let v = chars_of(name);
    let mut p1: Vec<char> = Vec::new();
    p1.push('省');
    let mut p2: Vec<char> = Vec::new();
    p2.push('自');
    p2.push('治');
    p2.push('区');
    let mut p3: Vec<char> = Vec::new();
    p3.push('特');
    p3.push('别');
    p3.push('行');
    p3.push('政');
    p3.push('区');
    proof {
        assert(p1@ =~= seq!['省']);
        assert(p2@ =~= seq!['自', '治', '区']);
        assert(p3@ =~= seq!['特', '别', '行', '政', '区']);
    }
    if ends_with(&v, &p1) || ends_with(&v, &p2) || ends_with(&v, &p3) {
        string_from_chars(&v)
    } else {
        let mut out = v;
        out.push('省');
        proof {
            assert(out@ =~= name@ + seq!['省']);
        }
        string_from_chars(&out)
    }
}

/// Writes the display form of a city-level name.
pub fn city_display(name: &str) -> (r: String)
    ensures
        r@ == spec_city_display(name@),
{
    let v = chars_of(name);
    let mut p1: Vec<char> = Vec::new();
    p1.push('市');
    proof {
        assert(p1@ =~= seq!['市']);
    }
    if ends_with(&v, &p1) {
        string_from_chars(&v)
    } else {
        let mut out = v;
        out.push('市');
        proof {
            assert(out@ =~= name@ + seq!['市']);
        }
        string_from_chars(&out)
    }
}

/// The name under the first of the given languages that the table holds.
pub open spec fn spec_lookup_lang(entries: Seq<LangName>, lang: Seq<char>) -> Option<Seq<char>>
    decreases entries.len(),
{
    if entries.len() == 0 {
        None
    } else if entries[0].lang@ == lang {
        Some(entries[0].name@)
    } else {
        spec_lookup_lang(entries.drop_first(), lang)
    }
}

/// The localized description: the name under the first language, in the
/// given preference order, that the table holds; empty when the table is
/// absent or holds none of them.
pub open spec fn spec_get_des(names: Option<Seq<LangName>>, langs: Seq<Seq<char>>) -> Seq<char>
    decreases langs.len(),
{
    match names {
        Option::None => Seq::<char>::empty(),
        Option::Some(entries) => {
            if langs.len() == 0 {
                Seq::<char>::empty()
            } else {
                match spec_lookup_lang(entries, langs[0]) {
                    Option::Some(n) => n,
                    Option::None => spec_get_des(names, langs.drop_first()),
                }
            }
        },
    }
}

/// The view of an optional name table.
pub open spec fn spec_names_view(o: Option<Vec<LangName>>) -> Option<Seq<LangName>> {
    match o {
        Option::None => Option::None,
        Option::Some(v) => Option::Some(v@),
    }
}

/// The views of a list of language codes.
pub open spec fn spec_string_views(ls: Seq<String>) -> Seq<Seq<char>> {
    ls.map_values(|s: String| s@)
}

/// Picks the description under the first of the given languages present.
pub fn get_des(names: &Option<Vec<LangName>>, langs: &Vec<String>) -> (r: String)
    ensures
        r@ == spec_get_des(spec_names_view(*names), spec_string_views(langs@)),
{
    match names {
        Option::None => String::new(),
        Option::Some(entries) => {
            let ghost lviews = spec_string_views(langs@);
            proof {
                assert(spec_names_view(*names) == Option::Some(entries@));
                assert(lviews.skip(0) =~= lviews);
            }
            let mut i: usize = 0;
            while i < langs.len()
                invariant
                    i <= langs@.len(),
                    spec_names_view(*names) == Option::Some(entries@),
                    lviews == spec_string_views(langs@),
                    lviews.len() == langs@.len(),
                    spec_get_des(Option::Some(entries@), lviews) == spec_get_des(
                        Option::Some(entries@),
                        lviews.skip(i as int),
                    ),
                decreases langs.len() - i,
            {
                let lang = chars_of(langs[i].as_str());
                proof {
                    assert(entries@.skip(0) =~= entries@);
                }
                let mut j: usize = 0;
                while j < entries.len()
                    invariant
                        j <= entries@.len(),
                        spec_names_view(*names) == Option::Some(entries@),
                        lang@ == langs@[i as int]@,
                        spec_get_des(Option::Some(entries@), lviews) == spec_get_des(
                            Option::Some(entries@),
                            lviews.skip(i as int),
                        ),
                        i < langs@.len(),
                        lviews == spec_string_views(langs@),
                        spec_lookup_lang(entries@, lang@) == spec_lookup_lang(
                            entries@.skip(j as int),
                            lang@,
                        ),
                    decreases entries.len() - j,
                {
                    let key = chars_of(entries[j].lang.as_str());
                    proof {
                        assert(entries@.skip(j as int)[0] == entries@[j as int]);
                        assert(entries@.skip(j as int).drop_first() =~= entries@.skip(j + 1));
                    }
                    if chars_eq(&key, &lang) {
                        proof {
                            assert(entries@.skip(j as int)[0].lang@ == lang@);
                            assert(spec_lookup_lang(entries@.skip(j as int), lang@) == Some(
                                entries@[j as int].name@,
                            ));
                            assert(spec_lookup_lang(entries@, lang@) == Some(
                                entries@[j as int].name@,
                            ));
                            assert(lviews.skip(i as int)[0] == lviews[i as int]);
                            assert(lviews[i as int] == langs@[i as int]@);
                            assert(lviews.skip(i as int).len() > 0);
                            assert(spec_get_des(Option::Some(entries@), lviews.skip(i as int))
                                == entries@[j as int].name@);
                            assert(spec_names_view(*names) == Option::Some(entries@));
                        }
                        return entries[j].name.clone();
                    }
                    j = j + 1;
                }
                proof {
                    assert(entries@.skip(entries@.len() as int) =~= Seq::<LangName>::empty());
                    assert(spec_lookup_lang(entries@, lang@) is None);
                    assert(lviews.skip(i as int)[0] == lviews[i as int]);
                    assert(lviews[i as int] == langs@[i as int]@);
                    assert(lviews.skip(i as int).drop_first() =~= lviews.skip(i + 1));
                }
                i = i + 1;
            }
            proof {
                assert(lviews.skip(langs@.len() as int) =~= Seq::<Seq<char>>::empty());
            }
            String::new()
        },
    }
}

/// The name a table holds under one language, if any.
pub open spec fn spec_lang_of(names: Option<Seq<LangName>>, lang: Seq<char>) -> Option<Seq<char>> {
    match names {
        Option::None => Option::None,
        Option::Some(es) => spec_lookup_lang(es, lang),
    }
}

/// Looks one language up in an optional name table.
pub fn lookup_lang(names: &Option<Vec<LangName>>, lang: &str) -> (r: Option<String>)
    ensures
        r is Some <==> spec_lang_of(spec_names_view(*names), lang@) is Some,
        r matches Some(s) ==> spec_lang_of(spec_names_view(*names), lang@) matches Some(v) && s@
            == v,
{
    match names {
        Option::None => Option::None,
        Option::Some(entries) => {
            let lv = chars_of(lang);
            proof {
                assert(entries@.skip(0) =~= entries@);
            }
            let mut j: usize = 0;
            while j < entries.len()
                invariant
                    j <= entries@.len(),
                    lv@ == lang@,
                    spec_names_view(*names) == Option::Some(entries@),
                    spec_lookup_lang(entries@, lang@) == spec_lookup_lang(
                        entries@.skip(j as int),
                        lang@,
                    ),
                decreases entries.len() - j,
            {
                proof {
                    assert(entries@.skip(j as int)[0] == entries@[j as int]);
                    assert(entries@.skip(j as int).drop_first() =~= entries@.skip(j + 1));
                }
                let key = chars_of(entries[j].lang.as_str());
                if chars_eq(&key, &lv) {
                    return Option::Some(entries[j].name.clone());
                }
                j = j + 1;
            }
            proof {
                assert(entries@.skip(entries@.len() as int) =~= Seq::<LangName>::empty());
            }
            Option::None
        },
    }
}

/// The localized country name: the fixed display names for the Hong Kong,
/// Macau and Taiwan codes, else the first of the Chinese or English names
/// present, else empty.
pub open spec fn spec_get_country(c: CountryRecord) -> Seq<char> {
    let fallback = spec_get_des(spec_names_view(c.names), seq!["zh-CN"@, "en"@]);
    match c.iso_code {
        Option::Some(code) => {
            if code@ == "HK"@ {
                "中国香港"@
            } else if code@ == "MO"@ {
                "中国澳门"@
            } else if code@ == "TW"@ {
                "中国台湾"@
            } else {
                fallback
            }
        },
        Option::None => fallback,
    }
}

/// Picks the localized country name.
pub fn get_country(c: &CountryRecord) -> (r: String)
    ensures
        r@ == spec_get_country(*c),
{
    match &c.iso_code {
        Option::Some(code) => {
            let cv = chars_of(code.as_str());
            let hk = chars_of("HK");
            let mo = chars_of("MO");
            let tw = chars_of("TW");
            if chars_eq(&cv, &hk) {
                "中国香港".to_owned()
            } else if chars_eq(&cv, &mo) {
                "中国澳门".to_owned()
            } else if chars_eq(&cv, &tw) {
                "中国台湾".to_owned()
            } else {
                country_name_fallback(c)
            }
        },
        Option::None => country_name_fallback(c),
    }
}

fn country_name_fallback(c: &CountryRecord) -> (r: String)
    ensures
        r@ == spec_get_des(spec_names_view(c.names), seq!["zh-CN"@, "en"@]),
{
    let mut langs: Vec<String> = Vec::new();
    langs.push("zh-CN".to_owned());
    langs.push("en".to_owned());
    proof {
        assert(spec_string_views(langs@) =~= seq!["zh-CN"@, "en"@]);
    }
    get_des(&c.names, &langs)
}

} // verus!
