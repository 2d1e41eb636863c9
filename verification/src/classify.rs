//! The classification cache: autonomous-system numbers and organization-name
//! keywords mapped to a curated operator taxonomy.
//!
//! The cache is filled once from a dataset of entries, each carrying a
//! stringified autonomous-system number, a display name, a type tag, and
//! optional keywords; later entries for the same number win. Only entries
//! with a concrete tag feed the keyword table, and keywords are stored
//! folded to lower case. Lookup by keyword folds the query and takes the
//! first table entry whose keyword occurs in it, trying the provider table
//! before the organization table.

use vstd::prelude::*;
use std::collections::HashMap;
use crate::num::parse_dec_u32;
use crate::num::spec_parse_dec_u32;
use crate::text::chars_of;
use crate::text::has_substring;
use crate::text::lower_chars;
use crate::text::spec_has_substring;
use crate::text::spec_lower;
use crate::text::string_from_chars;

verus! {

broadcast use vstd::std_specs::hash::group_hash_axioms;

/// A network-type tag: a concrete operator category, or the catch-all.
#[derive(Debug, Clone)]
pub enum AsnType {
    Type(String),
    Other,
}

/// The tag as an optional text: the catch-all has none.
pub open spec fn spec_type_view(t: AsnType) -> Option<Seq<char>> {
    match t {
        AsnType::Type(s) => Option::Some(s@),
        AsnType::Other => Option::None,
    }
}

impl AsnType {
    /// Reads a tag from text; the empty text is the catch-all.
    pub fn from_str(s: &str) -> (r: AsnType)
        ensures
            spec_type_view(r) == spec_tag_of(s@),
    {
        if s.is_empty() {
            AsnType::Other
        } else {
            AsnType::Type(s.to_owned())
        }
    }

    /// Copies the tag.
    pub fn duplicate(&self) -> (r: AsnType)
        ensures
            r == *self,
    {
        match self {
            AsnType::Type(s) => AsnType::Type(s.clone()),
            AsnType::Other => AsnType::Other,
        }
    }
}

/// The tag a text denotes: the catch-all when empty.
pub open spec fn spec_tag_of(s: Seq<char>) -> Option<Seq<char>> {
    if s.len() == 0 {
        Option::None
    } else {
        Option::Some(s)
    }
}

/// What the cache knows of one autonomous system.
#[derive(Debug, Clone)]
pub struct AsnInfo {
    pub name: String,
    pub type_info: AsnType,
}

/// What the cache knows under one keyword.
#[derive(Debug, Clone)]
pub struct KeywordInfo {
    pub name: String,
    pub type_info: AsnType,
}

/// The two keyword tables: provider keywords first, organization keywords as
/// the fallback.
#[derive(Debug)]
pub struct KeywordCache {
    pub isp_entries: Vec<(String, KeywordInfo)>,
    pub org_entries: Vec<(String, KeywordInfo)>,
}

impl Default for KeywordCache {
    /// Two empty tables.
    fn default() -> (r: KeywordCache)
        ensures
            r.isp_entries@ == Seq::<(String, KeywordInfo)>::empty(),
            r.org_entries@ == Seq::<(String, KeywordInfo)>::empty(),
    {
        KeywordCache { isp_entries: Vec::new(), org_entries: Vec::new() }
    }
}

/// The classification store, built once before traffic is served and read
/// only thereafter.
#[derive(Debug)]
pub struct CacheManager {
    pub asn_cache: HashMap<u32, AsnInfo>,
    pub keyword_cache: KeywordCache,
}

/// The name and tag of one stored classification.
pub open spec fn spec_asn_info_view(a: AsnInfo) -> (Seq<char>, Option<Seq<char>>) {
    (a.name@, spec_type_view(a.type_info))
}

/// The number map at the level of texts.
pub open spec fn spec_asn_view_map(m: Map<u32, AsnInfo>) -> Map<u32, (Seq<char>, Option<Seq<char>>)> {
    Map::new(|k: u32| m.dom().contains(k), |k: u32| spec_asn_info_view(m[k]))
}

/// A keyword table at the level of texts: keyword, name, tag.
pub open spec fn spec_kw_views(es: Seq<(String, KeywordInfo)>) -> Seq<
    (Seq<char>, Seq<char>, Option<Seq<char>>),
> {
    es.map_values(|e: (String, KeywordInfo)| (e.0@, e.1.name@, spec_type_view(e.1.type_info)))
}

/// One dataset entry: a stringified number, a display name, a type tag, and
/// the keywords that should find this classification.
#[derive(Debug, Clone)]
pub struct AsnDatasetEntry {
    pub asn_text: String,
    pub name: String,
    pub type_text: String,
    pub keywords: Vec<String>,
}

/// The number an entry is keyed by, when its text is a decimal number.
pub open spec fn spec_entry_asn(e: AsnDatasetEntry) -> Option<u32> {
    spec_parse_dec_u32(e.asn_text@, u32::MAX)
}

/// The tag an entry carries.
pub open spec fn spec_entry_tag(e: AsnDatasetEntry) -> Option<Seq<char>> {
    spec_tag_of(e.type_text@)
}

/// One entry applied to the number map: a parseable entry is inserted, later
/// entries overwriting earlier ones; a malformed number is skipped.
pub open spec fn spec_load_step_map(
    m: Map<u32, (Seq<char>, Option<Seq<char>>)>,
    e: AsnDatasetEntry,
) -> Map<u32, (Seq<char>, Option<Seq<char>>)> {
    match spec_entry_asn(e) {
        Option::Some(k) => m.insert(k, (e.name@, spec_entry_tag(e))),
        Option::None => m,
    }
}

/// The number map after loading a dataset.
pub open spec fn spec_loaded_map(
    m: Map<u32, (Seq<char>, Option<Seq<char>>)>,
    es: Seq<AsnDatasetEntry>,
) -> Map<u32, (Seq<char>, Option<Seq<char>>)>
    decreases es.len(),
{
    if es.len() == 0 {
        m
    } else {
        spec_loaded_map(spec_load_step_map(m, es[0]), es.drop_first())
    }
}

/// The keyword rows one entry contributes: its keywords folded to lower
/// case, only when the entry is parseable and its tag is concrete.
pub open spec fn spec_entry_keywords(e: AsnDatasetEntry) -> Seq<
    (Seq<char>, Seq<char>, Option<Seq<char>>),
> {
    if spec_entry_asn(e) is Some && spec_entry_tag(e) is Some {
        e.keywords@.map_values(|kw: String| (spec_lower(kw@), e.name@, spec_entry_tag(e)))
    } else {
        Seq::<(Seq<char>, Seq<char>, Option<Seq<char>>)>::empty()
    }
}

/// The provider keyword table after loading a dataset.
pub open spec fn spec_loaded_keywords(
    ks: Seq<(Seq<char>, Seq<char>, Option<Seq<char>>)>,
    es: Seq<AsnDatasetEntry>,
) -> Seq<(Seq<char>, Seq<char>, Option<Seq<char>>)>
    decreases es.len(),
{
    if es.len() == 0 {
        ks
    } else {
        spec_loaded_keywords(ks + spec_entry_keywords(es[0]), es.drop_first())
    }
}

/// The first table row whose keyword occurs in the folded query.
pub open spec fn spec_keyword_find(
    es: Seq<(Seq<char>, Seq<char>, Option<Seq<char>>)>,
    text: Seq<char>,
) -> Option<(Seq<char>, Option<Seq<char>>)>
    decreases es.len(),
{
    if es.len() == 0 {
        Option::None
    } else if spec_has_substring(text, es[0].0) {
        Option::Some((es[0].1, es[0].2))
    } else {
        spec_keyword_find(es.drop_first(), text)
    }
}

/// The classification a keyword query resolves to: the provider table is
/// searched first, the organization table only when it misses.
pub open spec fn spec_keyword_result(c: CacheManager, text: Seq<char>) -> Option<
    (Seq<char>, Option<Seq<char>>),
> {
    let t = spec_lower(text);
    match spec_keyword_find(spec_kw_views(c.keyword_cache.isp_entries@), t) {
        Option::Some(x) => Option::Some(x),
        Option::None => spec_keyword_find(spec_kw_views(c.keyword_cache.org_entries@), t),
    }
}

impl CacheManager {
    /// An empty cache.
    pub fn new() -> (r: CacheManager)
        ensures
            r.asn_cache@ == Map::<u32, AsnInfo>::empty(),
            r.keyword_cache.isp_entries@ == Seq::<(String, KeywordInfo)>::empty(),
            r.keyword_cache.org_entries@ == Seq::<(String, KeywordInfo)>::empty(),
    {
        CacheManager { asn_cache: HashMap::new(), keyword_cache: KeywordCache::default() }
    }

    /// Looks an autonomous-system number up exactly.
    pub fn get_asn_info(&self, asn: u32) -> (r: Option<(String, AsnType)>)
        ensures
            r is Some <==> self.asn_cache@.dom().contains(asn),
            r matches Some(p) ==> self.asn_cache@.dom().contains(asn) && p.0@
                == self.asn_cache@[asn].name@ && spec_type_view(p.1) == spec_type_view(
                self.asn_cache@[asn].type_info,
            ),
    {
        match self.asn_cache.get(&asn) {
            Option::Some(info) => Option::Some((info.name.clone(), info.type_info.duplicate())),
            Option::None => Option::None,
        }
    }

    /// Resolves a query text by keyword occurrence, provider table first.
    pub fn get_keyword_info(&self, keyword: &str) -> (r: Option<(String, AsnType)>)
        ensures
            r is Some <==> spec_keyword_result(*self, keyword@) is Some,
            r matches Some(p) ==> spec_keyword_result(*self, keyword@) matches Some(q) && p.0@
                == q.0 && spec_type_view(p.1) == q.1,
    {
        let kv = chars_of(keyword);
        let folded = lower_chars(&kv);
        match find_keyword(&self.keyword_cache.isp_entries, &folded) {
            Option::Some(p) => Option::Some(p),
            Option::None => find_keyword(&self.keyword_cache.org_entries, &folded),
        }
    }

    /// Loads a dataset into the cache, in entry order.
    pub fn init_asn_data(&mut self, entries: &Vec<AsnDatasetEntry>)
        ensures
            spec_asn_view_map(final(self).asn_cache@) == spec_loaded_map(
                spec_asn_view_map(old(self).asn_cache@),
                entries@,
            ),
            spec_kw_views(final(self).keyword_cache.isp_entries@) == spec_loaded_keywords(
                spec_kw_views(old(self).keyword_cache.isp_entries@),
                entries@,
            ),
            final(self).keyword_cache.org_entries == old(self).keyword_cache.org_entries,
    {
        let ghost m0 = spec_asn_view_map(old(self).asn_cache@);
        let ghost k0 = spec_kw_views(old(self).keyword_cache.isp_entries@);
        let mut i: usize = 0;
        proof {
            assert(entries@.skip(0) =~= entries@);
        }
        while i < entries.len()
            invariant
                i <= entries@.len(),
                spec_loaded_map(spec_asn_view_map(self.asn_cache@), entries@.skip(i as int))
                    == spec_loaded_map(m0, entries@),
                spec_loaded_keywords(
                    spec_kw_views(self.keyword_cache.isp_entries@),
                    entries@.skip(i as int),
                ) == spec_loaded_keywords(k0, entries@),
                self.keyword_cache.org_entries == old(self).keyword_cache.org_entries,
            decreases entries.len() - i,
        {
            let ghost e_spec = entries@[i as int];
            let ghost cur_map = spec_asn_view_map(self.asn_cache@);
            let ghost cur_kws = spec_kw_views(self.keyword_cache.isp_entries@);
            proof {
                assert(entries@.skip(i as int)[0] == e_spec);
                assert(entries@.skip(i as int).drop_first() =~= entries@.skip(i + 1));
            }
            let asn_chars = chars_of(entries[i].asn_text.as_str());
            match parse_dec_u32(&asn_chars, u32::MAX) {
                Option::Some(number) => {
                    let tag = AsnType::from_str(entries[i].type_text.as_str());
                    let concrete = match tag {
                        AsnType::Type(_) => true,
                        AsnType::Other => false,
                    };
                    let info = AsnInfo { name: entries[i].name.clone(), type_info: tag };
                    self.asn_cache.insert(number, info);
                    proof {
                        assert(spec_asn_view_map(self.asn_cache@) =~= spec_load_step_map(
                            cur_map,
                            e_spec,
                        ));
                    }
                    if concrete {
                        let mut j: usize = 0;
                        proof {
                            assert(cur_kws + spec_entry_keywords(e_spec).take(0) =~~= cur_kws);
                        }
                        while j < entries[i].keywords.len()
                            invariant
                                i < entries@.len(),
                                e_spec == entries@[i as int],
                                j <= e_spec.keywords@.len(),
                                spec_entry_asn(e_spec) is Some,
                                spec_entry_tag(e_spec) is Some,
                                spec_kw_views(self.keyword_cache.isp_entries@) == cur_kws
                                    + spec_entry_keywords(e_spec).take(j as int),
                                self.keyword_cache.org_entries == old(
                                    self,
                                ).keyword_cache.org_entries,
                                spec_asn_view_map(self.asn_cache@) == spec_load_step_map(
                                    cur_map,
                                    e_spec,
                                ),
                            decreases e_spec.keywords@.len() - j,
                        {
                            let kw_chars = chars_of(entries[i].keywords[j].as_str());
                            let folded = lower_chars(&kw_chars);
                            let key = string_from_chars(&folded);
                            let kinfo = KeywordInfo {
                                name: entries[i].name.clone(),
                                type_info: AsnType::from_str(entries[i].type_text.as_str()),
                            };
                            let ghost pre = self.keyword_cache.isp_entries@;
                            let ghost row = (key@, kinfo.name@, spec_type_view(kinfo.type_info));
                            self.keyword_cache.isp_entries.push((key, kinfo));
                            proof {
                                assert(spec_entry_keywords(e_spec).len()
                                    == e_spec.keywords@.len());
                                assert(key@ == spec_lower(e_spec.keywords@[j as int]@));
                                assert(kinfo.name@ == e_spec.name@);
                                assert(spec_type_view(kinfo.type_info) == spec_entry_tag(e_spec));
                                assert(self.keyword_cache.isp_entries@[pre.len() as int] == (
                                    key,
                                    kinfo,
                                ));
                                assert(spec_kw_views(self.keyword_cache.isp_entries@)[pre.len() as int]
                                    == row);
                                assert(forall|k: int|
                                    0 <= k < pre.len() ==> spec_kw_views(
                                        self.keyword_cache.isp_entries@,
                                    )[k] == spec_kw_views(pre)[k]);
                                assert(spec_entry_keywords(e_spec)[j as int] == (
                                    spec_lower(e_spec.keywords@[j as int]@),
                                    e_spec.name@,
                                    spec_entry_tag(e_spec),
                                ));
                                assert(row == spec_entry_keywords(e_spec)[j as int]);
                                assert(spec_kw_views(pre).len() == pre.len());
                                assert(spec_kw_views(pre) == cur_kws + spec_entry_keywords(
                                    e_spec,
                                ).take(j as int));
                                assert(spec_kw_views(self.keyword_cache.isp_entries@).len()
                                    == pre.len() + 1);
                                assert(pre.len() == cur_kws.len() + j);
                                let ghost target = cur_kws + spec_entry_keywords(e_spec).take(
                                    j + 1,
                                );
                                assert(target.len() == pre.len() + 1);
                                assert forall|k: int| 0 <= k < pre.len() + 1 implies spec_kw_views(
                                    self.keyword_cache.isp_entries@,
                                )[k] == target[k] by {
                                    let ek = spec_entry_keywords(e_spec);
                                    if k < cur_kws.len() {
                                        assert(spec_kw_views(pre)[k] == cur_kws[k]);
                                    } else if k < pre.len() {
                                        assert(spec_kw_views(pre)[k] == ek.take(j as int)[k
                                            - cur_kws.len()]);
                                        assert(ek.take(j as int)[k - cur_kws.len()] == ek[k
                                            - cur_kws.len()]);
                                        assert(ek.take(j + 1)[k - cur_kws.len()] == ek[k
                                            - cur_kws.len()]);
                                    } else {
                                        assert(k == pre.len());
                                        assert(spec_kw_views(
                                            self.keyword_cache.isp_entries@,
                                        )[k] == row);
                                        assert(target[k] == ek.take(j + 1)[j as int]);
                                        assert(ek.take(j + 1)[j as int] == ek[j as int]);
                                    }
                                }
                                assert(spec_kw_views(self.keyword_cache.isp_entries@) =~= target);
                            }
                            j = j + 1;
                        }
                        proof {
                            assert(spec_entry_keywords(e_spec).take(
                                e_spec.keywords@.len() as int,
                            ) =~~= spec_entry_keywords(e_spec));
                        }
                    } else {
                        proof {
                            assert(spec_entry_keywords(e_spec) =~~= Seq::<
                                (Seq<char>, Seq<char>, Option<Seq<char>>),
                            >::empty());
                            assert(cur_kws + spec_entry_keywords(e_spec) =~~= cur_kws);
                        }
                    }
                },
                Option::None => {
                    proof {
                        assert(spec_load_step_map(cur_map, e_spec) == cur_map);
                        assert(spec_entry_keywords(e_spec) =~~= Seq::<
                            (Seq<char>, Seq<char>, Option<Seq<char>>),
                        >::empty());
                        assert(cur_kws + spec_entry_keywords(e_spec) =~~= cur_kws);
                    }
                },
            }
            i = i + 1;
        }
        proof {
            assert(entries@.skip(entries@.len() as int) =~= Seq::<AsnDatasetEntry>::empty());
        }
    }
}

/// Finds the first entry of one table whose keyword occurs in the folded
/// query.
fn find_keyword(entries: &Vec<(String, KeywordInfo)>, folded: &Vec<char>) -> (r: Option<
    (String, AsnType),
>)
    ensures
        r is Some <==> spec_keyword_find(spec_kw_views(entries@), folded@) is Some,
        r matches Some(p) ==> spec_keyword_find(spec_kw_views(entries@), folded@) matches Some(q)
            && p.0@ == q.0 && spec_type_view(p.1) == q.1,
{
    let ghost views = spec_kw_views(entries@);
    let mut j: usize = 0;
    proof {
        assert(views.skip(0) =~~= views);
    }
    while j < entries.len()
        invariant
            j <= entries@.len(),
            views == spec_kw_views(entries@),
            spec_keyword_find(views, folded@) == spec_keyword_find(
                views.skip(j as int),
                folded@,
            ),
        decreases entries.len() - j,
    {
        proof {
            assert(views[j as int] == (
                entries@[j as int].0@,
                entries@[j as int].1.name@,
                spec_type_view(entries@[j as int].1.type_info),
            ));
            assert(views.skip(j as int)[0] == views[j as int]);
            assert(views.skip(j as int).drop_first() =~~= views.skip(j + 1));
        }
        let kw = chars_of(entries[j].0.as_str());
        if has_substring(folded, &kw) {
            return Option::Some((entries[j].1.name.clone(), entries[j].1.type_info.duplicate()));
        }
        j = j + 1;
    }
    proof {
        assert(views.skip(entries@.len() as int) =~~= Seq::<
            (Seq<char>, Seq<char>, Option<Seq<char>>),
        >::empty());
    }
    Option::None
}

} // verus!
