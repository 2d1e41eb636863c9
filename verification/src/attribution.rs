//! The attribution aggregator: one record built from the database answers
//! and the classification cache, with the private-range short circuit.
//!
//! A private address is answered from its block label alone. Otherwise the
//! autonomous-system answer supplies the number and organization, classified
//! first by number and then by organization keyword; the city answer
//! supplies coordinates, countries and up to two region levels; and the
//! network block defaults to the address's own prefix unless the China
//! override supplied a more precise one. A missing answer only leaves its
//! fields out.

use vstd::prelude::*;
use crate::classify::AsnType;
use crate::classify::CacheManager;
use crate::classify::spec_asn_view_map;
use crate::classify::spec_keyword_result;
use crate::ip::IpAddress;
use crate::ip::is_private_ip;
use crate::ip::private_block_label;
use crate::ip::spec_is_private;
use crate::ip::spec_private_block_label;
use crate::ip_format::format_ip;
use crate::ip_format::network_prefix;
use crate::ip_format::spec_format_ip;
use crate::ip_format::spec_network_prefix;
use crate::models::AsnInfo;
use crate::models::AsnRecord;
use crate::models::CityRecord;
use crate::models::CnRecord;
use crate::models::CountryInfo;
use crate::models::CountryRecord;
use crate::models::IpInfo;
use crate::models::Location;
use crate::models::spec_opt_str_view;
use crate::models::spec_regions_wf;
use crate::region::city_display;
use crate::region::get_country;
use crate::region::get_short_name;
use crate::region::lookup_lang;
use crate::region::province_display;
use crate::region::spec_city_display;
use crate::region::spec_get_country;
use crate::region::spec_lang_of;
use crate::region::spec_names_view;
use crate::region::spec_province_display;
use crate::region::spec_short_name;
use crate::region::spec_string_views;

verus! {

/// The number an autonomous-system answer carries, zero when absent.
pub open spec fn spec_rec_number(rec: AsnRecord) -> u32 {
    match rec.number {
        Option::Some(n) => n,
        Option::None => 0,
    }
}

/// The organization name an answer carries, empty when absent.
pub open spec fn spec_rec_org(rec: AsnRecord) -> Seq<char> {
    match rec.organization {
        Option::Some(s) => s@,
        Option::None => Seq::<char>::empty(),
    }
}

/// The classification an answer resolves to: the number map first, then the
/// keyword tables over the organization name.
pub open spec fn spec_classification(cache: CacheManager, rec: AsnRecord) -> Option<
    (Seq<char>, Option<Seq<char>>),
> {
    let m = spec_asn_view_map(cache.asn_cache@);
    if m.dom().contains(spec_rec_number(rec)) {
        Option::Some(m[spec_rec_number(rec)])
    } else {
        spec_keyword_result(cache, spec_rec_org(rec))
    }
}

/// The display name: the classified name, or the organization name verbatim.
pub open spec fn spec_display_of(cache: CacheManager, rec: AsnRecord) -> Seq<char> {
    match spec_classification(cache, rec) {
        Option::Some(p) => p.0,
        Option::None => spec_rec_org(rec),
    }
}

/// The network-type label: the concrete tag, the generic other-network label
/// for a catch-all classification, and nothing without a classification.
pub open spec fn spec_type_label_of(cache: CacheManager, rec: AsnRecord) -> Option<Seq<char>> {
    match spec_classification(cache, rec) {
        Option::Some(p) => match p.1 {
            Option::Some(t) => Option::Some(t),
            Option::None => Option::Some("其他网络"@),
        },
        Option::None => Option::None,
    }
}

/// Whether a city answer carries both coordinates.
pub open spec fn spec_has_location(co: Option<CityRecord>) -> bool {
    co matches Some(c) && c.location matches Some(l) && l.latitude_micro is Some
        && l.longitude_micro is Some
}

/// The code text of a country block, empty when absent.
pub open spec fn spec_country_code(c: CountryRecord) -> Seq<char> {
    match c.iso_code {
        Option::Some(s) => s@,
        Option::None => Seq::<char>::empty(),
    }
}

/// The Chinese name of the first province-level subdivision, if any.
pub open spec fn spec_province_raw(c: CityRecord) -> Option<Seq<char>> {
    match c.subdivisions {
        Option::Some(subs) => {
            if subs@.len() >= 1 {
                spec_lang_of(spec_names_view(subs@[0].names), "zh-CN"@)
            } else {
                Option::None
            }
        },
        Option::None => Option::None,
    }
}

/// The Chinese city name, if any.
pub open spec fn spec_city_raw(c: CityRecord) -> Option<Seq<char>> {
    spec_lang_of(spec_names_view(c.city_names), "zh-CN"@)
}

/// The region display names a city answer yields: province level first, then
/// city level, each under its display suffix.
pub open spec fn spec_regions_view(c: CityRecord) -> Seq<Seq<char>> {
    let p = match spec_province_raw(c) {
        Option::Some(n) => seq![spec_province_display(n)],
        Option::None => Seq::<Seq<char>>::empty(),
    };
    let t = match spec_city_raw(c) {
        Option::Some(n) => seq![spec_city_display(n)],
        Option::None => Seq::<Seq<char>>::empty(),
    };
    p + t
}

/// The parallel abbreviated region names.
pub open spec fn spec_regions_short_view(c: CityRecord) -> Seq<Seq<char>> {
    let p = match spec_province_raw(c) {
        Option::Some(n) => seq![spec_short_name(n)],
        Option::None => Seq::<Seq<char>>::empty(),
    };
    let t = match spec_city_raw(c) {
        Option::Some(n) => seq![spec_short_name(n)],
        Option::None => Seq::<Seq<char>>::empty(),
    };
    p + t
}

/// The network-block text of the record: only an answer with an
/// autonomous-system hit carries one, and a China-override network takes
/// precedence over the computed default.
pub open spec fn spec_addr_view(ip: IpAddress, has_asn: bool, cn: Option<CnRecord>) -> Seq<char> {
    if has_asn {
        match cn {
            Option::Some(c) => match c.network {
                Option::Some(n) => n@,
                Option::None => spec_network_prefix(ip),
            },
            Option::None => spec_network_prefix(ip),
        }
    } else {
        Seq::<char>::empty()
    }
}

/// The whole contract of aggregation for a non-private address: every field
/// of the record determined from the answers and the cache.
pub open spec fn spec_attribution_ok(
    r: IpInfo,
    ip: IpAddress,
    asn_rec: Option<AsnRecord>,
    city_rec: Option<CityRecord>,
    cn_rec: Option<CnRecord>,
    cache: CacheManager,
) -> bool {
    &&& r.ip@ == spec_format_ip(ip)
    &&& (r.asn is Some) <==> (asn_rec is Some)
    &&& (asn_rec matches Some(rec) ==> (r.asn matches Some(a) && a.number == spec_rec_number(rec)
        && a.name@ == spec_rec_org(rec) && a.info@ == spec_display_of(cache, rec)))
    &&& (asn_rec matches Some(rec) ==> spec_opt_str_view(r.network_type) == spec_type_label_of(
        cache,
        rec,
    ))
    &&& (asn_rec is None ==> r.network_type is None)
    &&& r.addr@ == spec_addr_view(ip, asn_rec is Some, cn_rec)
    &&& ((r.location is Some) <==> spec_has_location(city_rec))
    &&& (spec_has_location(city_rec) ==> (r.location matches Some(l) && city_rec matches Some(c)
        && c.location matches Some(lr) && lr.latitude_micro matches Some(la)
        && lr.longitude_micro matches Some(lo) && l.latitude_micro == la && l.longitude_micro
        == lo))
    &&& ((r.country is Some) <==> (city_rec matches Some(c) && c.country matches Some(cc)
        && spec_get_country(cc).len() > 0))
    &&& (city_rec matches Some(c) ==> (c.country matches Some(cc) ==> (spec_get_country(
        cc,
    ).len() > 0 ==> (r.country matches Some(ci) && ci.code@ == spec_country_code(cc) && ci.name@
        == spec_get_country(cc)))))
    &&& ((r.registered_country is Some) <==> (city_rec matches Some(c)
        && c.registered_country matches Some(cc) && spec_get_country(cc).len() > 0))
    &&& (city_rec matches Some(c) ==> (c.registered_country matches Some(cc) ==> (spec_get_country(
        cc,
    ).len() > 0 ==> (r.registered_country matches Some(ci) && ci.code@ == spec_country_code(cc)
        && ci.name@ == spec_get_country(cc)))))
    &&& ((r.regions is Some) <==> (city_rec matches Some(c) && spec_regions_view(c).len() >= 1))
    &&& (city_rec matches Some(c) ==> (spec_regions_view(c).len() >= 1 ==> ((
    r.regions matches Some(v) && spec_string_views(v@) == spec_regions_view(c)) && (
    r.regions_short matches Some(w) && spec_string_views(w@) == spec_regions_short_view(c)))))
    &&& spec_regions_wf(r)
}

/// The whole contract of the direct answer for a private address: the
/// address text, its block label, and nothing else.
pub open spec fn spec_private_attribution_ok(r: IpInfo, ip: IpAddress) -> bool {
    &&& r.ip@ == spec_format_ip(ip)
    &&& r.addr@ == spec_private_block_label(ip)
    &&& r.asn is None
    &&& r.location is None
    &&& r.country is None
    &&& r.registered_country is None
    &&& r.regions is None
    &&& r.regions_short is None
    &&& r.network_type is None
}

/// Builds the attribution record from the three database answers and the
/// cache; the private-range check is the caller's (see `attribute`).
pub fn get_ip_info(
    ip: &IpAddress,
    asn_rec: &Option<AsnRecord>,
    city_rec: &Option<CityRecord>,
    cn_rec: &Option<CnRecord>,
    cache: &CacheManager,
) -> (r: IpInfo)
    ensures
        spec_attribution_ok(r, *ip, *asn_rec, *city_rec, *cn_rec, *cache),
{
    let mut info = IpInfo {
        ip: format_ip(ip),
        asn: Option::None,
        addr: String::new(),
        location: Option::None,
        country: Option::None,
        registered_country: Option::None,
        regions: Option::None,
        regions_short: Option::None,
        network_type: Option::None,
    };
    match asn_rec {
        Option::Some(rec) => {
            let number: u32 = match rec.number {
                Option::Some(n) => n,
                Option::None => 0,
            };
            let org: String = match &rec.organization {
                Option::Some(s) => s.clone(),
                Option::None => String::new(),
            };
            let cls: Option<(String, AsnType)> = match cache.get_asn_info(number) {
                Option::Some(p) => Option::Some(p),
                Option::None => cache.get_keyword_info(org.as_str()),
            };
            match cls {
                Option::Some((cname, ctag)) => {
                    info.asn = Option::Some(
                        AsnInfo { number, name: org, info: cname },
                    );
                    info.network_type = match ctag {
                        AsnType::Type(t) => Option::Some(t),
                        AsnType::Other => Option::Some("其他网络".to_owned()),
                    };
                },
                Option::None => {
                    let display = org.clone();
                    info.asn = Option::Some(AsnInfo { number, name: org, info: display });
                    info.network_type = Option::None;
                },
            }
        },
        Option::None => {},
    }
    match city_rec {
        Option::Some(city) => {
            match &city.location {
                Option::Some(loc) => {
                    match (loc.latitude_micro, loc.longitude_micro) {
                        (Option::Some(la), Option::Some(lo)) => {
                            info.location = Option::Some(
                                Location { latitude_micro: la, longitude_micro: lo },
                            );
                        },
                        _ => {},
                    }
                },
                Option::None => {},
            }
            match &city.country {
                Option::Some(cc) => {
                    let name = get_country(cc);
                    if !name.as_str().is_empty() {
                        let code: String = match &cc.iso_code {
                            Option::Some(s) => s.clone(),
                            Option::None => String::new(),
                        };
                        info.country = Option::Some(CountryInfo { code, name });
                    }
                },
                Option::None => {},
            }
            match &city.registered_country {
                Option::Some(cc) => {
                    let name = get_country(cc);
                    if !name.as_str().is_empty() {
                        let code: String = match &cc.iso_code {
                            Option::Some(s) => s.clone(),
                            Option::None => String::new(),
                        };
                        info.registered_country = Option::Some(CountryInfo { code, name });
                    }
                },
                Option::None => {},
            }
            let prov_raw: Option<String> = match &city.subdivisions {
                Option::Some(subs) => {
                    if subs.len() > 0 {
                        lookup_lang(&subs[0].names, "zh-CN")
                    } else {
                        Option::None
                    }
                },
                Option::None => Option::None,
            };
            let city_raw: Option<String> = lookup_lang(&city.city_names, "zh-CN");
            let mut regions: Vec<String> = Vec::new();
            let mut regions_short: Vec<String> = Vec::new();
            match &prov_raw {
                Option::Some(p) => {
                    regions.push(province_display(p.as_str()));
                    regions_short.push(get_short_name(p.as_str()));
                },
                Option::None => {},
            }
            match &city_raw {
                Option::Some(c) => {
                    regions.push(city_display(c.as_str()));
                    regions_short.push(get_short_name(c.as_str()));
                },
                Option::None => {},
            }
            if regions.len() > 0 {
                proof {
                    assert(spec_string_views(regions@).len() == regions@.len());
                    assert(spec_string_views(regions@) =~~= spec_regions_view(*city));
                    assert(spec_string_views(regions_short@) =~~= spec_regions_short_view(*city));
                }
                info.regions = Option::Some(regions);
                info.regions_short = Option::Some(regions_short);
            } else {
                proof {
                    assert(spec_regions_view(*city).len() == 0);
                }
            }
        },
        Option::None => {},
    }
    match &info.asn {
        Option::Some(_) => {
            info.addr = match cn_rec {
                Option::Some(cn) => match &cn.network {
                    Option::Some(n) => n.clone(),
                    Option::None => network_prefix(ip),
                },
                Option::None => network_prefix(ip),
            };
        },
        Option::None => {},
    }
    info
}

/// Attributes one address: a private address is answered directly from its
/// block label, with no database fields at all; any other address is
/// aggregated from the answers.
pub fn attribute(
    ip: &IpAddress,
    asn_rec: &Option<AsnRecord>,
    city_rec: &Option<CityRecord>,
    cn_rec: &Option<CnRecord>,
    cache: &CacheManager,
) -> (r: IpInfo)
    ensures
        spec_is_private(*ip) ==> spec_private_attribution_ok(r, *ip),
        !spec_is_private(*ip) ==> spec_attribution_ok(r, *ip, *asn_rec, *city_rec, *cn_rec, *cache),
{
    if is_private_ip(ip) {
        IpInfo {
            ip: format_ip(ip),
            asn: Option::None,
            addr: private_block_label(ip),
            location: Option::None,
            country: Option::None,
            registered_country: Option::None,
            regions: Option::None,
            regions_short: Option::None,
            network_type: Option::None,
        }
    } else {
        get_ip_info(ip, asn_rec, city_rec, cn_rec, cache)
    }
}

} // verus!
