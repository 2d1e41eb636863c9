//! The attribution record and the plain lookup-record types.
//!
//! A lookup record holds, as plain values, what the attribution logic reads
//! from one database answer: numbers, codes, and localized name tables.
//! Coordinates are carried as micro-degrees so the record stays in integers.

use vstd::prelude::*;

verus! {

/// The autonomous-system block of an attribution record: the number, the
/// organization name the database reported, and the display name chosen by
/// classification.
#[derive(Debug, Clone)]
pub struct AsnInfo {
    pub number: u32,
    pub name: String,
    pub info: String,
}

/// Coordinates in millionths of a degree.
#[derive(Debug, Clone, Copy)]
pub struct Location {
    pub latitude_micro: i64,
    pub longitude_micro: i64,
}

/// A country code together with its chosen localized name.
#[derive(Debug, Clone)]
pub struct CountryInfo {
    pub code: String,
    pub name: String,
}

/// The attribution record built for one address.
#[derive(Debug, Clone)]
pub struct IpInfo {
    pub ip: String,
    pub asn: Option<AsnInfo>,
    pub addr: String,
    pub location: Option<Location>,
    pub country: Option<CountryInfo>,
    pub registered_country: Option<CountryInfo>,
    pub regions: Option<Vec<String>>,
    pub regions_short: Option<Vec<String>>,
    pub network_type: Option<String>,
}

/// The record invariant: the region lists are either both absent or both
/// present, never empty, and of equal length.
pub open spec fn spec_regions_wf(info: IpInfo) -> bool {
    &&& (info.regions is Some <==> info.regions_short is Some)
    &&& (info.regions matches Some(r) ==> r@.len() >= 1)
    &&& (info.regions matches Some(r) ==> (info.regions_short matches Some(s) ==> r@.len()
        == s@.len()))
}

/// The view of an optional text.
pub open spec fn spec_opt_str_view(o: Option<String>) -> Option<Seq<char>> {
    match o {
        Option::None => Option::None,
        Option::Some(s) => Option::Some(s@),
    }
}

/// One entry of a localized-name table: a language code and the name in it.
#[derive(Debug, Clone)]
pub struct LangName {
    pub lang: String,
    pub name: String,
}

/// What the logic reads from a country block of a city answer.
#[derive(Debug, Clone)]
pub struct CountryRecord {
    pub iso_code: Option<String>,
    pub names: Option<Vec<LangName>>,
}

/// What the logic reads from one subdivision of a city answer.
#[derive(Debug, Clone)]
pub struct SubdivisionRecord {
    pub names: Option<Vec<LangName>>,
}

/// Coordinates of a city answer, each part optional, in micro-degrees.
#[derive(Debug, Clone, Copy)]
pub struct LocationRecord {
    pub latitude_micro: Option<i64>,
    pub longitude_micro: Option<i64>,
}

/// What the logic reads from one city-database answer.
#[derive(Debug, Clone)]
pub struct CityRecord {
    pub location: Option<LocationRecord>,
    pub country: Option<CountryRecord>,
    pub registered_country: Option<CountryRecord>,
    pub subdivisions: Option<Vec<SubdivisionRecord>>,
    pub city_names: Option<Vec<LangName>>,
}

/// What the logic reads from one autonomous-system answer.
#[derive(Debug, Clone)]
pub struct AsnRecord {
    pub number: Option<u32>,
    pub organization: Option<String>,
}

/// What the logic reads from one China-override answer: the more precise
/// network block, when the database supplies one.
#[derive(Debug, Clone)]
pub struct CnRecord {
    pub network: Option<String>,
}

} // verus!
