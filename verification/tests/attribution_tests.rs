use ipgeo::attribution::attribute;
use ipgeo::attribution::get_ip_info;
use ipgeo::classify::AsnDatasetEntry;
use ipgeo::classify::CacheManager;
use ipgeo::database::DatabaseManager;
use ipgeo::database::should_update;
use ipgeo::errors::IpGeoError;
use ipgeo::ip::IpAddress;
use ipgeo::models::AsnRecord;
use ipgeo::models::CityRecord;
use ipgeo::models::CnRecord;
use ipgeo::models::CountryRecord;
use ipgeo::models::LangName;
use ipgeo::models::LocationRecord;
use ipgeo::models::SubdivisionRecord;

fn v4(a: u8, b: u8, c: u8, d: u8) -> IpAddress {
    IpAddress::V4 { a, b, c, d }
}

fn names(pairs: &[(&str, &str)]) -> Option<Vec<LangName>> {
    Some(
        pairs
            .iter()
            .map(|(l, n)| LangName { lang: l.to_string(), name: n.to_string() })
            .collect(),
    )
}

fn cloudflare_cache() -> CacheManager {
    let mut cache = CacheManager::new();
    cache.init_asn_data(&vec![AsnDatasetEntry {
        asn_text: "13335".to_string(),
        name: "Cloudflare".to_string(),
        type_text: "cdn".to_string(),
        keywords: vec!["cloudflare".to_string()],
    }]);
    cache
}

fn empty_city() -> CityRecord {
    CityRecord {
        location: None,
        country: None,
        registered_country: None,
        subdivisions: None,
        city_names: None,
    }
}

#[test]
fn private_address_answered_from_label_alone() {
    let cache = cloudflare_cache();
    let asn = Some(AsnRecord { number: Some(13335), organization: Some("CLOUDFLARENET".to_string()) });
    let city = Some(CityRecord {
        location: Some(LocationRecord { latitude_micro: Some(1), longitude_micro: Some(2) }),
        country: Some(CountryRecord { iso_code: Some("AU".to_string()), names: names(&[("en", "Australia")]) }),
        registered_country: None,
        subdivisions: None,
        city_names: None,
    });
    let cn = Some(CnRecord { network: Some("10.0.0.0/8".to_string()) });
    let info = attribute(&v4(10, 1, 2, 3), &asn, &city, &cn, &cache);
    assert_eq!(info.ip, "10.1.2.3");
    assert_eq!(info.addr, "10.0.0.0/8");
    assert!(info.asn.is_none());
    assert!(info.location.is_none());
    assert!(info.country.is_none());
    assert!(info.registered_country.is_none());
    assert!(info.regions.is_none());
    assert!(info.regions_short.is_none());
    assert!(info.network_type.is_none());
}

#[test]
fn cloudflare_end_to_end() {
    let cache = cloudflare_cache();
    let asn = Some(AsnRecord { number: Some(13335), organization: Some("CLOUDFLARENET".to_string()) });
    let city = Some(CityRecord {
        location: None,
        country: Some(CountryRecord {
            iso_code: Some("AU".to_string()),
            names: names(&[("en", "Australia")]),
        }),
        registered_country: None,
        subdivisions: None,
        city_names: None,
    });
    let info = attribute(&v4(1, 1, 1, 1), &asn, &city, &None, &cache);
    assert_eq!(info.ip, "1.1.1.1");
    let a = info.asn.as_ref().unwrap();
    assert_eq!(a.number, 13335);
    assert!(a.name.contains("CLOUDFLARE"));
    assert_eq!(a.info, "Cloudflare");
    assert_eq!(info.network_type.as_deref(), Some("cdn"));
    let c = info.country.as_ref().unwrap();
    assert_eq!(c.code, "AU");
    assert_eq!(c.name, "Australia");
    assert!(info.regions.is_none());
    assert!(info.regions_short.is_none());
    assert_eq!(info.addr, "1.1.0.0/16");
}

#[test]
fn keyword_classification_when_number_unknown() {
    let cache = cloudflare_cache();
    let asn = Some(AsnRecord { number: Some(209242), organization: Some("Cloudflare London, LLC".to_string()) });
    let info = get_ip_info(&v4(8, 6, 112, 1), &asn, &None, &None, &cache);
    let a = info.asn.as_ref().unwrap();
    assert_eq!(a.name, "Cloudflare London, LLC");
    assert_eq!(a.info, "Cloudflare");
    assert_eq!(info.network_type.as_deref(), Some("cdn"));
}

#[test]
fn unclassified_organization_kept_verbatim() {
    let cache = cloudflare_cache();
    let asn = Some(AsnRecord { number: Some(64500), organization: Some("Example Carrier".to_string()) });
    let info = get_ip_info(&v4(8, 6, 112, 1), &asn, &None, &None, &cache);
    let a = info.asn.as_ref().unwrap();
    assert_eq!(a.name, "Example Carrier");
    assert_eq!(a.info, "Example Carrier");
    assert!(info.network_type.is_none());
}

#[test]
fn catch_all_classification_gets_generic_label() {
    let mut cache = CacheManager::new();
    cache.init_asn_data(&vec![AsnDatasetEntry {
        asn_text: "64500".to_string(),
        name: "Example Net".to_string(),
        type_text: String::new(),
        keywords: vec![],
    }]);
    let asn = Some(AsnRecord { number: Some(64500), organization: Some("EXAMPLE".to_string()) });
    let info = get_ip_info(&v4(8, 6, 112, 1), &asn, &None, &None, &cache);
    assert_eq!(info.network_type.as_deref(), Some("其他网络"));
    assert_eq!(info.asn.as_ref().unwrap().info, "Example Net");
}

#[test]
fn no_asn_answer_leaves_block_empty() {
    let cache = CacheManager::new();
    let info = get_ip_info(&v4(8, 6, 112, 1), &None, &None, &None, &cache);
    assert!(info.asn.is_none());
    assert!(info.network_type.is_none());
    assert_eq!(info.addr, "");
    assert_eq!(info.ip, "8.6.112.1");
}

#[test]
fn china_override_network_takes_precedence() {
    let cache = CacheManager::new();
    let asn = Some(AsnRecord { number: Some(4134), organization: Some("CHINANET".to_string()) });
    let cn = Some(CnRecord { network: Some("223.4.0.0/14".to_string()) });
    let info = get_ip_info(&v4(223, 5, 5, 5), &asn, &None, &cn, &cache);
    assert_eq!(info.addr, "223.4.0.0/14");
    let no_cn = get_ip_info(&v4(223, 5, 5, 5), &asn, &None, &None, &cache);
    assert_eq!(no_cn.addr, "223.5.0.0/16");
}

#[test]
fn location_needs_both_coordinates() {
    let cache = CacheManager::new();
    let mut city = empty_city();
    city.location = Some(LocationRecord { latitude_micro: Some(-33_868_820), longitude_micro: None });
    let info = get_ip_info(&v4(1, 1, 1, 1), &None, &Some(city), &None, &cache);
    assert!(info.location.is_none());
    let mut city2 = empty_city();
    city2.location = Some(LocationRecord {
        latitude_micro: Some(-33_868_820),
        longitude_micro: Some(151_209_300),
    });
    let info2 = get_ip_info(&v4(1, 1, 1, 1), &None, &Some(city2), &None, &cache);
    let loc = info2.location.unwrap();
    assert_eq!(loc.latitude_micro, -33_868_820);
    assert_eq!(loc.longitude_micro, 151_209_300);
}

#[test]
fn regions_built_from_subdivision_and_city() {
    let cache = CacheManager::new();
    let city = CityRecord {
        location: None,
        country: Some(CountryRecord {
            iso_code: Some("CN".to_string()),
            names: names(&[("zh-CN", "中国"), ("en", "China")]),
        }),
        registered_country: None,
        subdivisions: Some(vec![
            SubdivisionRecord { names: names(&[("zh-CN", "广东"), ("en", "Guangdong")]) },
            SubdivisionRecord { names: names(&[("zh-CN", "多余")]) },
        ]),
        city_names: names(&[("zh-CN", "深圳"), ("en", "Shenzhen")]),
    };
    let info = get_ip_info(&v4(113, 108, 0, 1), &None, &Some(city), &None, &cache);
    assert_eq!(info.country.as_ref().unwrap().name, "中国");
    assert_eq!(info.regions.as_ref().unwrap(), &vec!["广东省".to_string(), "深圳市".to_string()]);
    assert_eq!(
        info.regions_short.as_ref().unwrap(),
        &vec!["广东".to_string(), "深圳".to_string()]
    );
}

#[test]
fn regions_omitted_when_no_chinese_names() {
    let cache = CacheManager::new();
    let city = CityRecord {
        location: None,
        country: None,
        registered_country: None,
        subdivisions: Some(vec![SubdivisionRecord { names: names(&[("en", "New South Wales")]) }]),
        city_names: names(&[("en", "Sydney")]),
    };
    let info = get_ip_info(&v4(1, 1, 1, 1), &None, &Some(city), &None, &cache);
    assert!(info.regions.is_none());
    assert!(info.regions_short.is_none());
}

#[test]
fn country_omitted_without_any_name() {
    let cache = CacheManager::new();
    let mut city = empty_city();
    city.country = Some(CountryRecord { iso_code: Some("AU".to_string()), names: None });
    let info = get_ip_info(&v4(1, 1, 1, 1), &None, &Some(city), &None, &cache);
    assert!(info.country.is_none());
}

#[test]
fn error_messages_exact() {
    assert_eq!(
        IpGeoError::InvalidInput("0.0.0.0".to_string()).message(),
        "invalid input: 0.0.0.0"
    );
    assert_eq!(IpGeoError::ResolveError.message(), "host could not be resolved");
    assert_eq!(IpGeoError::TimeoutError.message(), "host resolution timed out");
    assert_eq!(IpGeoError::DatabaseUnavailable.message(), "database unavailable");
}

#[test]
fn data_file_path_prefers_existing_candidate() {
    let m = DatabaseManager::new("data".to_string());
    assert_eq!(m.get_data_file_path("x.mmdb", &vec![true, true, true]), "data/x.mmdb");
    assert_eq!(m.get_data_file_path("x.mmdb", &vec![false, true, true]), "../data/x.mmdb");
    assert_eq!(
        m.get_data_file_path("x.mmdb", &vec![false, false, true]),
        "/usr/local/share/ipgeo/x.mmdb"
    );
    assert_eq!(m.get_data_file_path("x.mmdb", &vec![false, false, false]), "data/x.mmdb");
    let paths = m.candidate_paths("y.json");
    assert_eq!(paths.len(), 3);
    assert_eq!(paths[0], "data/y.json");
}

#[test]
fn refresh_policy() {
    assert!(should_update(false, None));
    assert!(should_update(true, None));
    assert!(should_update(true, Some(86401)));
    assert!(!should_update(true, Some(86400)));
    assert!(!should_update(true, Some(0)));
}
