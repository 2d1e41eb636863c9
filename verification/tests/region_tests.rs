use ipgeo::models::CountryRecord;
use ipgeo::models::LangName;
use ipgeo::region::city_display;
use ipgeo::region::get_country;
use ipgeo::region::get_des;
use ipgeo::region::get_short_name;
use ipgeo::region::lookup_lang;
use ipgeo::region::province_display;

fn names(pairs: &[(&str, &str)]) -> Option<Vec<LangName>> {
    Some(
        pairs
            .iter()
            .map(|(l, n)| LangName { lang: l.to_string(), name: n.to_string() })
            .collect(),
    )
}

#[test]
fn short_name_strips_suffixes() {
    assert_eq!(get_short_name("广东省"), "广东");
    assert_eq!(get_short_name("上海市"), "上海");
    assert_eq!(get_short_name("广西壮族自治区"), "广西");
    assert_eq!(get_short_name("香港特别行政区"), "香港");
    assert_eq!(get_short_name("宁夏回族自治区"), "宁夏");
}

#[test]
fn short_name_keeps_municipalities() {
    assert_eq!(get_short_name("北京"), "北京");
    assert_eq!(get_short_name("北京市"), "北京");
    assert_eq!(get_short_name("重庆市"), "重庆");
    assert_eq!(get_short_name("澳门"), "澳门");
}

#[test]
fn short_name_cuts_long_names_to_two() {
    assert_eq!(get_short_name("黑龙江省"), "黑龙");
    assert_eq!(get_short_name("内蒙古自治区"), "内蒙");
}

#[test]
fn short_name_trims_whitespace() {
    assert_eq!(get_short_name("  广东省  "), "广东");
}

#[test]
fn short_name_idempotent_on_short_forms() {
    for name in ["广东省", "上海市", "广西壮族自治区", "北京", "黑龙江省", "Tokyo"] {
        let once = get_short_name(name);
        assert_eq!(get_short_name(&once), once, "name {}", name);
    }
}

#[test]
fn province_display_appends_suffix() {
    assert_eq!(province_display("广东"), "广东省");
    assert_eq!(province_display("广东省"), "广东省");
    assert_eq!(province_display("内蒙古自治区"), "内蒙古自治区");
    assert_eq!(province_display("香港特别行政区"), "香港特别行政区");
}

#[test]
fn city_display_appends_suffix() {
    assert_eq!(city_display("深圳"), "深圳市");
    assert_eq!(city_display("深圳市"), "深圳市");
}

#[test]
fn get_des_prefers_language_order() {
    let table = names(&[("en", "China"), ("zh-CN", "中国")]);
    let zh_first = vec!["zh-CN".to_string(), "en".to_string()];
    assert_eq!(get_des(&table, &zh_first), "中国");
    let en_only = vec!["en".to_string()];
    assert_eq!(get_des(&table, &en_only), "China");
    let missing = vec!["fr".to_string()];
    assert_eq!(get_des(&table, &missing), "");
    assert_eq!(get_des(&None, &zh_first), "");
}

#[test]
fn lookup_lang_finds_exact_language() {
    let table = names(&[("zh-CN", "广东"), ("en", "Guangdong")]);
    assert_eq!(lookup_lang(&table, "zh-CN"), Some("广东".to_string()));
    assert_eq!(lookup_lang(&table, "en"), Some("Guangdong".to_string()));
    assert_eq!(lookup_lang(&table, "fr"), None);
    assert_eq!(lookup_lang(&None, "en"), None);
}

#[test]
fn country_name_special_codes() {
    let hk = CountryRecord {
        iso_code: Some("HK".to_string()),
        names: names(&[("en", "Hong Kong")]),
    };
    assert_eq!(get_country(&hk), "中国香港");
    let mo = CountryRecord { iso_code: Some("MO".to_string()), names: None };
    assert_eq!(get_country(&mo), "中国澳门");
    let tw = CountryRecord { iso_code: Some("TW".to_string()), names: names(&[("zh-CN", "台湾")]) };
    assert_eq!(get_country(&tw), "中国台湾");
}

#[test]
fn country_name_localization_fallback() {
    let cn = CountryRecord {
        iso_code: Some("CN".to_string()),
        names: names(&[("zh-CN", "中国"), ("en", "China")]),
    };
    assert_eq!(get_country(&cn), "中国");
    let au = CountryRecord {
        iso_code: Some("AU".to_string()),
        names: names(&[("en", "Australia")]),
    };
    assert_eq!(get_country(&au), "Australia");
    let empty = CountryRecord { iso_code: Some("AU".to_string()), names: None };
    assert_eq!(get_country(&empty), "");
}
