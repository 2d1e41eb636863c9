use ipgeo::classify::AsnDatasetEntry;
use ipgeo::classify::AsnType;
use ipgeo::classify::CacheManager;

fn entry(asn: &str, name: &str, tag: &str, keywords: &[&str]) -> AsnDatasetEntry {
    AsnDatasetEntry {
        asn_text: asn.to_string(),
        name: name.to_string(),
        type_text: tag.to_string(),
        keywords: keywords.iter().map(|k| k.to_string()).collect(),
    }
}

fn loaded(entries: Vec<AsnDatasetEntry>) -> CacheManager {
    let mut cache = CacheManager::new();
    cache.init_asn_data(&entries);
    cache
}

#[test]
fn asn_lookup_exact() {
    let cache = loaded(vec![entry("13335", "Cloudflare", "cdn", &["cloudflare"])]);
    let (name, tag) = cache.get_asn_info(13335).unwrap();
    assert_eq!(name, "Cloudflare");
    match tag {
        AsnType::Type(t) => assert_eq!(t, "cdn"),
        AsnType::Other => panic!("expected a concrete tag"),
    }
    assert!(cache.get_asn_info(13336).is_none());
}

#[test]
fn keyword_lookup_falls_back_to_substring() {
    let cache = loaded(vec![entry("13335", "Cloudflare", "cdn", &["cloudflare"])]);
    assert!(cache.get_asn_info(99999).is_none());
    let (name, tag) = cache.get_keyword_info("Cloudflare Inc").unwrap();
    assert_eq!(name, "Cloudflare");
    match tag {
        AsnType::Type(t) => assert_eq!(t, "cdn"),
        AsnType::Other => panic!("expected a concrete tag"),
    }
}

#[test]
fn keyword_lookup_is_case_insensitive() {
    let cache = loaded(vec![entry("4134", "China Telecom", "isp", &["CHINANET"])]);
    assert!(cache.get_keyword_info("chinanet backbone").is_some());
    assert!(cache.get_keyword_info("ChinaNet-Backbone").is_some());
    assert!(cache.get_keyword_info("unrelated org").is_none());
}

#[test]
fn catch_all_entries_do_not_feed_keywords() {
    let cache = loaded(vec![entry("65000", "Example Net", "", &["example"])]);
    let (_, tag) = cache.get_asn_info(65000).unwrap();
    assert!(matches!(tag, AsnType::Other));
    assert!(cache.get_keyword_info("example org").is_none());
}

#[test]
fn last_entry_wins_for_same_number() {
    let cache = loaded(vec![
        entry("13335", "Old Name", "isp", &[]),
        entry("13335", "Cloudflare", "cdn", &[]),
    ]);
    let (name, tag) = cache.get_asn_info(13335).unwrap();
    assert_eq!(name, "Cloudflare");
    assert!(matches!(tag, AsnType::Type(ref t) if t == "cdn"));
}

#[test]
fn malformed_numbers_are_skipped() {
    let cache = loaded(vec![
        entry("not-a-number", "Bad", "isp", &["bad"]),
        entry("", "Empty", "isp", &["empty"]),
        entry("4294967296", "Too Big", "isp", &["big"]),
        entry("701", "Verizon", "isp", &["uunet"]),
    ]);
    assert!(cache.get_asn_info(701).is_some());
    assert!(cache.get_keyword_info("bad corp").is_none());
    assert!(cache.get_keyword_info("empty corp").is_none());
    assert!(cache.get_keyword_info("big corp").is_none());
    assert!(cache.get_keyword_info("uunet technologies").is_some());
}

#[test]
fn asn_type_from_str_rules() {
    assert!(matches!(AsnType::from_str(""), AsnType::Other));
    assert!(matches!(AsnType::from_str("isp"), AsnType::Type(ref t) if t == "isp"));
}

#[test]
fn first_keyword_entry_wins() {
    let cache = loaded(vec![
        entry("100", "First", "cdn", &["shared"]),
        entry("200", "Second", "isp", &["shared"]),
    ]);
    let (name, _) = cache.get_keyword_info("shared words").unwrap();
    assert_eq!(name, "First");
}
