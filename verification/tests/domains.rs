use web_speedtest::config::{ConfigError, DomainItem};
use web_speedtest::domains::{
    build_targets, display_cname, display_label, filter_blacklisted_domains, merge_domain_overrides,
    non_empty_string, normalize_base_url, slugify, unique_key,
};

fn line(url: &str) -> DomainItem {
    DomainItem { name: None, url: url.to_string(), cname: None }
}

fn named(name: &str, url: &str) -> DomainItem {
    DomainItem { name: Some(name.to_string()), url: url.to_string(), cname: None }
}

fn urls(items: &[DomainItem]) -> Vec<String> {
    items.iter().map(|item| item.url.clone()).collect()
}

#[test]
fn addresses_lose_white_space_and_trailing_slashes() {
    assert_eq!(normalize_base_url(" https://a.example.com// ").unwrap(), "https://a.example.com");
    assert_eq!(normalize_base_url("http://a/b/").unwrap(), "http://a/b");
    assert_eq!(normalize_base_url("https://a /").unwrap(), "https://a ");
    for bad in ["", "https://", "http:///", "ftp://a", "a.example.com", "HTTPS://a"] {
        assert!(matches!(normalize_base_url(bad), Err(ConfigError::InvalidDomainUrl(url)) if url == bad));
    }
}

#[test]
fn slugs_are_lower_case_words_with_single_dashes() {
    assert_eq!(slugify("A1.Example.com"), "a1-example-com");
    assert_eq!(slugify("--a__b--"), "a-b");
    assert_eq!(slugify("线路"), "");
    assert_eq!(slugify("线路 7 号"), "7");
    assert_eq!(slugify(&slugify("X..Y//z")), slugify("X..Y//z"));
}

#[test]
fn unique_keys_are_numbered_from_two() {
    let mut used: Vec<String> = Vec::new();
    assert_eq!(unique_key("a".to_string(), &mut used), "a");
    assert_eq!(unique_key("a-2".to_string(), &mut used), "a-2");
    assert_eq!(unique_key("a".to_string(), &mut used), "a-3");
    assert_eq!(unique_key("a".to_string(), &mut used), "a-4");
    assert_eq!(unique_key("".to_string(), &mut used), "");
    assert_eq!(unique_key("".to_string(), &mut used), "-2");
    assert_eq!(used, ["a", "a-2", "a-3", "a-4", "", "-2"]);
}

#[test]
fn labels_and_canonical_names_have_fallbacks() {
    assert_eq!(display_label(Some(" a1 "), "host"), "a1");
    assert_eq!(display_label(Some("  "), "host"), "host");
    assert_eq!(display_label(None, "host"), "host");
    assert_eq!(display_cname(None), "-");
    assert_eq!(display_cname(Some(" ")), "-");
    assert_eq!(display_cname(Some("https:///")), "-");
    assert_eq!(display_cname(Some(" http://c.example.com/ ")), "c.example.com");
    assert_eq!(non_empty_string(Some(" x ")), Some("x"));
    assert_eq!(non_empty_string(Some("\n")), None);
}

#[test]
fn targets_have_distinct_keys_and_hosts() {
    let items = vec![
        line("https://a.example.com"),
        line("http://a-example-com/"),
        named("线路 9", "https://中文"),
        named("线路", "https://例子"),
    ];
    let targets = build_targets(&items, "/s.bin").unwrap();
    let keys: Vec<&str> = targets.iter().map(|target| target.key.as_str()).collect();
    assert_eq!(keys, ["a-example-com", "a-example-com-2", "9", ""]);
    assert_eq!(targets[1].host, "a-example-com");
    assert_eq!(targets[1].trace_url, "http://a-example-com/cdn-cgi/trace");
    assert_eq!(targets[2].download_url, "https://中文/s.bin");
    let twice = vec![line("https://A.example.com"), line("http://a.EXAMPLE.com/")];
    assert!(matches!(build_targets(&twice, "/s"), Err(ConfigError::DuplicateDomain(host)) if host == "a.example.com"));
    let bad = vec![line("https://a"), line("b")];
    assert!(matches!(build_targets(&bad, "/s"), Err(ConfigError::InvalidDomainUrl(url)) if url == "b"));
}

#[test]
fn overrides_patch_the_last_line_of_an_address_or_add_one() {
    let lines = vec![named("one", "https://a"), named("two", "https://a/"), line("https://b")];
    let overrides = vec![
        DomainItem { name: Some(" new ".to_string()), url: "https://a//".to_string(), cname: Some("  ".to_string()) },
        named("c", "https://c/"),
        DomainItem { name: Some("".to_string()), url: "https://c".to_string(), cname: Some("c.cname".to_string()) },
    ];
    let merged = merge_domain_overrides(lines, &overrides).unwrap();
    assert_eq!(urls(&merged), ["https://a", "https://a/", "https://b", "https://c/"]);
    assert_eq!(merged[0].name.as_deref(), Some("one"));
    assert_eq!(merged[1].name.as_deref(), Some("new"));
    assert_eq!(merged[1].cname, None);
    assert_eq!(merged[3].name.as_deref(), Some("c"));
    assert_eq!(merged[3].cname.as_deref(), Some("c.cname"));
    let bad_line = merge_domain_overrides(vec![line("x")], &vec![line("y")]);
    assert!(matches!(bad_line, Err(ConfigError::InvalidDomainUrl(url)) if url == "x"));
    let bad_override = merge_domain_overrides(vec![line("https://x")], &vec![line("y")]);
    assert!(matches!(bad_override, Err(ConfigError::InvalidDomainUrl(url)) if url == "y"));
}

#[test]
fn the_blacklist_takes_out_its_lines_and_keeps_the_order() {
    let lines = || vec![line("https://a"), line("https://b/"), line("https://c"), line("https://b")];
    let kept = filter_blacklisted_domains(lines(), &vec!["https://b//".to_string()]).unwrap();
    assert_eq!(urls(&kept), ["https://a", "https://c"]);
    let all = filter_blacklisted_domains(vec![line("not looked at")], &Vec::new()).unwrap();
    assert_eq!(urls(&all), ["not looked at"]);
    let bad = filter_blacklisted_domains(vec![line("x")], &vec!["y".to_string()]);
    assert!(matches!(bad, Err(ConfigError::InvalidDomainUrl(url)) if url == "y"));
    let bad = filter_blacklisted_domains(vec![line("x")], &vec!["https://y".to_string()]);
    assert!(matches!(bad, Err(ConfigError::InvalidDomainUrl(url)) if url == "x"));
}

#[test]
fn a_trailing_slash_makes_no_difference() {
    for url in ["https://a.example.com", " http://b/c", "", "ftp://x"] {
        let slashed = format!("{url}/");
        assert_eq!(normalize_base_url(&slashed).ok(), normalize_base_url(url).ok());
    }
    assert_ne!(normalize_base_url("https://a /").ok(), normalize_base_url("https://a ").ok());
}
