use web_speedtest::config::{
    default_download_test_ms, default_latency_rounds, default_latency_timeout_ms, load_domain_items,
    normalize_download_file_path, select_file_test_settings, ConfigError, ConfigFile, DatabaseConfig,
    DisplaySettings, DomainConfig, DomainFile, DomainItem, FileConfig, FileTestSettings, HistorySettings,
    RuntimeConfig, ServerConfig,
};

const A1: &str = r#"
domains:
  - name: "a1 线路"
    url: "https://a1.example.com"
"#;

fn text(table: &toml::Table, key: &str) -> Option<String> {
    table.get(key).and_then(|value| value.as_str()).map(|value| value.to_string())
}

fn number(table: &toml::Table, key: &str) -> Option<i64> {
    table.get(key).and_then(|value| value.as_integer())
}

fn section(table: &toml::Table, key: &str) -> Option<toml::Table> {
    table.get(key).and_then(|value| value.as_table()).cloned()
}

fn test_settings(section: &toml::Table) -> Result<FileTestSettings<f64>, String> {
    Ok(FileTestSettings {
        latency_rounds: number(section, "latency_rounds").map_or(default_latency_rounds(), |n| n as usize),
        latency_timeout_ms: number(section, "latency_timeout_ms").map_or(default_latency_timeout_ms(), |n| n as u64),
        download_test_ms: number(section, "download_test_ms").map_or(default_download_test_ms(), |n| n as u64),
        download_file_path: text(section, "download_file_path").ok_or("missing field `download_file_path`")?,
        progress_save_ratio: section.get("progress_save_ratio").and_then(|x| x.as_float()).unwrap_or(0.5),
    })
}

fn optional_settings(table: &toml::Table, key: &str) -> Result<Option<FileTestSettings<f64>>, String> {
    match section(table, key) {
        Some(found) => Ok(Some(test_settings(&found)?)),
        None => Ok(None),
    }
}

fn file_config(input: &str) -> Result<FileConfig<f64>, String> {
    let table = input.parse::<toml::Table>().map_err(|e| e.to_string())?;
    let domains = section(&table, "domains").ok_or("missing field `domains`")?;
    let blacklist = match domains.get("blacklist").and_then(|value| value.as_array()) {
        Some(urls) => urls.iter().filter_map(|url| url.as_str()).map(|url| url.to_string()).collect(),
        None => Vec::new(),
    };
    let overrides = match domains.get("overrides").and_then(|value| value.as_array()) {
        Some(items) => items
            .iter()
            .filter_map(|item| item.as_table())
            .map(|item| DomainItem {
                name: text(item, "name"),
                url: text(item, "url").unwrap_or_default(),
                cname: text(item, "cname"),
            })
            .collect(),
        None => Vec::new(),
    };
    let server = section(&table, "server").map_or(ServerConfig::default(), |found| ServerConfig {
        host: text(&found, "host").unwrap_or_default(),
        port: number(&found, "port").unwrap_or_default() as u16,
    });
    let history = section(&table, "history").map_or(HistorySettings::default(), |found| HistorySettings {
        default_limit: number(&found, "default_limit").unwrap_or_default() as usize,
        max_limit: number(&found, "max_limit").unwrap_or_default() as usize,
    });
    let display = section(&table, "display").map_or(DisplaySettings::default(), |found| DisplaySettings {
        show_domains: found.get("show_domains").and_then(|value| value.as_bool()).unwrap_or_default(),
    });
    Ok(FileConfig {
        server,
        database: DatabaseConfig::default(),
        speedtest: optional_settings(&table, "speedtest")?,
        test: optional_settings(&table, "test")?,
        history,
        display,
        domains: DomainConfig {
            path: text(&domains, "path").ok_or("missing field `path`")?,
            blacklist,
            overrides,
        },
    })
}

fn yaml_text(item: &serde_yaml::Value, key: &str) -> Option<String> {
    item.get(key).and_then(|value| value.as_str()).map(|value| value.to_string())
}

fn domain_file(yaml: &str) -> DomainFile {
    let value = match serde_yaml::from_str::<serde_yaml::Value>(yaml) {
        Ok(value) => value,
        Err(e) => return DomainFile::Malformed(e.to_string()),
    };
    let items = match value.get("domains").and_then(|items| items.as_sequence()) {
        Some(items) => items
            .iter()
            .map(|item| DomainItem {
                name: yaml_text(item, "name"),
                url: yaml_text(item, "url").unwrap_or_default(),
                cname: yaml_text(item, "cname"),
            })
            .collect(),
        None => Vec::new(),
    };
    DomainFile::Loaded(items)
}

fn read(toml: &str, yaml: &str) -> Result<RuntimeConfig<f64>, ConfigError> {
    RuntimeConfig::from_toml_str(file_config(toml), domain_file(yaml))
}

fn item(name: &str, url: &str, cname: &str) -> DomainItem {
    let given = |value: &str| if value.is_empty() { None } else { Some(value.to_string()) };
    DomainItem { name: given(name), url: url.to_string(), cname: given(cname) }
}

#[test]
fn runtime_config_should_require_external_domain_file_path() {
    let result = read(
        r#"
        [speedtest]
        download_file_path = "/speed.bin"

        [domains]
        "#,
        A1,
    );

    assert!(matches!(result, Err(ConfigError::Toml(_))));
}

#[test]
fn runtime_config_should_reject_missing_external_domain_file() {
    let toml = r#"
        [speedtest]
        download_file_path = "/missing-domain-speed.bin"

        [domains]
        path = 'web-speedtest-missing-domains.yaml'
        "#;

    let result = RuntimeConfig::from_toml_str(file_config(toml), DomainFile::Missing);

    assert!(
        matches!(result, Err(ConfigError::MissingDomainFile(path)) if path == "web-speedtest-missing-domains.yaml")
    );
}

#[test]
fn runtime_config_should_reject_empty_external_domain_file() {
    let result = read(
        r#"
        [speedtest]
        download_file_path = "/empty-domain-speed.bin"

        [domains]
        path = 'domains.yaml'
        "#,
        "domains: []",
    );

    assert!(matches!(result, Err(ConfigError::NoDomains)));
}

#[test]
fn runtime_config_should_read_server_and_test_options_from_toml() {
    let config = read(
        r#"
        [server]
        host = "0.0.0.0"
        port = 52143

        [speedtest]
        latency_rounds = 7
        latency_timeout_ms = 2200
        download_test_ms = 12000
        download_file_path = "/custom-speed.bin"
        progress_save_ratio = 0.35

        [domains]
        path = 'domains.yaml'
        "#,
        A1,
    )
    .expect("config should parse");

    assert_eq!(config.listen_addr(), "0.0.0.0:52143");
    assert_eq!(config.test.latency_rounds, 7);
    assert_eq!(config.test.download_test_ms, 12000);
    assert_eq!(config.test.progress_save_ratio, 0.35);
    assert_eq!(
        config.targets[0].download_url,
        "https://a1.example.com/custom-speed.bin"
    );
}

#[test]
fn runtime_config_should_accept_legacy_test_section() {
    let config = read(
        r#"
        [test]
        download_file_path = "/legacy-speed.bin"

        [domains]
        path = 'domains.yaml'
        "#,
        A1,
    )
    .expect("legacy config should parse");

    assert_eq!(
        config.targets[0].download_url,
        "https://a1.example.com/legacy-speed.bin"
    );
}

#[test]
fn runtime_config_should_prefer_speedtest_section_over_legacy_test_section() {
    let config = read(
        r#"
        [test]
        download_file_path = "/legacy-speed.bin"

        [speedtest]
        download_file_path = "/new-speed.bin"

        [domains]
        path = 'domains.yaml'
        "#,
        A1,
    )
    .expect("config should parse");

    assert_eq!(
        config.targets[0].download_url,
        "https://a1.example.com/new-speed.bin"
    );
}

#[test]
fn runtime_config_should_require_download_file_path_when_domains_exist() {
    let result = read(
        r#"
        [speedtest]
        latency_rounds = 2

        [domains]
        path = 'domains.yaml'
        "#,
        A1,
    );

    assert!(matches!(result, Err(ConfigError::Toml(_))));
}

#[test]
fn runtime_config_should_reject_invalid_download_file_path() {
    let result = read(
        r#"
        [speedtest]
        download_file_path = "speed.bin"

        [domains]
        path = 'domains.yaml'
        "#,
        A1,
    );

    assert!(
        matches!(result, Err(ConfigError::InvalidDownloadFilePath(path)) if path == "speed.bin")
    );
}

#[test]
fn runtime_config_should_read_history_limits_from_toml() {
    let config = read(
        r#"
        [history]
        default_limit = 40
        max_limit = 90

        [speedtest]
        download_file_path = "/history-speed.bin"

        [domains]
        path = 'domains.yaml'
        "#,
        A1,
    )
    .expect("config should parse");

    assert_eq!(config.history.default_limit, 40);
    assert_eq!(config.history.max_limit, 90);
}

#[test]
fn runtime_config_should_read_display_settings_from_toml() {
    let config = read(
        r#"
        [display]
        show_domains = false

        [speedtest]
        download_file_path = "/display-speed.bin"

        [domains]
        path = 'domains.yaml'
        "#,
        A1,
    )
    .expect("config should parse");

    assert!(!config.display.show_domains);
}

#[test]
fn runtime_config_should_reject_invalid_history_limits() {
    let result = read(
        r#"
        [history]
        default_limit = 201
        max_limit = 200

        [speedtest]
        download_file_path = "/invalid-history-speed.bin"

        [domains]
        path = 'domains.yaml'
        "#,
        A1,
    );

    assert!(matches!(result, Err(ConfigError::InvalidHistoryLimit)));
}

#[test]
fn runtime_config_should_read_domains_from_yaml_and_apply_overrides() {
    let config = read(
        r#"
        [speedtest]
        download_file_path = "/domain-speed.bin"

        [domains]
        path = 'domains.yaml'

        [[domains.overrides]]
        url = "https://line-a.example.com/"
        cname = "line-a.cname.example.com"

        [[domains.overrides]]
        name = "覆盖后的 a1"
        url = "https://line-b.example.com"

        [[domains.overrides]]
        name = "新增线路"
        url = "https://new.example.com/"
        cname = "new.cname.example.com"
        "#,
        r#"
emby:
  server_url: "https://free.lilyemby.com"
server:
  port: 52143
domains:
  - name: "19931110 线路"
    url: "https://line-a.example.com"
  - name: "a1 线路"
    url: "https://line-b.example.com/"
"#,
    )
    .expect("config should parse");

    assert_eq!(config.targets.len(), 3);
    assert_eq!(config.targets[0].label, "19931110 线路");
    assert_eq!(config.targets[0].cname, "line-a.cname.example.com");
    assert_eq!(
        config.targets[0].trace_url,
        "https://line-a.example.com/cdn-cgi/trace"
    );
    assert_eq!(config.targets[1].label, "覆盖后的 a1");
    assert_eq!(config.targets[1].cname, "-");
    assert_eq!(
        config.targets[1].download_url,
        "https://line-b.example.com/domain-speed.bin"
    );
    assert_eq!(config.targets[2].label, "新增线路");
    assert_eq!(config.targets[2].host, "new.example.com");
    assert_eq!(config.targets[2].cname, "new.cname.example.com");
}

#[test]
fn runtime_config_should_filter_blacklisted_domains_ignoring_trailing_slash() {
    let config = read(
        r#"
        [speedtest]
        download_file_path = "/blacklist-speed.bin"

        [domains]
        path = 'domains.yaml'
        blacklist = [
            "https://x8.nginxlily.cyou/",
            "https://x9.nginxlily.cyou"
        ]
        "#,
        r#"
domains:
  - name: "x8 无尾斜杠"
    url: "https://x8.nginxlily.cyou"
  - name: "x9 有尾斜杠"
    url: "https://x9.nginxlily.cyou/"
  - name: "保留线路"
    url: "https://keep.example.com"
"#,
    )
    .expect("config should parse");

    assert_eq!(config.targets.len(), 1);
    assert_eq!(config.targets[0].host, "keep.example.com");
}

#[test]
fn runtime_config_should_reject_duplicate_domain_hosts() {
    let result = read(
        r#"
        [speedtest]
        download_file_path = "/duplicate-speed.bin"

        [domains]
        path = 'domains.yaml'
        "#,
        r#"
domains:
  - name: "a1"
    url: "https://dup.example.com"
  - name: "a2"
    url: "https://dup.example.com/"
"#,
    );

    assert!(
        matches!(result, Err(ConfigError::DuplicateDomain(domain)) if domain == "dup.example.com")
    );
}

#[test]
fn runtime_config_should_reject_missing_config_file() {
    let missing_path = "web-speedtest-missing-config.toml".to_string();
    let result = RuntimeConfig::<f64>::load(missing_path.clone(), ConfigFile::Missing, DomainFile::Missing);

    assert!(matches!(result, Err(ConfigError::MissingConfig(path)) if path == missing_path));
}

#[test]
fn runtime_config_should_reject_empty_domain_sources() {
    let result = read(
        r#"
        [speedtest]
        download_file_path = "/empty-source-speed.bin"

        [domains]
        path = 'domains.yaml'
        "#,
        "domains: []",
    );

    assert!(matches!(result, Err(ConfigError::NoDomains)));
}

#[test]
fn loading_reports_what_became_of_the_files() {
    let toml = "[speedtest]\ndownload_file_path = '/s'\n[domains]\npath = 'domains.yaml'\n";
    let parsed = || ConfigFile::Parsed(file_config(toml).unwrap());
    let path = || "config.toml".to_string();
    assert!(RuntimeConfig::load(path(), parsed(), domain_file(A1)).is_ok());
    let unreadable = RuntimeConfig::<f64>::load(path(), ConfigFile::Unreadable("denied".into()), DomainFile::Missing);
    assert!(matches!(unreadable, Err(ConfigError::Io(reason)) if reason == "denied"));
    let malformed = RuntimeConfig::<f64>::load(path(), ConfigFile::Malformed("bad".into()), DomainFile::Missing);
    assert!(matches!(malformed, Err(ConfigError::Toml(reason)) if reason == "bad"));
    let result = RuntimeConfig::load(path(), parsed(), DomainFile::Unreadable("gone".into()));
    assert!(matches!(result, Err(ConfigError::Io(reason)) if reason == "gone"));
    let result = RuntimeConfig::load(path(), parsed(), domain_file("domains: ["));
    assert!(matches!(result, Err(ConfigError::Yaml(_))));
}

#[test]
fn a_configuration_without_test_settings_is_refused() {
    let result = read("[domains]\npath = 'domains.yaml'\n", A1);
    assert!(matches!(result, Err(ConfigError::MissingSpeedtestSettings)));
    assert!(matches!(
        select_file_test_settings::<f64>(None, None),
        Err(ConfigError::MissingSpeedtestSettings)
    ));
}

#[test]
fn errors_come_in_the_order_of_the_steps() {
    let both_wrong = "[speedtest]\ndownload_file_path = 's'\n[domains]\npath = 'd'\nblacklist = ['nowhere']\n";
    let result = read(both_wrong, A1);
    assert!(matches!(result, Err(ConfigError::InvalidDomainUrl(url)) if url == "nowhere"));
    let all_blocked = "[history]\ndefault_limit = 9\nmax_limit = 3\n[speedtest]\ndownload_file_path = '/s'\n[domains]\npath = 'd'\nblacklist = ['https://a1.example.com/']\n";
    assert!(matches!(read(all_blocked, A1), Err(ConfigError::NoDomains)));
}

#[test]
fn settings_are_brought_into_their_ranges() {
    let settings = |rounds: usize, timeout: u64, download: u64| FileTestSettings {
        latency_rounds: rounds,
        latency_timeout_ms: timeout,
        download_test_ms: download,
        download_file_path: " /speed.bin ".to_string(),
        progress_save_ratio: 0.7,
    };
    let low = settings(0, 0, 0).normalized().unwrap();
    assert_eq!((low.latency_rounds, low.latency_timeout_ms, low.download_test_ms), (1, 300, 1_000));
    assert_eq!(low.download_file_path, "/speed.bin");
    assert_eq!(low.progress_save_ratio, 0.7);
    let high = settings(21, 30_001, 120_001).normalized().unwrap();
    assert_eq!((high.latency_rounds, high.latency_timeout_ms, high.download_test_ms), (20, 30_000, 120_000));
    let kept = settings(default_latency_rounds(), default_latency_timeout_ms(), default_download_test_ms());
    let kept = kept.normalized().unwrap();
    assert_eq!((kept.latency_rounds, kept.latency_timeout_ms, kept.download_test_ms), (5, 3500, 8500));
}

#[test]
fn download_paths_stand_below_the_address_of_a_line() {
    assert_eq!(normalize_download_file_path(" /a ").unwrap(), "/a");
    assert_eq!(normalize_download_file_path("//").unwrap(), "//");
    for bad in ["", " ", "/", " / ", "a/b", "https://a.example.com/x"] {
        assert!(
            matches!(normalize_download_file_path(bad), Err(ConfigError::InvalidDownloadFilePath(path)) if path == bad.trim())
        );
    }
}

#[test]
fn history_limits_are_kept_in_range() {
    let normalized = |default_limit, max_limit| HistorySettings { default_limit, max_limit }.normalized();
    assert_eq!(normalized(0, 0).unwrap(), HistorySettings { default_limit: 1, max_limit: 1 });
    assert_eq!(normalized(5000, 5000).unwrap(), HistorySettings { default_limit: 1000, max_limit: 1000 });
    assert!(matches!(normalized(2, 1), Err(ConfigError::InvalidHistoryLimit)));
    let settings = HistorySettings::default();
    assert_eq!((settings.default_limit, settings.max_limit), (80, 200));
    assert_eq!(settings.resolve_limit(None), 80);
    assert_eq!(settings.resolve_limit(Some(0)), 1);
    assert_eq!(settings.resolve_limit(Some(17)), 17);
    assert_eq!(settings.resolve_limit(Some(usize::MAX)), 200);
}

#[test]
fn defaults_are_those_of_a_local_service() {
    let server = ServerConfig::default();
    assert_eq!((server.host.as_str(), server.port), ("127.0.0.1", 3000));
    assert_eq!(DatabaseConfig::default().path, "speed_results.sqlite3");
    assert!(DisplaySettings::default().show_domains);
}

#[test]
fn lines_are_merged_and_filtered() {
    let config = DomainConfig {
        path: "d".to_string(),
        blacklist: vec!["https://b.example.com/".to_string()],
        overrides: vec![item("A", "https://a.example.com//", ""), item("", "https://c.example.com", "c")],
    };
    let file = vec![item("a", "https://a.example.com", ""), item("", "https://b.example.com", "")];
    let lines = load_domain_items(&config, DomainFile::Loaded(file)).unwrap();
    assert_eq!(lines.len(), 2);
    assert_eq!(lines[0].name.as_deref(), Some("A"));
    assert_eq!(lines[0].url, "https://a.example.com");
    assert_eq!(lines[1].url, "https://c.example.com");
}

#[test]
fn errors_describe_themselves() {
    let cases = [
        (ConfigError::Io("x".into()), "读取配置失败: x"),
        (ConfigError::MissingConfig("x".into()), "配置文件不存在: x"),
        (ConfigError::MissingDomainFile("x".into()), "外部线路文件不存在: x"),
        (ConfigError::Toml("x".into()), "TOML 配置解析失败: x"),
        (ConfigError::Yaml("x".into()), "YAML 线路配置解析失败: x"),
        (ConfigError::NoDomains, "配置中没有可用线路"),
        (ConfigError::InvalidDomainUrl("x".into()), "线路 URL 无效: x"),
        (ConfigError::DuplicateDomain("x".into()), "重复线路域名: x"),
        (ConfigError::MissingSpeedtestSettings, "缺少 [speedtest] 配置段"),
        (
            ConfigError::InvalidDownloadFilePath("x".into()),
            "speedtest.download_file_path 必须以 / 开头且不能只写 /: x",
        ),
        (ConfigError::InvalidHistoryLimit, "历史记录默认查询数量不能大于最大查询数量"),
    ];
    for (error, message) in cases {
        assert_eq!(error.message(), message);
    }
}

#[test]
fn copies_of_a_configuration_are_equal() {
    let config = read("[speedtest]\ndownload_file_path = '/s'\n[domains]\npath = 'd'\n", A1).unwrap();
    let copy = config.clone();
    assert_eq!(copy.listen_addr(), "127.0.0.1:3000");
    assert_eq!(copy.targets[0].key, config.targets[0].key);
    assert_eq!(copy.test.download_file_path, "/s");
    assert_eq!((copy.history, copy.display), (config.history, config.display));
}
