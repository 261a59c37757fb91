use axum::http::{HeaderMap, HeaderValue};
use web_speedtest::app::{
    answer_at, clean_optional, client_config, exit_code_for_error, extract_client_ip, header_ip, parse_ip_candidate,
    prepare_save, resolve_config_path_from_env, results_filter, take_result, take_result_at, visible_text, AppError,
    ClientConfig, PendingSave, ResultsQuery, SaveResultRequest,
};
use web_speedtest::clock::UtcTime;
use web_speedtest::config::{
    ConfigError, DatabaseConfig, DisplaySettings, HistorySettings, RuntimeConfig, ServerConfig, TestSettings,
    TestTarget,
};
use web_speedtest::ip::IpAddr;
use web_speedtest::store::{SqlValue, StoreError};
use web_speedtest::tokens::UpdateTokenStore;

fn running() -> RuntimeConfig<f64> {
    RuntimeConfig {
        server: ServerConfig::default(),
        database: DatabaseConfig::default(),
        test: TestSettings {
            latency_rounds: 5,
            latency_timeout_ms: 3500,
            download_test_ms: 8500,
            download_file_path: "/s.bin".to_string(),
            progress_save_ratio: 0.5,
        },
        history: HistorySettings::default(),
        display: DisplaySettings { show_domains: false },
        targets: vec![TestTarget {
            key: "a1".to_string(),
            label: "a1 线路".to_string(),
            host: "a1.example.com".to_string(),
            cname: "-".to_string(),
            trace_url: "https://a1.example.com/cdn-cgi/trace".to_string(),
            download_url: "https://a1.example.com/s.bin".to_string(),
        }],
    }
}

fn request(id: Option<i64>, update_token: Option<&str>) -> SaveResultRequest<f64> {
    SaveResultRequest {
        id,
        update_token: update_token.map(|token| token.to_string()),
        domain: "a1.example.com".to_string(),
        https_latency_ms: 42.0,
        https_jitter_ms: 6.5,
        download_mbps: 80.0,
        client_ip: Some(" 2001:DB8::1 , 9.9.9.9".to_string()),
        ip_country: Some(" 德国 ".to_string()),
        ip_region: Some("  ".to_string()),
        ip_city: None,
        ip_isp: Some("xtom.com".to_string()),
        colo: Some(" SJC ".to_string()),
    }
}

fn loopback() -> IpAddr {
    IpAddr::V4([127, 0, 0, 1])
}

fn take(
    request: SaveResultRequest<f64>,
    tokens: &mut UpdateTokenStore,
    now: i64,
) -> Result<PendingSave<f64>, AppError> {
    take_result_at(&running(), request, &HeaderMap::new(), &loopback(), tokens, true, at(now))
}

fn at(secs: i64) -> UtcTime {
    UtcTime { secs, nanos: 0 }
}

#[test]
fn exit_code_for_error_should_return_config_code_for_domain_config_errors() {
    let error = AppError::Config(ConfigError::MissingDomainFile("domains.yaml".to_string()));

    let code = exit_code_for_error(&error);

    assert_eq!(code, 78);
    assert_eq!(exit_code_for_error(&AppError::Config(ConfigError::NoDomains)), 78);
    assert_eq!(exit_code_for_error(&AppError::Io("x".to_string())), 1);
    assert_eq!(exit_code_for_error(&AppError::Store(StoreError::LockPoisoned)), 1);
    assert_eq!(exit_code_for_error(&AppError::UnknownTarget("x".to_string())), 1);
}

#[test]
fn config_path_should_prefer_current_project_env_var() {
    let path = resolve_config_path_from_env(|name: &str| match name {
        "WEB_SPEEDTEST_CONFIG" => Some("new-config.toml".to_string()),
        "WEB_SPEED_CONFIG" => Some("legacy-config.toml".to_string()),
        _ => None,
    });

    assert_eq!(path, "new-config.toml");
}

#[test]
fn config_path_should_fallback_to_legacy_env_var() {
    let path = resolve_config_path_from_env(|name: &str| match name {
        "WEB_SPEED_CONFIG" => Some("legacy-config.toml".to_string()),
        _ => None,
    });

    assert_eq!(path, "legacy-config.toml");
}

#[test]
fn config_path_should_use_default_config_when_env_vars_are_missing() {
    let path = resolve_config_path_from_env(|_: &str| None);

    assert_eq!(path, "config.toml");
}

#[test]
fn client_config_should_include_display_settings() {
    let payload: ClientConfig<f64> = client_config(&running());

    assert_eq!(payload.display.show_domains, false);
    assert_eq!(payload.targets.len(), 1);
    assert_eq!(payload.targets[0].host, "a1.example.com");
    assert_eq!(payload.test.download_file_path, "/s.bin");
    assert_eq!(payload.test.progress_save_ratio, 0.5);
    assert_eq!(payload.history, HistorySettings::default());
}

#[test]
fn extract_client_ip_should_prefer_valid_reported_ip() {
    let headers = HeaderMap::new();
    let socket = IpAddr::V4([127, 0, 0, 1]);

    let ip = extract_client_ip(&headers, &socket, Some("8.8.8.8"));

    assert_eq!(ip, "8.8.8.8");
}

#[test]
fn extract_client_ip_should_fallback_to_socket_when_reported_ip_is_invalid() {
    let headers = HeaderMap::new();
    let socket = IpAddr::V4([10, 0, 0, 2]);

    let ip = extract_client_ip(&headers, &socket, Some("bad-ip"));

    assert_eq!(ip, "10.0.0.2");
}

#[test]
fn proxies_are_asked_in_order() {
    let socket = IpAddr::V6([0, 0, 0, 0, 0, 0, 0, 1]);
    let mut headers = HeaderMap::new();
    assert_eq!(extract_client_ip(&headers, &socket, None), "::1");
    headers.insert("x-forwarded-for", HeaderValue::from_static("1.1.1.1, 2.2.2.2"));
    assert_eq!(extract_client_ip(&headers, &socket, None), "1.1.1.1");
    headers.insert("x-real-ip", HeaderValue::from_static("nonsense"));
    assert_eq!(extract_client_ip(&headers, &socket, None), "1.1.1.1");
    headers.insert("x-real-ip", HeaderValue::from_static("3.3.3.3"));
    assert_eq!(extract_client_ip(&headers, &socket, None), "3.3.3.3");
    headers.insert("CF-Connecting-IP", HeaderValue::from_static("4.4.4.4"));
    headers.append("cf-connecting-ip", HeaderValue::from_static("5.5.5.5"));
    assert_eq!(extract_client_ip(&headers, &socket, None), "4.4.4.4");
    assert_eq!(extract_client_ip(&headers, &socket, Some("6.6.6.6")), "6.6.6.6");
}

#[test]
fn fields_that_are_not_visible_text_are_passed_over() {
    let mut headers = HeaderMap::new();
    headers.insert("x-real-ip", HeaderValue::from_bytes(b"\xff1.1.1.1").unwrap());
    assert_eq!(header_ip(&headers, "x-real-ip"), None);
    headers.insert("x-real-ip", HeaderValue::from_bytes(b"\t1.1.1.1 ").unwrap());
    assert_eq!(header_ip(&headers, "x-real-ip"), Some("1.1.1.1".to_string()));
    assert_eq!(header_ip(&headers, "x-forwarded-for"), None);
    for b in 0..=255u8 {
        if let Ok(value) = HeaderValue::from_bytes(&[b'a', b]) {
            let expected = value.to_str().ok().map(|text| text.to_string());
            assert_eq!(visible_text(&vec![b'a', b]), expected);
        }
    }
}

#[test]
fn field_names_are_looked_up_in_any_case_and_refused_where_they_are_none() {
    let mut headers = HeaderMap::new();
    headers.insert("x-real-ip", HeaderValue::from_static("3.3.3.3"));
    headers.insert("x-4", HeaderValue::from_static("4.4.4.4"));
    assert_eq!(header_ip(&headers, "X-Real-IP"), Some("3.3.3.3".to_string()));
    assert_eq!(header_ip(&headers, "X-4"), Some("4.4.4.4".to_string()));
    for bad in ["", " ", "x real ip", "x-real-ip:", "x-réal-ip", "\"x-real-ip\"", &"y".repeat(70_000)] {
        assert_eq!(header_ip(&headers, bad), None);
    }
    for code in 0..128u8 {
        let name = format!("a{}", code as char);
        let valid = axum::http::HeaderName::from_bytes(name.as_bytes());
        let mut one = HeaderMap::new();
        if let Ok(valid) = valid {
            one.insert(valid, HeaderValue::from_static("5.5.5.5"));
            assert_eq!(header_ip(&one, &name), Some("5.5.5.5".to_string()));
        } else {
            assert_eq!(header_ip(&one, &name), None);
        }
    }
    let long = "Z".repeat(100);
    headers.insert(
        axum::http::HeaderName::from_bytes(long.as_bytes()).unwrap(),
        HeaderValue::from_static("6.6.6.6"),
    );
    assert_eq!(header_ip(&headers, &long), Some("6.6.6.6".to_string()));
    assert_eq!(header_ip(&headers, &"z".repeat(100)), Some("6.6.6.6".to_string()));
}

#[test]
fn candidates_are_the_first_address_in_its_canonical_text() {
    assert_eq!(parse_ip_candidate(" 1.2.3.4 , 5.6.7.8"), Some("1.2.3.4".to_string()));
    assert_eq!(parse_ip_candidate("2001:DB8:0::1"), Some("2001:db8::1".to_string()));
    assert_eq!(parse_ip_candidate("2001:db8::1"), Some("2001:db8::1".to_string()));
    for bad in ["", " ", ",1.2.3.4", "x,1.2.3.4", "1.2.3.4:80"] {
        assert_eq!(parse_ip_candidate(bad), None);
    }
}

#[test]
fn optional_texts_are_cleaned() {
    assert_eq!(clean_optional(Some(" a b ".to_string())), Some("a b".to_string()));
    assert_eq!(clean_optional(Some(" \n".to_string())), None);
    assert_eq!(clean_optional(None), None);
}

#[test]
fn reported_results_are_checked_and_cleaned() {
    let headers = HeaderMap::new();
    let prepared = prepare_save(&running(), request(None, None), &headers, &loopback()).unwrap();
    assert_eq!(prepared.update_token, "");
    let input = prepared.input;
    assert_eq!(input.id, None);
    assert_eq!(input.domain, "a1.example.com");
    assert_eq!((input.https_latency_ms, input.https_jitter_ms, input.download_mbps), (42.0, 6.5, 80.0));
    assert_eq!(input.client_ip.as_deref(), Some("127.0.0.1"));
    assert_eq!(input.ip_country.as_deref(), Some("德国"));
    assert_eq!(input.ip_region, None);
    assert_eq!(input.ip_city, None);
    assert_eq!(input.ip_isp.as_deref(), Some("xtom.com"));
    assert_eq!(input.colo.as_deref(), Some(" SJC "));
    let mut unknown = request(None, None);
    unknown.domain = "A1.example.com".to_string();
    let refused = prepare_save(&running(), unknown, &headers, &loopback());
    assert!(matches!(refused, Err(AppError::UnknownTarget(domain)) if domain == "A1.example.com"));
}

#[test]
fn the_kept_address_is_never_the_reported_one() {
    let kept = |reported: Option<&str>, headers: &HeaderMap| {
        let mut sent = request(None, None);
        sent.client_ip = reported.map(|ip| ip.to_string());
        prepare_save(&running(), sent, headers, &loopback()).unwrap().input.client_ip
    };
    let mut headers = HeaderMap::new();
    for reported in [None, Some("1.2.3.4"), Some("nonsense")] {
        assert_eq!(kept(reported, &headers).as_deref(), Some("127.0.0.1"));
    }
    headers.insert("x-forwarded-for", HeaderValue::from_static("2001:DB8::7, 10.0.0.1"));
    for reported in [None, Some("1.2.3.4"), Some("nonsense")] {
        assert_eq!(kept(reported, &headers).as_deref(), Some("2001:db8::7"));
    }
}

#[test]
fn a_new_result_can_be_updated_once() {
    let mut tokens = UpdateTokenStore::default();
    let start = 1_700_000_000;

    let new = take(request(None, None), &mut tokens, start).unwrap();
    assert_eq!((new.id, new.update_token.as_str()), (None, ""));
    assert!(new.statement.sql.starts_with("INSERT INTO speed_results"));
    assert!(matches!(&new.statement.values[4], SqlValue::Text(ip) if ip == "127.0.0.1"));
    assert!(matches!(&new.statement.values[10], SqlValue::Text(time) if time == "2023-11-14T22:13:20+00:00"));
    let answer = answer_at(new.id, new.update_token, Ok(42), &mut tokens, at(start)).unwrap();
    assert_eq!(answer.id, 42);
    let token = answer.update_token;

    let forged = take(request(Some(42), None), &mut tokens, start + 1);
    assert!(matches!(forged, Err(AppError::Store(StoreError::InvalidUpdateToken))));
    let update = take(request(Some(42), Some(&token)), &mut tokens, start + 29).unwrap();
    assert!(update.statement.sql.starts_with("UPDATE speed_results"));
    assert!(matches!(&update.statement.values[0], SqlValue::Integer(42)));
    let again = take(request(Some(42), Some(&token)), &mut tokens, start + 29);
    assert!(matches!(again, Err(AppError::Store(StoreError::InvalidUpdateToken))));
    let answer = answer_at(update.id, update.update_token, Ok(42), &mut tokens, at(start + 29)).unwrap();
    assert_eq!((answer.id, answer.update_token), (42, token));
}

#[test]
fn results_are_refused_before_anything_is_written() {
    let mut tokens = UpdateTokenStore::default();
    let token = tokens.create_at(42, at(0));
    let mut unknown = request(Some(42), Some(&token));
    unknown.domain = "nowhere".to_string();
    assert!(matches!(take(unknown, &mut tokens, 1), Err(AppError::UnknownTarget(domain)) if domain == "nowhere"));
    let headers = HeaderMap::new();
    let broken = take_result_at(
        &running(),
        request(Some(42), Some(&token)),
        &headers,
        &loopback(),
        &mut tokens,
        false,
        at(1),
    );
    assert!(matches!(broken, Err(AppError::Store(StoreError::LockPoisoned))));
    let new = take_result_at(&running(), request(None, None), &headers, &loopback(), &mut tokens, false, at(1));
    assert!(new.is_ok());
    assert!(take(request(Some(42), Some(&token)), &mut tokens, 1).is_ok());
    assert!(take_result(&running(), request(None, None), &headers, &loopback(), &mut tokens, true).is_ok());
}

#[test]
fn what_could_not_be_kept_is_reported() {
    let mut tokens = UpdateTokenStore::default();
    let failed = answer_at(None, String::new(), Err(StoreError::Database("full".to_string())), &mut tokens, at(0));
    assert!(matches!(failed, Err(AppError::Store(StoreError::Database(reason))) if reason == "full"));
}

#[test]
fn errors_have_a_status_and_a_text() {
    let cases = [
        (AppError::Store(StoreError::InvalidUpdateToken), 400, "更新令牌无效"),
        (AppError::Store(StoreError::Database("x".to_string())), 500, "数据库错误: x"),
        (AppError::Store(StoreError::LockPoisoned), 500, "数据库连接锁已损坏"),
        (AppError::UnknownTarget("x".to_string()), 400, "未知测速线路: x"),
        (AppError::Config(ConfigError::NoDomains), 500, "配置中没有可用线路"),
        (AppError::Io("x".to_string()), 500, "服务启动失败: x"),
    ];
    for (error, status, message) in cases {
        assert_eq!(error.status_code(), status);
        assert_eq!(error.message(), message);
    }
}

#[test]
fn queries_keep_to_the_history_limits() {
    let filter = |limit: Option<usize>| {
        results_filter(
            &running(),
            ResultsQuery { domain: Some("d".to_string()), q: Some("k".to_string()), limit },
        )
    };
    assert_eq!(filter(None).limit, 80);
    assert_eq!(filter(Some(0)).limit, 1);
    assert_eq!(filter(Some(9999)).limit, 200);
    assert_eq!(filter(None).domain.as_deref(), Some("d"));
    assert_eq!(filter(None).q.as_deref(), Some("k"));
}
