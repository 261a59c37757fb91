use rusqlite::types::Value;
use rusqlite::{params_from_iter, Connection};
use web_speedtest::clock::UtcTime;
use web_speedtest::models::PublicSpeedRecord;
use web_speedtest::store::{
    public_record, query_statement, save_statement, save_statement_at, saved_id, QueryFilter, SaveResultInput,
    SqlValue, Statement, StoreError, StoredRecord, CREATE_INDEXES, CREATE_TABLE,
};

struct SpeedStore {
    conn: Connection,
}

fn bound(values: Vec<SqlValue<f64>>) -> Vec<Value> {
    values
        .into_iter()
        .map(|value| match value {
            SqlValue::Null => Value::Null,
            SqlValue::Integer(n) => Value::Integer(n),
            SqlValue::Real(x) => Value::Real(x),
            SqlValue::Text(text) => Value::Text(text),
        })
        .collect()
}

impl SpeedStore {
    fn in_memory() -> SpeedStore {
        let conn = Connection::open_in_memory().expect("store should initialize");
        conn.execute_batch(CREATE_TABLE).expect("store should initialize");
        conn.execute_batch(CREATE_INDEXES).expect("store should initialize");
        SpeedStore { conn }
    }

    fn save_result(&self, input: SaveResultInput<f64>) -> Result<i64, StoreError> {
        let id = input.id;
        let statement = save_statement(input);
        let rows = self
            .conn
            .execute(&statement.sql, params_from_iter(bound(statement.values)))
            .map_err(|e| StoreError::Database(e.to_string()))?;
        saved_id(id, rows, self.conn.last_insert_rowid())
    }

    fn query_results(&self, filter: QueryFilter) -> Vec<PublicSpeedRecord<f64>> {
        let statement: Statement<f64> = query_statement(filter);
        let mut stmt = self.conn.prepare(&statement.sql).expect("query should work");
        let rows = stmt
            .query_map(params_from_iter(bound(statement.values)), |row| {
                Ok(public_record(StoredRecord {
                    id: row.get(0)?,
                    domain: row.get(1)?,
                    https_latency_ms: row.get(2)?,
                    https_jitter_ms: row.get(3)?,
                    download_mbps: row.get(4)?,
                    client_ip: row.get(5)?,
                    ip_country: row.get(6)?,
                    ip_region: row.get(7)?,
                    ip_city: row.get(8)?,
                    ip_isp: row.get(9)?,
                    colo: row.get(10)?,
                    created_at: row.get(11)?,
                }))
            })
            .expect("query should work");
        rows.map(|row| row.expect("query should work")).collect()
    }
}

fn sample_input() -> SaveResultInput<f64> {
    SaveResultInput {
        id: None,
        domain: "a1.example.com".to_string(),
        https_latency_ms: 42.0,
        https_jitter_ms: 6.5,
        download_mbps: 80.0,
        client_ip: Some("1.2.3.4".to_string()),
        ip_country: Some("德国".to_string()),
        ip_region: Some("黑森州".to_string()),
        ip_city: Some("法兰克福".to_string()),
        ip_isp: Some("xtom.com".to_string()),
        colo: Some("SJC".to_string()),
    }
}

fn table_columns(store: &SpeedStore) -> Vec<String> {
    let mut stmt = store
        .conn
        .prepare("PRAGMA table_info(speed_results)")
        .expect("schema should be readable");
    let rows = stmt
        .query_map([], |row| row.get::<_, String>(1))
        .expect("columns should query");
    rows.map(|row| row.expect("columns should collect")).collect()
}

#[test]
fn store_should_create_simplified_schema() {
    let store = SpeedStore::in_memory();

    let columns = table_columns(&store);

    assert!(columns.iter().any(|column| column == "domain"));
    assert!(columns.iter().any(|column| column == "https_latency_ms"));
    assert!(columns.iter().any(|column| column == "https_jitter_ms"));
    assert!(columns.iter().any(|column| column == "download_mbps"));
    assert!(!columns.iter().any(|column| column == "update_token"));
    assert!(!columns.iter().any(|column| column == "domain_key"));
    assert!(!columns.iter().any(|column| column == "domain_host"));
    assert!(
        !columns
            .iter()
            .any(|column| column == "partial_download_mbps")
    );
    assert!(!columns.iter().any(|column| column == "final_download_mbps"));
    assert!(!columns.iter().any(|column| column == "updated_at"));
}

#[test]
fn store_should_insert_record_and_query_simplified_public_record() {
    let store = SpeedStore::in_memory();
    let saved = store.save_result(sample_input()).expect("save should work");

    let records = store.query_results(QueryFilter::default());

    assert_eq!(records.len(), 1);
    assert_eq!(records[0].id, saved);
    assert_eq!(records[0].domain, "a1.example.com");
    assert_eq!(records[0].https_latency_ms, Some(42.0));
    assert_eq!(records[0].https_jitter_ms, Some(6.5));
    assert_eq!(records[0].download_mbps, Some(80.0));
    assert_eq!(records[0].client_ip, "1.2.3.*");
    assert_eq!(records[0].ip_country.as_deref(), Some("德国"));
    assert_eq!(records[0].ip_isp.as_deref(), Some("xtom.com"));
}

#[test]
fn store_should_update_existing_record_without_database_token() {
    let store = SpeedStore::in_memory();
    let saved = store.save_result(sample_input()).expect("save should work");
    let mut update = sample_input();
    update.id = Some(saved);
    update.download_mbps = 120.0;

    store.save_result(update).expect("update should work");
    let records = store.query_results(QueryFilter::default());

    assert_eq!(records[0].download_mbps, Some(120.0));
}

#[test]
fn store_should_query_multiple_keywords_across_ip_location_and_isp() {
    let store = SpeedStore::in_memory();
    store.save_result(sample_input()).expect("save should work");

    let records = store.query_results(QueryFilter {
        q: Some("德国 xtom".to_string()),
        limit: 80,
        ..QueryFilter::default()
    });

    assert_eq!(records.len(), 1);
}

#[test]
fn store_should_apply_resolved_query_limit() {
    let store = SpeedStore::in_memory();
    store.save_result(sample_input()).expect("save should work");
    let mut second = sample_input();
    second.domain = "a2.example.com".to_string();
    store.save_result(second).expect("save should work");

    let records = store.query_results(QueryFilter {
        limit: 1,
        ..QueryFilter::default()
    });

    assert_eq!(records.len(), 1);
}

#[test]
fn updates_of_unknown_results_are_refused() {
    let store = SpeedStore::in_memory();
    let mut update = sample_input();
    update.id = Some(7);
    assert!(matches!(store.save_result(update), Err(StoreError::InvalidUpdateToken)));
    assert!(store.query_results(QueryFilter::default()).is_empty());
    assert!(matches!(saved_id(Some(3), 0, 9), Err(StoreError::InvalidUpdateToken)));
    assert!(matches!(saved_id(Some(3), 1, 9), Ok(3)));
    assert!(matches!(saved_id(None, 1, 9), Ok(9)));
}

#[test]
fn updates_keep_what_is_not_given_anew() {
    let store = SpeedStore::in_memory();
    let saved = store.save_result(sample_input()).expect("save should work");
    let created_at = store.query_results(QueryFilter::default())[0].created_at.clone();
    let update = SaveResultInput {
        id: Some(saved),
        domain: "a2.example.com".to_string(),
        https_latency_ms: 1.0,
        https_jitter_ms: 2.0,
        download_mbps: 3.0,
        client_ip: None,
        ip_country: Some("法国".to_string()),
        ip_region: None,
        ip_city: None,
        ip_isp: None,
        colo: None,
    };
    assert!(matches!(store.save_result(update), Ok(id) if id == saved));
    let records = store.query_results(QueryFilter::default());
    assert_eq!(records[0].domain, "a2.example.com");
    assert_eq!(records[0].https_latency_ms, Some(1.0));
    assert_eq!(records[0].https_jitter_ms, Some(2.0));
    assert_eq!(records[0].client_ip, "1.2.3.*");
    assert_eq!(records[0].ip_country.as_deref(), Some("法国"));
    assert_eq!(records[0].ip_region.as_deref(), Some("黑森州"));
    assert_eq!(records[0].ip_city.as_deref(), Some("法兰克福"));
    assert_eq!(records[0].ip_isp.as_deref(), Some("xtom.com"));
    assert_eq!(records[0].colo.as_deref(), Some("SJC"));
    assert_eq!((records[0].id, records[0].created_at.as_str()), (saved, created_at.as_str()));
}

#[test]
fn queries_find_by_domain_and_by_every_keyword_column() {
    let store = SpeedStore::in_memory();
    store.save_result(sample_input()).expect("save should work");
    let mut second = sample_input();
    second.domain = "a2.example.com".to_string();
    store.save_result(second).expect("save should work");
    let find = |domain: Option<&str>, q: Option<&str>| {
        store
            .query_results(QueryFilter {
                domain: domain.map(|d| d.to_string()),
                q: q.map(|q| q.to_string()),
                limit: 80,
            })
            .len()
    };
    assert_eq!(find(None, None), 2);
    assert_eq!(find(Some("a2.example.com"), None), 1);
    assert_eq!(find(Some("a2"), None), 0);
    for keyword in ["a1.", "1.2.3.4", "德国", "黑森", "法兰克福", "xtom", "SJC"] {
        assert!(find(None, Some(keyword)) >= 1, "{keyword}");
    }
    assert_eq!(find(None, Some("  ")), 2);
    assert_eq!(find(None, Some("德国 nowhere")), 0);
    assert_eq!(find(Some("a1.example.com"), Some("\u{3000}xtom  SJC ")), 1);
    assert_eq!(find(None, Some("' OR 1=1 --")), 0);
}

#[test]
fn the_latest_results_come_first() {
    let store = SpeedStore::in_memory();
    let first = store.save_result(sample_input()).expect("save should work");
    let second = store.save_result(sample_input()).expect("save should work");
    let records = store.query_results(QueryFilter { limit: 10, ..QueryFilter::default() });
    let ids: Vec<i64> = records.iter().map(|record| record.id).collect();
    assert_eq!(ids, [second, first]);
}

#[test]
fn statements_have_a_value_for_each_placeholder() {
    for (domain, q) in [(None, None), (Some("d"), None), (None, Some("a b")), (Some("d"), Some(" x y  z"))] {
        let statement: Statement<f64> = query_statement(QueryFilter {
            domain: domain.map(|d: &str| d.to_string()),
            q: q.map(|q: &str| q.to_string()),
            limit: 5,
        });
        assert_eq!(statement.sql.matches('?').count(), statement.values.len());
    }
    let statement: Statement<f64> = query_statement(QueryFilter {
        domain: Some("d".to_string()),
        q: Some("k".to_string()),
        limit: 5,
    });
    assert_eq!(
        statement.sql,
        "SELECT id, domain, https_latency_ms, https_jitter_ms, download_mbps, client_ip, ip_country, ip_region, ip_city, ip_isp, colo, created_at FROM speed_results WHERE domain = ? AND (domain LIKE ? OR client_ip LIKE ? OR ip_country LIKE ? OR ip_region LIKE ? OR ip_city LIKE ? OR ip_isp LIKE ? OR colo LIKE ?) ORDER BY datetime(created_at) DESC, id DESC LIMIT ?"
    );
    assert!(matches!(&statement.values[1], SqlValue::Text(pattern) if pattern == "%k%"));
}

#[test]
fn limits_are_at_least_one() {
    let limit = |limit: usize| match query_statement::<f64>(QueryFilter { limit, ..QueryFilter::default() }).values.pop() {
        Some(SqlValue::Integer(n)) => n,
        _ => unreachable!(),
    };
    assert_eq!(limit(0), 1);
    assert_eq!(limit(1), 1);
    assert_eq!(limit(1000), 1000);
    for big in [i64::MAX as usize, i64::MAX as usize + 1, usize::MAX] {
        assert_eq!(limit(big), big as i64);
    }
}

#[test]
fn new_results_carry_their_time() {
    let created = |secs: i64, nanos: u32| match save_statement_at(sample_input(), UtcTime { secs, nanos }).values.pop() {
        Some(SqlValue::Text(text)) => text,
        _ => unreachable!(),
    };
    assert_eq!(created(0, 0), "1970-01-01T00:00:00+00:00");
    assert_eq!(created(1_700_000_000, 123_456_789), "2023-11-14T22:13:20.123456789+00:00");
    let mut update = sample_input();
    update.id = Some(5);
    let statement = save_statement_at(update, UtcTime { secs: 0, nanos: 0 });
    assert_eq!(statement.values.len(), 11);
    assert!(matches!(statement.values[0], SqlValue::Integer(5)));
}

#[test]
fn public_records_never_show_what_is_no_address() {
    let shown = |client_ip: Option<&str>| {
        public_record(StoredRecord {
            id: 1,
            domain: "d".to_string(),
            https_latency_ms: Some(1.0),
            https_jitter_ms: None,
            download_mbps: None,
            client_ip: client_ip.map(|ip| ip.to_string()),
            ip_country: None,
            ip_region: None,
            ip_city: None,
            ip_isp: None,
            colo: None,
            created_at: "t".to_string(),
        })
        .client_ip
    };
    assert_eq!(shown(None), "未知");
    assert_eq!(shown(Some("secret")), "未知");
    assert_eq!(shown(Some("::ffff:9.8.7.6")), "9.8.7.*");
    assert_eq!(shown(Some("::ffff:9.8.7.200")), shown(Some("9.8.7.6")));
    assert_eq!(shown(Some("2001:db8:1:2::3")), shown(Some("2001:db8:1::")));
}

#[test]
fn store_errors_describe_themselves() {
    assert_eq!(StoreError::Database("x".to_string()).message(), "数据库错误: x");
    assert_eq!(StoreError::InvalidUpdateToken.message(), "更新令牌无效");
    assert_eq!(StoreError::LockPoisoned.message(), "数据库连接锁已损坏");
}
