//! How results are kept: the statements that the database runs and what becomes of their outcome.
//!
//! Measurements are carried through unchanged, so the types that hold them are generic in `N`.
use vstd::prelude::*;
use vstd::string::*;

use crate::clock;
use crate::clock::UtcTime;
use crate::ip;
use crate::models;
use crate::models::PublicSpeedRecord;
use crate::text;

verus! {

/// The table of results.
pub const CREATE_TABLE: &'static str = "CREATE TABLE IF NOT EXISTS speed_results (
    id INTEGER PRIMARY KEY AUTOINCREMENT,
    domain TEXT NOT NULL,
    https_latency_ms REAL,
    https_jitter_ms REAL,
    download_mbps REAL,
    client_ip TEXT,
    ip_country TEXT,
    ip_region TEXT,
    ip_city TEXT,
    ip_isp TEXT,
    colo TEXT,
    created_at TEXT NOT NULL
);";

/// The indexes of the table.
pub const CREATE_INDEXES: &'static str = "CREATE INDEX IF NOT EXISTS idx_speed_results_created_at
    ON speed_results(created_at);
CREATE INDEX IF NOT EXISTS idx_speed_results_domain
    ON speed_results(domain);";

/// The columns that an insertion fills and a query reads, in this order.
pub const COLUMNS: &'static str = "domain, https_latency_ms, https_jitter_ms, download_mbps, client_ip, ip_country, ip_region, ip_city, ip_isp, colo, created_at";

pub const INSERT_INTO: &'static str = "INSERT INTO speed_results (";

pub const VALUES: &'static str = ") VALUES (?1, ?2, ?3, ?4, ?5, ?6, ?7, ?8, ?9, ?10, ?11)";

/// The update of a result. What is not given anew about the visitor stays as it was.
pub const UPDATE: &'static str = "UPDATE speed_results SET domain = ?2, https_latency_ms = ?3, https_jitter_ms = ?4, download_mbps = ?5, client_ip = COALESCE(?6, client_ip), ip_country = COALESCE(?7, ip_country), ip_region = COALESCE(?8, ip_region), ip_city = COALESCE(?9, ip_city), ip_isp = COALESCE(?10, ip_isp), colo = COALESCE(?11, colo) WHERE id = ?1";

pub const SELECT: &'static str = "SELECT id, ";

pub const FROM_TABLE: &'static str = " FROM speed_results";

/// The condition that a result is of one domain.
pub const DOMAIN_CLAUSE: &'static str = "domain = ?";

/// The condition that a result holds a keyword somewhere.
pub const KEYWORD_CLAUSE: &'static str = "(domain LIKE ? OR client_ip LIKE ? OR ip_country LIKE ? OR ip_region LIKE ? OR ip_city LIKE ? OR ip_isp LIKE ? OR colo LIKE ?)";

/// How many columns a keyword is looked for in.
pub const KEYWORD_COLUMNS: usize = 7;

/// The latest results come first.
pub const ORDER: &'static str = " ORDER BY datetime(created_at) DESC, id DESC LIMIT ?";

/// What can go wrong when a result is kept or read.
#[derive(Debug)]
pub enum StoreError {
    /// The database failed, for the given reason.
    Database(String),
    InvalidUpdateToken,
    LockPoisoned,
}

/// The mathematical model of a store error.
#[verifier::ext_equal]
pub ghost enum StoreErrorModel {
    Database(Seq<char>),
    InvalidUpdateToken,
    LockPoisoned,
}

impl View for StoreError {
    type V = StoreErrorModel;

    open spec fn view(&self) -> StoreErrorModel {
        match self {
            StoreError::Database(reason) => StoreErrorModel::Database(reason@),
            StoreError::InvalidUpdateToken => StoreErrorModel::InvalidUpdateToken,
            StoreError::LockPoisoned => StoreErrorModel::LockPoisoned,
        }
    }
}

impl StoreErrorModel {
    /// The text that describes the error.
    pub open spec fn message(self) -> Seq<char> {
        match self {
            StoreErrorModel::Database(reason) => "数据库错误: "@ + reason,
            StoreErrorModel::InvalidUpdateToken => "更新令牌无效"@,
            StoreErrorModel::LockPoisoned => "数据库连接锁已损坏"@,
        }
    }
}

impl StoreError {
    /// The text that describes the error.
    pub fn message(&self) -> (r: String)
        ensures
            r@ == self@.message(),
    {
        match self {
            StoreError::Database(reason) => {
                let mut out = "数据库错误: ".to_owned();
                out.append(reason.as_str());
                out
            },
            StoreError::InvalidUpdateToken => "更新令牌无效".to_owned(),
            StoreError::LockPoisoned => "数据库连接锁已损坏".to_owned(),
        }
    }
}

/// A result to keep: a new one, or a later state of the one with the given number.
#[derive(Debug)]
pub struct SaveResultInput<N> {
    pub id: Option<i64>,
    pub domain: String,
    pub https_latency_ms: N,
    pub https_jitter_ms: N,
    pub download_mbps: N,
    pub client_ip: Option<String>,
    pub ip_country: Option<String>,
    pub ip_region: Option<String>,
    pub ip_city: Option<String>,
    pub ip_isp: Option<String>,
    pub colo: Option<String>,
}

impl<N: Copy> Clone for SaveResultInput<N> {
    fn clone(&self) -> (r: SaveResultInput<N>)
        ensures
            r == *self,
    {
        SaveResultInput {
            id: self.id,
            domain: self.domain.clone(),
            https_latency_ms: self.https_latency_ms,
            https_jitter_ms: self.https_jitter_ms,
            download_mbps: self.download_mbps,
            client_ip: self.client_ip.clone(),
            ip_country: self.ip_country.clone(),
            ip_region: self.ip_region.clone(),
            ip_city: self.ip_city.clone(),
            ip_isp: self.ip_isp.clone(),
            colo: self.colo.clone(),
        }
    }
}

/// The mathematical model of a result to keep.
#[verifier::ext_equal]
pub ghost struct InputModel<N> {
    pub id: Option<i64>,
    pub domain: Seq<char>,
    pub https_latency_ms: N,
    pub https_jitter_ms: N,
    pub download_mbps: N,
    pub client_ip: Option<Seq<char>>,
    pub ip_country: Option<Seq<char>>,
    pub ip_region: Option<Seq<char>>,
    pub ip_city: Option<Seq<char>>,
    pub ip_isp: Option<Seq<char>>,
    pub colo: Option<Seq<char>>,
}

impl<N> View for SaveResultInput<N> {
    type V = InputModel<N>;

    open spec fn view(&self) -> InputModel<N> {
        InputModel {
            id: self.id,
            domain: self.domain@,
            https_latency_ms: self.https_latency_ms,
            https_jitter_ms: self.https_jitter_ms,
            download_mbps: self.download_mbps,
            client_ip: text::optional_view(self.client_ip),
            ip_country: text::optional_view(self.ip_country),
            ip_region: text::optional_view(self.ip_region),
            ip_city: text::optional_view(self.ip_city),
            ip_isp: text::optional_view(self.ip_isp),
            colo: text::optional_view(self.colo),
        }
    }
}

/// Which results to read.
#[derive(Debug)]
pub struct QueryFilter {
    pub domain: Option<String>,
    pub q: Option<String>,
    pub limit: usize,
}

impl Clone for QueryFilter {
    fn clone(&self) -> (r: QueryFilter)
        ensures
            r == *self,
    {
        QueryFilter {
            domain: self.domain.clone(),
            q: self.q.clone(),
            limit: self.limit,
        }
    }
}

impl Default for QueryFilter {
    fn default() -> (r: QueryFilter)
        ensures
            r == (QueryFilter { domain: None, q: None, limit: 0 }),
    {
        QueryFilter { domain: None, q: None, limit: 0 }
    }
}

/// A row of the table of results.
#[derive(Debug)]
pub struct StoredRecord<N> {
    pub id: i64,
    pub domain: String,
    pub https_latency_ms: Option<N>,
    pub https_jitter_ms: Option<N>,
    pub download_mbps: Option<N>,
    pub client_ip: Option<String>,
    pub ip_country: Option<String>,
    pub ip_region: Option<String>,
    pub ip_city: Option<String>,
    pub ip_isp: Option<String>,
    pub colo: Option<String>,
    pub created_at: String,
}

/// The mathematical model of a row.
#[verifier::ext_equal]
pub ghost struct RowModel<N> {
    pub id: i64,
    pub domain: Seq<char>,
    pub https_latency_ms: Option<N>,
    pub https_jitter_ms: Option<N>,
    pub download_mbps: Option<N>,
    pub client_ip: Option<Seq<char>>,
    pub ip_country: Option<Seq<char>>,
    pub ip_region: Option<Seq<char>>,
    pub ip_city: Option<Seq<char>>,
    pub ip_isp: Option<Seq<char>>,
    pub colo: Option<Seq<char>>,
    pub created_at: Seq<char>,
}

impl<N> View for StoredRecord<N> {
    type V = RowModel<N>;

    open spec fn view(&self) -> RowModel<N> {
        RowModel {
            id: self.id,
            domain: self.domain@,
            https_latency_ms: self.https_latency_ms,
            https_jitter_ms: self.https_jitter_ms,
            download_mbps: self.download_mbps,
            client_ip: text::optional_view(self.client_ip),
            ip_country: text::optional_view(self.ip_country),
            ip_region: text::optional_view(self.ip_region),
            ip_city: text::optional_view(self.ip_city),
            ip_isp: text::optional_view(self.ip_isp),
            colo: text::optional_view(self.colo),
            created_at: self.created_at@,
        }
    }
}

/// A value that a statement hands to the database.
#[derive(Debug)]
pub enum SqlValue<N> {
    Null,
    Integer(i64),
    Real(N),
    Text(String),
}

/// The mathematical model of a value.
#[verifier::ext_equal]
pub ghost enum ValueModel<N> {
    Null,
    Integer(int),
    Real(N),
    Text(Seq<char>),
}

impl<N> View for SqlValue<N> {
    type V = ValueModel<N>;

    open spec fn view(&self) -> ValueModel<N> {
        match self {
            SqlValue::Null => ValueModel::Null,
            SqlValue::Integer(n) => ValueModel::Integer(*n as int),
            SqlValue::Real(x) => ValueModel::Real(*x),
            SqlValue::Text(t) => ValueModel::Text(t@),
        }
    }
}

/// A statement with the values for its placeholders, in order.
#[derive(Debug)]
pub struct Statement<N> {
    pub sql: String,
    pub values: Vec<SqlValue<N>>,
}

/// The mathematical model of a statement.
#[verifier::ext_equal]
pub ghost struct StatementModel<N> {
    pub sql: Seq<char>,
    pub values: Seq<ValueModel<N>>,
}

impl<N> View for Statement<N> {
    type V = StatementModel<N>;

    open spec fn view(&self) -> StatementModel<N> {
        StatementModel { sql: self.sql@, values: values_view(self.values@) }
    }
}

/// The models of a sequence of values.
pub open spec fn values_view<N>(values: Seq<SqlValue<N>>) -> Seq<ValueModel<N>> {
    values.map_values(|value: SqlValue<N>| value@)
}

/// A text, or nothing, as a value.
pub open spec fn optional_value<N>(value: Option<Seq<char>>) -> ValueModel<N> {
    match value {
        Some(t) => ValueModel::Text(t),
        None => ValueModel::Null,
    }
}

/// The statement that keeps a new result.
pub open spec fn insertion_of<N>(input: InputModel<N>, created_at: Seq<char>) -> StatementModel<N> {
    StatementModel {
        sql: INSERT_INTO@ + COLUMNS@ + VALUES@,
        values: seq![
            ValueModel::Text(input.domain),
            ValueModel::Real(input.https_latency_ms),
            ValueModel::Real(input.https_jitter_ms),
            ValueModel::Real(input.download_mbps),
            optional_value(input.client_ip),
            optional_value(input.ip_country),
            optional_value(input.ip_region),
            optional_value(input.ip_city),
            optional_value(input.ip_isp),
            optional_value(input.colo),
            ValueModel::Text(created_at),
        ],
    }
}

/// The statement that brings the result `id` up to date.
pub open spec fn update_of<N>(id: i64, input: InputModel<N>) -> StatementModel<N> {
    StatementModel {
        sql: UPDATE@,
        values: seq![
            ValueModel::Integer(id as int),
            ValueModel::Text(input.domain),
            ValueModel::Real(input.https_latency_ms),
            ValueModel::Real(input.https_jitter_ms),
            ValueModel::Real(input.download_mbps),
            optional_value(input.client_ip),
            optional_value(input.ip_country),
            optional_value(input.ip_region),
            optional_value(input.ip_city),
            optional_value(input.ip_isp),
            optional_value(input.colo),
        ],
    }
}

/// The statement that keeps a result at the time `now`.
pub open spec fn saving_of<N>(input: InputModel<N>, now: UtcTime) -> StatementModel<N> {
    match input.id {
        Some(id) => update_of(id, input),
        None => insertion_of(input, clock::rfc3339_text(now.secs, now.nanos)),
    }
}

/// The keywords of a search, if there is one.
pub open spec fn keywords_of(q: Option<Seq<char>>) -> Seq<Seq<char>> {
    match q {
        Some(t) => text::words(t),
        None => Seq::empty(),
    }
}

/// The conditions on a result: on its domain, then one for each keyword.
pub open spec fn clauses_of(domain: Option<Seq<char>>, keywords: nat) -> Seq<Seq<char>>
    decreases keywords,
{
    if keywords == 0 {
        if domain is Some {
            seq![DOMAIN_CLAUSE@]
        } else {
            Seq::empty()
        }
    } else {
        clauses_of(domain, (keywords - 1) as nat).push(KEYWORD_CLAUSE@)
    }
}

/// The pattern that finds a keyword anywhere.
pub open spec fn pattern_of(keyword: Seq<char>) -> Seq<char> {
    "%"@ + keyword + "%"@
}

/// The values for the conditions on a result.
pub open spec fn clause_values<N>(
    domain: Option<Seq<char>>,
    keywords: Seq<Seq<char>>,
) -> Seq<ValueModel<N>>
    decreases keywords.len(),
{
    if keywords.len() == 0 {
        match domain {
            Some(d) => seq![ValueModel::Text(d)],
            None => Seq::empty(),
        }
    } else {
        clause_values::<N>(domain, keywords.drop_last()) + Seq::new(
            KEYWORD_COLUMNS as nat,
            |i: int| ValueModel::Text(pattern_of(keywords.last())),
        )
    }
}

/// The part of a query that holds its conditions.
pub open spec fn where_of(clauses: Seq<Seq<char>>) -> Seq<char> {
    if clauses.len() == 0 {
        Seq::empty()
    } else {
        " WHERE "@ + text::joined(clauses, " AND "@)
    }
}

/// The number that limits a query: at least one, and in two's complement where it is beyond
/// what a database integer holds.
pub open spec fn limit_of(limit: usize) -> int {
    if limit == 0 {
        1
    } else if limit <= i64::MAX {
        limit as int
    } else {
        limit - 0x1_0000_0000_0000_0000
    }
}

/// The statement that reads results.
pub open spec fn query_of<N>(
    domain: Option<Seq<char>>,
    q: Option<Seq<char>>,
    limit: usize,
) -> StatementModel<N> {
    StatementModel {
        sql: SELECT@ + COLUMNS@ + FROM_TABLE@ + where_of(
            clauses_of(domain, keywords_of(q).len()),
        ) + ORDER@,
        values: clause_values::<N>(domain, keywords_of(q)).push(
            ValueModel::Integer(limit_of(limit)),
        ),
    }
}

/// The address that anyone may see: masked, or unknown where there is none.
pub open spec fn public_ip_of(client_ip: Option<Seq<char>>) -> Seq<char> {
    match client_ip {
        Some(given) => match ip::ip_of(text::trimmed(given)) {
            Some(address) => ip::mask_of(address),
            None => "未知"@,
        },
        None => "未知"@,
    }
}

/// What anyone may see of a row.
pub open spec fn public_of<N>(row: RowModel<N>) -> models::PublicModel<N> {
    models::PublicModel {
        id: row.id,
        domain: row.domain,
        https_latency_ms: row.https_latency_ms,
        https_jitter_ms: row.https_jitter_ms,
        download_mbps: row.download_mbps,
        client_ip: public_ip_of(row.client_ip),
        ip_country: row.ip_country,
        ip_region: row.ip_region,
        ip_city: row.ip_city,
        ip_isp: row.ip_isp,
        colo: row.colo,
        created_at: row.created_at,
    }
}

/// The model of the outcome of keeping a result.
pub open spec fn saved_view(r: Result<i64, StoreError>) -> Result<i64, StoreErrorModel> {
    match r {
        Ok(id) => Ok(id),
        Err(e) => Err(e@),
    }
}

fn optional_sql<N>(value: Option<String>) -> (r: SqlValue<N>)
    ensures
        r@ == optional_value::<N>(text::optional_view(value)),
{
    match value {
        Some(t) => SqlValue::Text(t),
        None => SqlValue::Null,
    }
}

/// The statement that keeps a new result, made at the time `created_at`.
pub fn insert_statement<N>(input: SaveResultInput<N>, created_at: String) -> (r: Statement<N>)
    ensures
        r@ == insertion_of(input@, created_at@),
        r.values@.len() == 11,
        r.values@[0]@ == ValueModel::<N>::Text(input.domain@),
        r.values@[1]@ == ValueModel::Real(input.https_latency_ms),
        r.values@[2]@ == ValueModel::Real(input.https_jitter_ms),
        r.values@[3]@ == ValueModel::Real(input.download_mbps),
        r.values@[4]@ == optional_value::<N>(text::optional_view(input.client_ip)),
        r.values@[5]@ == optional_value::<N>(text::optional_view(input.ip_country)),
        r.values@[6]@ == optional_value::<N>(text::optional_view(input.ip_region)),
        r.values@[7]@ == optional_value::<N>(text::optional_view(input.ip_city)),
        r.values@[8]@ == optional_value::<N>(text::optional_view(input.ip_isp)),
        r.values@[9]@ == optional_value::<N>(text::optional_view(input.colo)),
        r.values@[10]@ == ValueModel::<N>::Text(created_at@),
{
    let mut sql = INSERT_INTO.to_owned();
    sql.append(COLUMNS);
    sql.append(VALUES);
    let values: Vec<SqlValue<N>> = vec![
        SqlValue::Text(input.domain),
        SqlValue::Real(input.https_latency_ms),
        SqlValue::Real(input.https_jitter_ms),
        SqlValue::Real(input.download_mbps),
        optional_sql(input.client_ip),
        optional_sql(input.ip_country),
        optional_sql(input.ip_region),
        optional_sql(input.ip_city),
        optional_sql(input.ip_isp),
        optional_sql(input.colo),
        SqlValue::Text(created_at),
    ];
    Statement { sql, values }
}

/// The statement that brings the result `id` up to date.
pub fn update_statement<N>(id: i64, input: SaveResultInput<N>) -> (r: Statement<N>)
    ensures
        r@ == update_of(id, input@),
        r.values@.len() == 11,
        r.values@[0]@ == ValueModel::<N>::Integer(id as int),
        r.values@[1]@ == ValueModel::<N>::Text(input.domain@),
        r.values@[2]@ == ValueModel::Real(input.https_latency_ms),
        r.values@[3]@ == ValueModel::Real(input.https_jitter_ms),
        r.values@[4]@ == ValueModel::Real(input.download_mbps),
        r.values@[5]@ == optional_value::<N>(text::optional_view(input.client_ip)),
        r.values@[6]@ == optional_value::<N>(text::optional_view(input.ip_country)),
        r.values@[7]@ == optional_value::<N>(text::optional_view(input.ip_region)),
        r.values@[8]@ == optional_value::<N>(text::optional_view(input.ip_city)),
        r.values@[9]@ == optional_value::<N>(text::optional_view(input.ip_isp)),
        r.values@[10]@ == optional_value::<N>(text::optional_view(input.colo)),
{
    let values: Vec<SqlValue<N>> = vec![
        SqlValue::Integer(id),
        SqlValue::Text(input.domain),
        SqlValue::Real(input.https_latency_ms),
        SqlValue::Real(input.https_jitter_ms),
        SqlValue::Real(input.download_mbps),
        optional_sql(input.client_ip),
        optional_sql(input.ip_country),
        optional_sql(input.ip_region),
        optional_sql(input.ip_city),
        optional_sql(input.ip_isp),
        optional_sql(input.colo),
    ];
    Statement { sql: UPDATE.to_owned(), values }
}

/// The statement that keeps `input` at the time `now`: an update where it has a number, else an
/// insertion.
pub fn save_statement_at<N>(input: SaveResultInput<N>, now: UtcTime) -> (r: Statement<N>)
    requires
        now.wf(),
    ensures
        r@ == saving_of(input@, now),
{
    match input.id {
        Some(id) => update_statement(id, input),
        None => insert_statement(input, clock::to_rfc3339(now)),
    }
}

/// The statement that keeps `input` now.
pub fn save_statement<N>(input: SaveResultInput<N>) -> (r: Statement<N>)
    ensures
        exists|now: UtcTime|
            now.wf() && now.secs >= 0 && r@ == #[trigger] saving_of(input@, now),
        input.id matches Some(id) ==> r@ == update_of(id, input@),
{
    save_statement_at(input, clock::utc_now())
}

/// The number of a kept result: that of the row that an insertion made, or the one that was
/// given, if the update found its row.
pub fn saved_id(id: Option<i64>, rows: usize, last_insert_rowid: i64) -> (r: Result<
    i64,
    StoreError,
>)
    ensures
        saved_view(r) == (match id {
            None => Ok(last_insert_rowid),
            Some(given) => if rows == 0 {
                Err(StoreErrorModel::InvalidUpdateToken)
            } else {
                Ok(given)
            },
        }),
{
    match id {
        None => Ok(last_insert_rowid),
        Some(given) => {
            if rows == 0 {
                return Err(StoreError::InvalidUpdateToken);
            }
            Ok(given)
        },
    }
}

fn limit_value(limit: usize) -> (r: i64)
    ensures
        r == limit_of(limit),
{
    let n: u64 = limit as u64;
    if n == 0 {
        1
    } else if n <= 0x7fff_ffff_ffff_ffff {
        n as i64
    } else {
        -((u64::MAX - n) as i64) - 1
    }
}

/// Appends the values for the condition on one keyword.
fn push_pattern<N>(values: &mut Vec<SqlValue<N>>, keyword: &str)
    ensures
        values_view(final(values)@) == values_view(old(values)@) + Seq::new(
            KEYWORD_COLUMNS as nat,
            |i: int| ValueModel::<N>::Text(pattern_of(keyword@)),
        ),
{
    let ghost before = values_view(values@);
    let mut pattern = "%".to_owned();
    pattern.append(keyword);
    pattern.append("%");
    let ghost value = ValueModel::<N>::Text(pattern@);
    let mut i: usize = 0;
    proof {
        assert(before + Seq::new(0, |j: int| value) =~= before);
    }
    while i < KEYWORD_COLUMNS
        invariant
            i <= KEYWORD_COLUMNS,
            pattern@ == pattern_of(keyword@),
            value == ValueModel::<N>::Text(pattern@),
            values_view(values@) == before + Seq::new(i as nat, |j: int| value),
        decreases KEYWORD_COLUMNS - i,
    {
        let ghost current = values_view(values@);
        values.push(SqlValue::Text(pattern.clone()));
        proof {
            assert(values_view(values@) =~= current.push(value));
            assert(Seq::new(i as nat, |j: int| value).push(value) =~= Seq::new(
                (i + 1) as nat,
                |j: int| value,
            ));
        }
        i += 1;
    }
    proof {
        assert(Seq::new(i as nat, |j: int| value) =~= Seq::new(
            KEYWORD_COLUMNS as nat,
            |j: int| ValueModel::<N>::Text(pattern_of(keyword@)),
        ));
    }
}

/// The statement that reads the results of `filter`, the latest first.
pub fn query_statement<N>(filter: QueryFilter) -> (r: Statement<N>)
    ensures
        r@ == query_of::<N>(
            text::optional_view(filter.domain),
            text::optional_view(filter.q),
            filter.limit,
        ),
{
    let ghost domain = text::optional_view(filter.domain);
    let limit = filter.limit;
    let mut clauses: Vec<String> = Vec::new();
    let mut values: Vec<SqlValue<N>> = Vec::new();
    if let Some(d) = filter.domain {
        clauses.push(DOMAIN_CLAUSE.to_owned());
        values.push(SqlValue::Text(d));
    }
    let keywords: Vec<String> = match &filter.q {
        Some(q) => text::split_whitespace(q.as_str()),
        None => Vec::new(),
    };
    let ghost wanted = text::views(keywords@);
    proof {
        assert(wanted =~= keywords_of(text::optional_view(filter.q)));
        assert(text::views(clauses@) =~= clauses_of(domain, 0));
        assert(wanted.take(0) =~= Seq::empty());
        assert(values_view(values@) =~= clause_values::<N>(domain, wanted.take(0)));
    }
    let mut i: usize = 0;
    while i < keywords.len()
        invariant
            i <= keywords@.len(),
            wanted == text::views(keywords@),
            text::views(clauses@) == clauses_of(domain, i as nat),
            values_view(values@) == clause_values::<N>(domain, wanted.take(i as int)),
        decreases keywords@.len() - i,
    {
        let ghost before = text::views(clauses@);
        proof {
            assert(wanted.take(i + 1).drop_last() =~= wanted.take(i as int));
            assert(wanted.take(i + 1).last() == keywords@[i as int]@);
        }
        clauses.push(KEYWORD_CLAUSE.to_owned());
        push_pattern(&mut values, keywords[i].as_str());
        proof {
            assert(text::views(clauses@) =~= before.push(KEYWORD_CLAUSE@));
        }
        i += 1;
    }
    proof {
        assert(wanted.take(i as int) =~= wanted);
    }
    let mut sql = SELECT.to_owned();
    sql.append(COLUMNS);
    sql.append(FROM_TABLE);
    if clauses.len() > 0 {
        sql.append(" WHERE ");
        sql.append(text::join(&clauses, " AND ").as_str());
    }
    sql.append(ORDER);
    let ghost bound = values_view(values@);
    values.push(SqlValue::Integer(limit_value(limit)));
    proof {
        assert(values_view(values@) =~= bound.push(ValueModel::Integer(limit_of(limit))));
        assert(sql@ =~= SELECT@ + COLUMNS@ + FROM_TABLE@ + where_of(text::views(clauses@)) + ORDER@);
    }
    Statement { sql, values }
}

/// What anyone may see of a row.
pub fn public_record<N>(row: StoredRecord<N>) -> (r: PublicSpeedRecord<N>)
    ensures
        r@ == public_of(row@),
        r.id == row.id,
        r.domain == row.domain,
        r.https_latency_ms == row.https_latency_ms,
        r.https_jitter_ms == row.https_jitter_ms,
        r.download_mbps == row.download_mbps,
        r.client_ip@ == public_ip_of(text::optional_view(row.client_ip)),
        r.ip_country == row.ip_country,
        r.ip_region == row.ip_region,
        r.ip_city == row.ip_city,
        r.ip_isp == row.ip_isp,
        r.colo == row.colo,
        r.created_at == row.created_at,
{
    let client_ip = match &row.client_ip {
        Some(given) => match ip::mask_ip_for_public(given.as_str()) {
            Some(masked) => masked,
            None => "未知".to_owned(),
        },
        None => "未知".to_owned(),
    };
    PublicSpeedRecord {
        id: row.id,
        domain: row.domain,
        https_latency_ms: row.https_latency_ms,
        https_jitter_ms: row.https_jitter_ms,
        download_mbps: row.download_mbps,
        client_ip,
        ip_country: row.ip_country,
        ip_region: row.ip_region,
        ip_city: row.ip_city,
        ip_isp: row.ip_isp,
        colo: row.colo,
        created_at: row.created_at,
    }
}

} // verus!
