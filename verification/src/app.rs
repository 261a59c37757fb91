//! What the service decides: which results it takes, what it answers and where its configuration
//! is.
use vstd::prelude::*;
use vstd::string::*;

use crate::clock;
use crate::clock::UtcTime;
use crate::config;
use crate::config::{ConfigError, DisplaySettings, HistorySettings, RuntimeConfig, TestSettings};
use crate::config::TestTarget;
use crate::domains;
use crate::domains_laws;
use crate::ip;
use crate::ip::IpAddr;
use crate::models;
use crate::models::SaveResultResponse;
use crate::store;
use crate::store::{QueryFilter, SaveResultInput, Statement, StoreError};
use crate::text;
use crate::tokens;
use crate::tokens::UpdateTokenStore;

verus! {

/// The environment variable that names the configuration file.
pub const CONFIG_PATH_ENV: &'static str = "WEB_SPEEDTEST_CONFIG";

/// The variable that older installations use.
pub const LEGACY_CONFIG_PATH_ENV: &'static str = "WEB_SPEED_CONFIG";

/// The configuration file where no variable names one.
pub const DEFAULT_CONFIG_PATH: &'static str = "config.toml";

/// Why a request fails or the service stops.
#[derive(Debug)]
pub enum AppError {
    Store(StoreError),
    Config(ConfigError),
    UnknownTarget(String),
    /// The service cannot listen, for the given reason.
    Io(String),
}

/// The mathematical model of an error.
#[verifier::ext_equal]
pub ghost enum AppErrorModel {
    Store(store::StoreErrorModel),
    Config(config::ConfigErrorModel),
    UnknownTarget(Seq<char>),
    Io(Seq<char>),
}

impl View for AppError {
    type V = AppErrorModel;

    open spec fn view(&self) -> AppErrorModel {
        match self {
            AppError::Store(e) => AppErrorModel::Store(e@),
            AppError::Config(e) => AppErrorModel::Config(e@),
            AppError::UnknownTarget(domain) => AppErrorModel::UnknownTarget(domain@),
            AppError::Io(reason) => AppErrorModel::Io(reason@),
        }
    }
}

impl AppErrorModel {
    /// The text that describes the error.
    pub open spec fn message(self) -> Seq<char> {
        match self {
            AppErrorModel::Store(e) => e.message(),
            AppErrorModel::Config(e) => e.message(),
            AppErrorModel::UnknownTarget(domain) => "未知测速线路: "@ + domain,
            AppErrorModel::Io(reason) => "服务启动失败: "@ + reason,
        }
    }

    /// Whether the request is at fault, not the service.
    pub open spec fn is_bad_request(self) -> bool {
        match self {
            AppErrorModel::Store(e) => e == store::StoreErrorModel::InvalidUpdateToken,
            AppErrorModel::UnknownTarget(_) => true,
            _ => false,
        }
    }
}

impl AppError {
    /// The text that describes the error.
    pub fn message(&self) -> (r: String)
        ensures
            r@ == self@.message(),
    {
        match self {
            AppError::Store(e) => e.message(),
            AppError::Config(e) => e.message(),
            AppError::UnknownTarget(domain) => {
                let mut out = "未知测速线路: ".to_owned();
                out.append(domain.as_str());
                out
            },
            AppError::Io(reason) => {
                let mut out = "服务启动失败: ".to_owned();
                out.append(reason.as_str());
                out
            },
        }
    }

    /// The status of the answer that reports the error.
    pub fn status_code(&self) -> (r: u16)
        ensures
            r == (if self@.is_bad_request() {
                400u16
            } else {
                500u16
            }),
    {
        match self {
            AppError::Store(e) => match e {
                StoreError::InvalidUpdateToken => 400,
                StoreError::Database(_) => 500,
                StoreError::LockPoisoned => 500,
            },
            AppError::UnknownTarget(_) => 400,
            AppError::Config(_) => 500,
            AppError::Io(_) => 500,
        }
    }
}

/// The code with which the process ends on an error: one of its own for the configuration, so
/// that it is not started again in vain.
pub fn exit_code_for_error(error: &AppError) -> (r: u8)
    ensures
        r == (if error@ is Config {
            78u8
        } else {
            1u8
        }),
{
    match error {
        AppError::Config(_) => 78,
        _ => 1,
    }
}

/// A result that a visitor reports. The type of the measurements is `N`. The address that is
/// kept with it is never the reported one.
#[derive(Debug)]
pub struct SaveResultRequest<N> {
    pub id: Option<i64>,
    pub update_token: Option<String>,
    pub domain: String,
    pub https_latency_ms: N,
    pub https_jitter_ms: N,
    pub download_mbps: N,
    pub client_ip: Option<String>,
    pub ip_country: Option<String>,
    pub ip_region: Option<String>,
    pub ip_city: Option<String>,
    pub ip_isp: Option<String>,
    pub colo: Option<String>,
}

/// Which results a visitor asks for.
#[derive(Debug)]
pub struct ResultsQuery {
    pub domain: Option<String>,
    pub q: Option<String>,
    pub limit: Option<usize>,
}

/// What the page needs to know of the configuration.
#[derive(Debug)]
pub struct ClientConfig<N> {
    pub targets: Vec<TestTarget>,
    pub test: TestSettings<N>,
    pub history: HistorySettings,
    pub display: DisplaySettings,
}

/// A reported result that is ready to be kept, with the token that came with it.
#[derive(Debug)]
pub struct PreparedSave<N> {
    pub input: SaveResultInput<N>,
    pub update_token: String,
}

/// The address in the first of the values that commas separate, in its canonical text.
pub open spec fn candidate_of(value: Seq<char>) -> Option<Seq<char>> {
    match ip::ip_of(text::trimmed(text::split_on(value, ',')[0])) {
        Some(address) => Some(ip::ip_text(address)),
        None => None,
    }
}

/// The address in an optional value.
pub open spec fn optional_candidate(value: Option<Seq<char>>) -> Option<Seq<char>> {
    match value {
        Some(given) => candidate_of(given),
        None => None,
    }
}

/// The canonical text of the address that `value` names, if it names one.
pub fn parse_ip_candidate(value: &str) -> (r: Option<String>)
    ensures
        text::optional_view(r) == candidate_of(value@),
{
    let parts = text::split(value, ',');
    proof {
        ip::lemma_split_has_parts(value@, ',');
    }
    match IpAddr::parse(text::trim(parts[0].as_str())) {
        Some(address) => Some(address.to_text()),
        None => None,
    }
}

/// The text without surrounding white space, where anything is left.
pub fn clean_optional(value: Option<String>) -> (r: Option<String>)
    ensures
        text::optional_view(r) == domains::non_empty_of(text::optional_view(value)),
        is_cleaned(value, r),
{
    proof {
        domains_laws::lemma_overridden(None, text::optional_view(value));
    }
    match value {
        Some(given) => match domains::non_empty_string(Some(given.as_str())) {
            Some(t) => Some(t.to_owned()),
            None => None,
        },
        None => None,
    }
}

/// The value of a variable, else of an older one, else the default.
pub fn resolve_config_path_from_env(read_env: impl Fn(&str) -> Option<String>) -> (r: String)
    requires
        forall|name: &str| call_requires(read_env, (name,)),
    ensures
        exists|current: Option<String>| #[trigger]
            call_ensures(read_env, (CONFIG_PATH_ENV,), current) && match current {
                Some(path) => r == path,
                None => exists|legacy: Option<String>| #[trigger]
                    call_ensures(read_env, (LEGACY_CONFIG_PATH_ENV,), legacy) && match legacy {
                        Some(path) => r == path,
                        None => r@ == DEFAULT_CONFIG_PATH@,
                    },
            },
{
    let current = read_env(CONFIG_PATH_ENV);
    match current {
        Some(path) => path,
        None => {
            let legacy = read_env(LEGACY_CONFIG_PATH_ENV);
            match legacy {
                Some(path) => path,
                None => DEFAULT_CONFIG_PATH.to_owned(),
            }
        },
    }
}

/// The fields of a request, as axum holds them.
#[verifier::external_type_specification]
#[verifier::external_body]
#[verifier::reject_recursive_types(T)]
pub struct ExHeaderMap<T>(axum::http::HeaderMap<T>);

/// The value of one field, as axum holds it.
#[verifier::external_type_specification]
#[verifier::external_body]
pub struct ExHeaderValue(axum::http::HeaderValue);

/// What a lookup finds under each name, written in lower case: the bytes of the first value.
pub uninterp spec fn header_fields(
    headers: axum::http::HeaderMap<axum::http::HeaderValue>,
) -> Map<Seq<char>, Seq<u8>>;

/// Whether `c` may stand in the name of a field.
pub open spec fn is_name_char(c: char) -> bool {
    ||| text::ascii_alphanumeric(c)
    ||| c == '!' || c == '#' || c == '$' || c == '%' || c == '&' || c == '\'' || c == '*'
    ||| c == '+' || c == '-' || c == '.' || c == '^' || c == '_' || c == '`' || c == '|'
    ||| c == '~'
}

/// Whether `name` is no name of a field: empty, or ASCII of at most 64 characters of which one
/// may not stand in a name.
pub open spec fn is_no_field_name(name: Seq<char>) -> bool {
    ||| name.len() == 0
    ||| {
        &&& name.len() <= 64
        &&& forall|i: int| 0 <= i < name.len() ==> #[trigger] name[i] < '\u{80}'
        &&& exists|i: int| 0 <= i < name.len() && !is_name_char(#[trigger] name[i])
    }
}

/// Looks a field up with `axum::http::HeaderMap::get`: the bytes of the first value under that
/// name, whatever the case of its ASCII letters, or nothing where there is no such field. Under
/// what is no name nothing is found. Of longer texts and of others than ASCII that is not said:
/// the outside function compares those without testing each character first.
#[verifier::external_body]
fn header_bytes(
    headers: &axum::http::HeaderMap<axum::http::HeaderValue>,
    name: &str,
) -> (r: Option<Vec<u8>>)
    ensures
        match r {
            Some(bytes) => header_fields(*headers).contains_key(text::ascii_lowered(name@))
                && bytes@ == header_fields(*headers)[text::ascii_lowered(name@)],
            None => !header_fields(*headers).contains_key(text::ascii_lowered(name@)),
        },
        is_no_field_name(name@) ==> r is None,
{
    match headers.get(name) {
        Some(value) => Some(value.as_bytes().to_vec()),
        None => None,
    }
}

/// Whether a byte is a visible ASCII character, a space or a tab.
pub open spec fn is_visible(b: u8) -> bool {
    32 <= b < 127 || b == 9
}

/// The text of bytes that are all visible.
pub open spec fn visible_text_of(bytes: Seq<u8>) -> Option<Seq<char>> {
    if forall|i: int| 0 <= i < bytes.len() ==> is_visible(#[trigger] bytes[i]) {
        Some(bytes.map_values(|b: u8| b as char))
    } else {
        None
    }
}

/// The address in a field of the request; `name` is in lower case.
pub open spec fn header_candidate(fields: Map<Seq<char>, Seq<u8>>, name: Seq<char>) -> Option<
    Seq<char>,
> {
    if fields.contains_key(name) {
        optional_candidate(visible_text_of(fields[name]))
    } else {
        None
    }
}

/// The address of a visitor: the one that was reported, else one that a proxy noted, if it is an
/// address, else that of the connection.
pub open spec fn client_ip_of(
    fields: Map<Seq<char>, Seq<u8>>,
    socket: ip::IpModel,
    reported: Option<Seq<char>>,
) -> Seq<char> {
    let noted = text::or_else(
        header_candidate(fields, "cf-connecting-ip"@),
        text::or_else(
            header_candidate(fields, "x-real-ip"@),
            header_candidate(fields, "x-forwarded-for"@),
        ),
    );
    match text::or_else(optional_candidate(reported), noted) {
        Some(address) => address,
        None => ip::ip_text(socket),
    }
}

/// The text of `bytes`, if they are all visible.
pub fn visible_text(bytes: &Vec<u8>) -> (r: Option<String>)
    ensures
        text::optional_view(r) == visible_text_of(bytes@),
{
    let mut out = "".to_owned();
    let mut i: usize = 0;
    proof {
        reveal_strlit("");
        assert(out@ =~= bytes@.take(0).map_values(|b: u8| b as char));
    }
    while i < bytes.len()
        invariant
            i <= bytes@.len(),
            forall|j: int| 0 <= j < i ==> is_visible(#[trigger] bytes@[j]),
            out@ == bytes@.take(i as int).map_values(|b: u8| b as char),
        decreases bytes@.len() - i,
    {
        let b = bytes[i];
        if !((32 <= b && b < 127) || b == 9) {
            proof {
                assert(!is_visible(bytes@[i as int]));
            }
            return None;
        }
        let ghost before = out@;
        out.push(b as char);
        proof {
            assert(bytes@.take(i + 1).map_values(|b: u8| b as char) =~= before.push(b as char));
        }
        i += 1;
    }
    proof {
        assert(bytes@.take(i as int) =~= bytes@);
    }
    Some(out)
}

/// The address in a field of the request, whatever the case of the letters in `name`.
pub fn header_ip(
    headers: &axum::http::HeaderMap<axum::http::HeaderValue>,
    name: &str,
) -> (r: Option<String>)
    ensures
        text::optional_view(r) == header_candidate(
            header_fields(*headers),
            text::ascii_lowered(name@),
        ),
        is_no_field_name(name@) ==> r is None,
{
    let bytes = match header_bytes(headers, name) {
        Some(bytes) => bytes,
        None => return None,
    };
    match visible_text(&bytes) {
        Some(value) => parse_ip_candidate(value.as_str()),
        None => None,
    }
}

/// The address of a visitor. What was reported or noted counts only where it is an address.
pub fn extract_client_ip(
    headers: &axum::http::HeaderMap<axum::http::HeaderValue>,
    socket: &IpAddr,
    reported_ip: Option<&str>,
) -> (r: String)
    ensures
        r@ == client_ip_of(
            header_fields(*headers),
            socket@,
            text::optional_str_view(reported_ip),
        ),
{
    proof {
        reveal_strlit("cf-connecting-ip");
        reveal_strlit("x-real-ip");
        reveal_strlit("x-forwarded-for");
        assert(text::ascii_lowered("cf-connecting-ip"@) =~= "cf-connecting-ip"@);
        assert(text::ascii_lowered("x-real-ip"@) =~= "x-real-ip"@);
        assert(text::ascii_lowered("x-forwarded-for"@) =~= "x-forwarded-for"@);
    }
    if let Some(given) = reported_ip {
        if let Some(address) = parse_ip_candidate(given) {
            return address;
        }
    }
    if let Some(address) = header_ip(headers, "cf-connecting-ip") {
        return address;
    }
    if let Some(address) = header_ip(headers, "x-real-ip") {
        return address;
    }
    if let Some(address) = header_ip(headers, "x-forwarded-for") {
        return address;
    }
    socket.to_text()
}

/// Whether `domain` is the host of one of the targets.
pub open spec fn is_known(targets: Seq<config::TargetModel>, domain: Seq<char>) -> bool {
    exists|i: int| 0 <= i < targets.len() && (#[trigger] targets[i]).host == domain
}

/// What is kept of a reported result. The address is that of the connection or one that a proxy
/// noted, whatever the request itself reports.
pub open spec fn input_of<N>(
    request: SaveResultRequest<N>,
    fields: Map<Seq<char>, Seq<u8>>,
    socket: ip::IpModel,
) -> store::InputModel<N> {
    store::InputModel {
        id: request.id,
        domain: request.domain@,
        https_latency_ms: request.https_latency_ms,
        https_jitter_ms: request.https_jitter_ms,
        download_mbps: request.download_mbps,
        client_ip: Some(client_ip_of(fields, socket, None)),
        ip_country: domains::non_empty_of(text::optional_view(request.ip_country)),
        ip_region: domains::non_empty_of(text::optional_view(request.ip_region)),
        ip_city: domains::non_empty_of(text::optional_view(request.ip_city)),
        ip_isp: domains::non_empty_of(text::optional_view(request.ip_isp)),
        colo: text::optional_view(request.colo),
    }
}

/// The token that came with a reported result; empty where none came.
pub open spec fn token_given<N>(request: SaveResultRequest<N>) -> Seq<char> {
    match request.update_token {
        Some(token) => token@,
        None => Seq::empty(),
    }
}

/// Whether `kept` is what counts of a given text: all of it but the white space around it, and
/// nothing where nothing else is left.
pub open spec fn is_cleaned(given: Option<String>, kept: Option<String>) -> bool {
    domains_laws::is_overridden(None, text::optional_view(given), text::optional_view(kept))
}

fn find_target(targets: &Vec<TestTarget>, domain: &str) -> (r: Option<String>)
    ensures
        match r {
            Some(host) => host@ == domain@ && is_known(config::targets_view(targets@), domain@),
            None => !is_known(config::targets_view(targets@), domain@),
        },
{
    let mut i: usize = 0;
    while i < targets.len()
        invariant
            i <= targets@.len(),
            forall|j: int|
                0 <= j < i ==> (#[trigger] config::targets_view(targets@)[j]).host != domain@,
        decreases targets@.len() - i,
    {
        if text::same_text(targets[i].host.as_str(), domain) {
            proof {
                assert(config::targets_view(targets@)[i as int].host == domain@);
            }
            return Some(targets[i].host.clone());
        }
        i += 1;
    }
    None
}

/// Takes a reported result, if it is of a target, with the address that the request came from.
pub fn prepare_save<R, N>(
    config: &RuntimeConfig<R>,
    request: SaveResultRequest<N>,
    headers: &axum::http::HeaderMap<axum::http::HeaderValue>,
    socket: &IpAddr,
) -> (r: Result<PreparedSave<N>, AppError>)
    ensures
        match r {
            Ok(prepared) => {
                &&& is_known(config@.targets, request.domain@)
                &&& prepared.input@ == input_of(request, header_fields(*headers), socket@)
                &&& prepared.update_token@ == token_given(request)
                &&& prepared.input.id == request.id
                &&& prepared.input.domain@ == request.domain@
                &&& prepared.input.https_latency_ms == request.https_latency_ms
                &&& prepared.input.https_jitter_ms == request.https_jitter_ms
                &&& prepared.input.download_mbps == request.download_mbps
                &&& is_cleaned(request.ip_country, prepared.input.ip_country)
                &&& is_cleaned(request.ip_region, prepared.input.ip_region)
                &&& is_cleaned(request.ip_city, prepared.input.ip_city)
                &&& is_cleaned(request.ip_isp, prepared.input.ip_isp)
                &&& prepared.input.colo == request.colo
                &&& request.update_token matches Some(token) ==> prepared.update_token == token
                &&& request.update_token is None ==> prepared.update_token@.len() == 0
            },
            Err(e) => {
                &&& !is_known(config@.targets, request.domain@)
                &&& e@ == AppErrorModel::UnknownTarget(request.domain@)
            },
        },
{
    let domain = match find_target(&config.targets, request.domain.as_str()) {
        Some(host) => host,
        None => return Err(AppError::UnknownTarget(request.domain)),
    };
    let client_ip = extract_client_ip(headers, socket, None);
    let update_token = match request.update_token {
        Some(token) => token,
        None => "".to_owned(),
    };
    proof {
        reveal_strlit("");
        assert(""@ =~= Seq::empty());
        domains_laws::lemma_overridden(None, text::optional_view(request.ip_country));
        domains_laws::lemma_overridden(None, text::optional_view(request.ip_region));
        domains_laws::lemma_overridden(None, text::optional_view(request.ip_city));
        domains_laws::lemma_overridden(None, text::optional_view(request.ip_isp));
    }
    Ok(
        PreparedSave {
            input: SaveResultInput {
                id: request.id,
                domain,
                https_latency_ms: request.https_latency_ms,
                https_jitter_ms: request.https_jitter_ms,
                download_mbps: request.download_mbps,
                client_ip: Some(client_ip),
                ip_country: clean_optional(request.ip_country),
                ip_region: clean_optional(request.ip_region),
                ip_city: clean_optional(request.ip_city),
                ip_isp: clean_optional(request.ip_isp),
                colo: request.colo,
            },
            update_token,
        },
    )
}

/// The model of the outcome of asking whether a result may be kept.
pub open spec fn authorized_view(r: Result<(), AppError>) -> Result<(), AppErrorModel> {
    match r {
        Ok(u) => Ok(u),
        Err(e) => Err(e@),
    }
}

/// Whether a result may be kept: a new one always, a later state of one with its token.
pub open spec fn authorization<N>(
    given: tokens::TokensModel,
    input: store::InputModel<N>,
    token: Seq<char>,
    now: UtcTime,
) -> Result<(), AppErrorModel> {
    match input.id {
        Some(id) => if given.accepts(id, token, now) {
            Ok(())
        } else {
            Err(AppErrorModel::Store(store::StoreErrorModel::InvalidUpdateToken))
        },
        None => Ok(()),
    }
}

/// The tokens after asking whether a result may be kept.
pub open spec fn tokens_after_authorization<N>(
    given: tokens::TokensModel,
    input: store::InputModel<N>,
    token: Seq<char>,
    now: UtcTime,
) -> tokens::TokensModel {
    match input.id {
        Some(id) => given.after_validate(id, token, now),
        None => given,
    }
}

/// Asks at the time `now` whether a prepared result may be kept, and takes its token.
pub fn authorize_at<N>(
    prepared: &PreparedSave<N>,
    update_tokens: &mut UpdateTokenStore,
    now: UtcTime,
) -> (r: Result<(), AppError>)
    requires
        old(update_tokens)@.wf(),
        now.wf(),
    ensures
        authorized_view(r) == authorization(
            old(update_tokens)@,
            prepared.input@,
            prepared.update_token@,
            now,
        ),
        final(update_tokens)@ == tokens_after_authorization(
            old(update_tokens)@,
            prepared.input@,
            prepared.update_token@,
            now,
        ),
        final(update_tokens)@.wf(),
{
    match prepared.input.id {
        Some(id) => match update_tokens.validate_and_remove_at(
            id,
            prepared.update_token.as_str(),
            now,
        ) {
            Ok(_) => Ok(()),
            Err(e) => Err(AppError::Store(e)),
        },
        None => Ok(()),
    }
}

/// A result that may be kept: the statement that keeps it, and what its answer needs.
#[derive(Debug)]
pub struct PendingSave<N> {
    pub id: Option<i64>,
    pub update_token: String,
    pub statement: Statement<N>,
}

/// The mathematical model of a result that may be kept.
#[verifier::ext_equal]
pub ghost struct PendingSaveModel<N> {
    pub id: Option<i64>,
    pub update_token: Seq<char>,
    pub statement: store::StatementModel<N>,
}

impl<N> View for PendingSave<N> {
    type V = PendingSaveModel<N>;

    open spec fn view(&self) -> PendingSaveModel<N> {
        PendingSaveModel {
            id: self.id,
            update_token: self.update_token@,
            statement: self.statement@,
        }
    }
}

/// The model of the outcome of taking a reported result.
pub open spec fn pending_view<N>(r: Result<PendingSave<N>, AppError>) -> Result<
    PendingSaveModel<N>,
    AppErrorModel,
> {
    match r {
        Ok(pending) => Ok(pending@),
        Err(e) => Err(e@),
    }
}

/// What becomes of a reported result: nothing is to be written unless it is of a target and may
/// be kept. `usable` says whether the tokens can be relied on.
pub open spec fn taken_of<N>(
    targets: Seq<config::TargetModel>,
    request: SaveResultRequest<N>,
    fields: Map<Seq<char>, Seq<u8>>,
    socket: ip::IpModel,
    given: tokens::TokensModel,
    usable: bool,
    now: UtcTime,
) -> Result<PendingSaveModel<N>, AppErrorModel> {
    let input = input_of(request, fields, socket);
    if !is_known(targets, request.domain@) {
        Err(AppErrorModel::UnknownTarget(request.domain@))
    } else if request.id is Some && !usable {
        Err(AppErrorModel::Store(store::StoreErrorModel::LockPoisoned))
    } else {
        match authorization(given, input, token_given(request), now) {
            Err(e) => Err(e),
            Ok(_) => Ok(
                PendingSaveModel {
                    id: request.id,
                    update_token: token_given(request),
                    statement: store::saving_of(input, now),
                },
            ),
        }
    }
}

/// The tokens after a reported result was taken or refused.
pub open spec fn tokens_after_taking<N>(
    targets: Seq<config::TargetModel>,
    request: SaveResultRequest<N>,
    given: tokens::TokensModel,
    usable: bool,
    now: UtcTime,
) -> tokens::TokensModel {
    match request.id {
        Some(id) => if is_known(targets, request.domain@) && usable {
            given.after_validate(id, token_given(request), now)
        } else {
            given
        },
        None => given,
    }
}

/// Takes a reported result at the time `now`: the statement that keeps it, if it is of a target
/// and may be kept.
pub fn take_result_at<R, N>(
    config: &RuntimeConfig<R>,
    request: SaveResultRequest<N>,
    headers: &axum::http::HeaderMap<axum::http::HeaderValue>,
    socket: &IpAddr,
    update_tokens: &mut UpdateTokenStore,
    usable: bool,
    now: UtcTime,
) -> (r: Result<PendingSave<N>, AppError>)
    requires
        old(update_tokens)@.wf(),
        now.wf(),
    ensures
        pending_view(r) == taken_of(
            config@.targets,
            request,
            header_fields(*headers),
            socket@,
            old(update_tokens)@,
            usable,
            now,
        ),
        final(update_tokens)@ == tokens_after_taking(
            config@.targets,
            request,
            old(update_tokens)@,
            usable,
            now,
        ),
        final(update_tokens)@.wf(),
{
    let prepared = match prepare_save(config, request, headers, socket) {
        Ok(prepared) => prepared,
        Err(e) => return Err(e),
    };
    let id = prepared.input.id;
    if id.is_some() && !usable {
        return Err(AppError::Store(StoreError::LockPoisoned));
    }
    match authorize_at(&prepared, update_tokens, now) {
        Ok(_) => {
            let statement = store::save_statement_at(prepared.input, now);
            Ok(PendingSave { id, update_token: prepared.update_token, statement })
        },
        Err(e) => Err(e),
    }
}

/// Takes a reported result now.
pub fn take_result<R, N>(
    config: &RuntimeConfig<R>,
    request: SaveResultRequest<N>,
    headers: &axum::http::HeaderMap<axum::http::HeaderValue>,
    socket: &IpAddr,
    update_tokens: &mut UpdateTokenStore,
    usable: bool,
) -> (r: Result<PendingSave<N>, AppError>)
    requires
        old(update_tokens)@.wf(),
    ensures
        exists|now: UtcTime| #[trigger]
            now.wf() && now.secs >= 0 && pending_view(r) == taken_of(
                config@.targets,
                request,
                header_fields(*headers),
                socket@,
                old(update_tokens)@,
                usable,
                now,
            ) && final(update_tokens)@ == tokens_after_taking(
                config@.targets,
                request,
                old(update_tokens)@,
                usable,
                now,
            ),
        request.id is None ==> (r is Ok <==> is_known(config@.targets, request.domain@)),
        final(update_tokens)@.wf(),
{
    let now = clock::utc_now();
    let r = take_result_at(config, request, headers, socket, update_tokens, usable, now);
    assert(now.wf());
    r
}

/// The model of an answer.
pub open spec fn answer_view(r: Result<SaveResultResponse, AppError>) -> Result<
    models::ResponseModel,
    AppErrorModel,
> {
    match r {
        Ok(response) => Ok(response@),
        Err(e) => Err(e@),
    }
}

/// The answer for a result that was to be kept: a later state of one keeps its number and its
/// token, a new one gets both.
pub open spec fn answer_of(
    given: tokens::TokensModel,
    id: Option<i64>,
    token: Seq<char>,
    saved: Result<i64, store::StoreErrorModel>,
    now: UtcTime,
) -> Result<models::ResponseModel, AppErrorModel> {
    match saved {
        Err(e) => Err(AppErrorModel::Store(e)),
        Ok(new_id) => match id {
            Some(known) => Ok(models::ResponseModel { id: known, update_token: token }),
            None => Ok(
                models::ResponseModel {
                    id: new_id,
                    update_token: tokens::token_of(now, given.sequence),
                },
            ),
        },
    }
}

/// The tokens after the answer.
pub open spec fn tokens_after_answer(
    given: tokens::TokensModel,
    id: Option<i64>,
    saved: Result<i64, store::StoreErrorModel>,
    now: UtcTime,
) -> tokens::TokensModel {
    match (saved, id) {
        (Ok(new_id), None) => given.after_create(new_id, now),
        _ => given,
    }
}

/// Answers at the time `now` for a result, given what became of keeping it.
pub fn answer_at(
    id: Option<i64>,
    update_token: String,
    saved: Result<i64, StoreError>,
    update_tokens: &mut UpdateTokenStore,
    now: UtcTime,
) -> (r: Result<SaveResultResponse, AppError>)
    requires
        old(update_tokens)@.wf(),
        now.wf(),
    ensures
        answer_view(r) == answer_of(
            old(update_tokens)@,
            id,
            update_token@,
            store::saved_view(saved),
            now,
        ),
        final(update_tokens)@ == tokens_after_answer(
            old(update_tokens)@,
            id,
            store::saved_view(saved),
            now,
        ),
        final(update_tokens)@.wf(),
{
    match saved {
        Err(e) => Err(AppError::Store(e)),
        Ok(new_id) => match id {
            Some(known) => Ok(SaveResultResponse { id: known, update_token }),
            None => {
                let token = update_tokens.create_at(new_id, now);
                Ok(SaveResultResponse { id: new_id, update_token: token })
            },
        },
    }
}

/// Answers for a result, given what became of keeping it.
pub fn answer(
    id: Option<i64>,
    update_token: String,
    saved: Result<i64, StoreError>,
    update_tokens: &mut UpdateTokenStore,
) -> (r: Result<SaveResultResponse, AppError>)
    requires
        old(update_tokens)@.wf(),
    ensures
        exists|now: UtcTime| #[trigger]
            now.wf() && now.secs >= 0 && answer_view(r) == answer_of(
                old(update_tokens)@,
                id,
                update_token@,
                store::saved_view(saved),
                now,
            ) && final(update_tokens)@ == tokens_after_answer(
                old(update_tokens)@,
                id,
                store::saved_view(saved),
                now,
            ),
        r is Ok <==> saved is Ok,
        final(update_tokens)@.wf(),
{
    let now = clock::utc_now();
    let r = answer_at(id, update_token, saved, update_tokens, now);
    assert(now.wf());
    r
}

/// What the page needs to know of the configuration.
pub fn client_config<N: Copy>(config: &RuntimeConfig<N>) -> (r: ClientConfig<N>)
    ensures
        config::targets_view(r.targets@) == config@.targets,
        r.test == config.test,
        r.history == config.history,
        r.display == config.display,
{
    let mut targets: Vec<TestTarget> = Vec::new();
    let mut i: usize = 0;
    while i < config.targets.len()
        invariant
            i <= config.targets@.len(),
            config::targets_view(targets@) == config@.targets.take(i as int),
        decreases config.targets@.len() - i,
    {
        let ghost before = config::targets_view(targets@);
        targets.push(config.targets[i].clone());
        proof {
            assert(config::targets_view(targets@) =~= before.push(config.targets@[i as int]@));
            assert(config@.targets.take(i + 1) =~= before.push(config@.targets[i as int]));
        }
        i += 1;
    }
    proof {
        assert(config@.targets.take(i as int) =~= config@.targets);
    }
    ClientConfig {
        targets,
        test: config.test.clone(),
        history: config.history,
        display: config.display,
    }
}

/// Which results to read for a visitor: those that are asked for, no more than the history
/// settings allow.
pub fn results_filter<N>(config: &RuntimeConfig<N>, query: ResultsQuery) -> (r: QueryFilter)
    requires
        config.history.max_limit >= 1,
    ensures
        r.domain == query.domain,
        r.q == query.q,
        r.limit == config.history.limit_of(query.limit),
{
    let limit = config.history.resolve_limit(query.limit);
    QueryFilter { domain: query.domain, q: query.q, limit }
}

} // verus!
