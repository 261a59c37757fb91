//! The configuration: its parts, its errors and how a configuration file becomes a running one.
//!
//! A ratio is carried through unchanged, so the types that hold one are generic in it.
use vstd::prelude::*;
use vstd::string::*;

use crate::domains;
use crate::text;

verus! {

/// One line that a visitor can test.
#[derive(Debug)]
pub struct TestTarget {
    pub key: String,
    pub label: String,
    pub host: String,
    pub cname: String,
    pub trace_url: String,
    pub download_url: String,
}

/// The mathematical model of a target.
#[verifier::ext_equal]
pub ghost struct TargetModel {
    pub key: Seq<char>,
    pub label: Seq<char>,
    pub host: Seq<char>,
    pub cname: Seq<char>,
    pub trace_url: Seq<char>,
    pub download_url: Seq<char>,
}

impl View for TestTarget {
    type V = TargetModel;

    open spec fn view(&self) -> TargetModel {
        TargetModel {
            key: self.key@,
            label: self.label@,
            host: self.host@,
            cname: self.cname@,
            trace_url: self.trace_url@,
            download_url: self.download_url@,
        }
    }
}

impl Clone for TestTarget {
    fn clone(&self) -> (r: TestTarget)
        ensures
            r == *self,
    {
        TestTarget {
            key: self.key.clone(),
            label: self.label.clone(),
            host: self.host.clone(),
            cname: self.cname.clone(),
            trace_url: self.trace_url.clone(),
            download_url: self.download_url.clone(),
        }
    }
}

/// A line as a configuration file gives it.
#[derive(Debug)]
pub struct DomainItem {
    pub name: Option<String>,
    pub url: String,
    pub cname: Option<String>,
}

/// The mathematical model of a configured line.
#[verifier::ext_equal]
pub ghost struct ItemModel {
    pub name: Option<Seq<char>>,
    pub url: Seq<char>,
    pub cname: Option<Seq<char>>,
}

impl View for DomainItem {
    type V = ItemModel;

    open spec fn view(&self) -> ItemModel {
        ItemModel {
            name: text::optional_view(self.name),
            url: self.url@,
            cname: text::optional_view(self.cname),
        }
    }
}

impl Clone for DomainItem {
    fn clone(&self) -> (r: DomainItem)
        ensures
            r == *self,
    {
        DomainItem { name: self.name.clone(), url: self.url.clone(), cname: self.cname.clone() }
    }
}

/// The models of a sequence of configured lines.
pub open spec fn items_view(items: Seq<DomainItem>) -> Seq<ItemModel> {
    items.map_values(|item: DomainItem| item@)
}

/// The models of a sequence of targets.
pub open spec fn targets_view(targets: Seq<TestTarget>) -> Seq<TargetModel> {
    targets.map_values(|target: TestTarget| target@)
}

/// Where the service listens.
#[derive(Debug)]
pub struct ServerConfig {
    pub host: String,
    pub port: u16,
}

impl Default for ServerConfig {
    fn default() -> (r: ServerConfig)
        ensures
            r.host@ == "127.0.0.1"@,
            r.port == 3000,
    {
        ServerConfig { host: "127.0.0.1".to_owned(), port: 3000 }
    }
}

impl Clone for ServerConfig {
    fn clone(&self) -> (r: ServerConfig)
        ensures
            r == *self,
    {
        ServerConfig { host: self.host.clone(), port: self.port }
    }
}

/// Where the records are kept.
#[derive(Debug)]
pub struct DatabaseConfig {
    pub path: String,
}

impl Default for DatabaseConfig {
    fn default() -> (r: DatabaseConfig)
        ensures
            r.path@ == "speed_results.sqlite3"@,
    {
        DatabaseConfig { path: "speed_results.sqlite3".to_owned() }
    }
}

impl Clone for DatabaseConfig {
    fn clone(&self) -> (r: DatabaseConfig)
        ensures
            r == *self,
    {
        DatabaseConfig { path: self.path.clone() }
    }
}

/// How a test runs.
#[derive(Debug)]
pub struct TestSettings<N> {
    pub latency_rounds: usize,
    pub latency_timeout_ms: u64,
    pub download_test_ms: u64,
    pub download_file_path: String,
    pub progress_save_ratio: N,
}

impl<N: Copy> Clone for TestSettings<N> {
    fn clone(&self) -> (r: TestSettings<N>)
        ensures
            r == *self,
    {
        TestSettings {
            latency_rounds: self.latency_rounds,
            latency_timeout_ms: self.latency_timeout_ms,
            download_test_ms: self.download_test_ms,
            download_file_path: self.download_file_path.clone(),
            progress_save_ratio: self.progress_save_ratio,
        }
    }
}

/// How a test runs, as a configuration file gives it.
#[derive(Debug)]
pub struct FileTestSettings<N> {
    pub latency_rounds: usize,
    pub latency_timeout_ms: u64,
    pub download_test_ms: u64,
    pub download_file_path: String,
    pub progress_save_ratio: N,
}

impl<N: Copy> Clone for FileTestSettings<N> {
    fn clone(&self) -> (r: FileTestSettings<N>)
        ensures
            r == *self,
    {
        FileTestSettings {
            latency_rounds: self.latency_rounds,
            latency_timeout_ms: self.latency_timeout_ms,
            download_test_ms: self.download_test_ms,
            download_file_path: self.download_file_path.clone(),
            progress_save_ratio: self.progress_save_ratio,
        }
    }
}

/// The mathematical model of test settings.
#[verifier::ext_equal]
pub ghost struct SettingsModel<N> {
    pub latency_rounds: usize,
    pub latency_timeout_ms: u64,
    pub download_test_ms: u64,
    pub download_file_path: Seq<char>,
    pub progress_save_ratio: N,
}

impl<N> View for TestSettings<N> {
    type V = SettingsModel<N>;

    open spec fn view(&self) -> SettingsModel<N> {
        SettingsModel {
            latency_rounds: self.latency_rounds,
            latency_timeout_ms: self.latency_timeout_ms,
            download_test_ms: self.download_test_ms,
            download_file_path: self.download_file_path@,
            progress_save_ratio: self.progress_save_ratio,
        }
    }
}

impl<N> View for FileTestSettings<N> {
    type V = SettingsModel<N>;

    open spec fn view(&self) -> SettingsModel<N> {
        SettingsModel {
            latency_rounds: self.latency_rounds,
            latency_timeout_ms: self.latency_timeout_ms,
            download_test_ms: self.download_test_ms,
            download_file_path: self.download_file_path@,
            progress_save_ratio: self.progress_save_ratio,
        }
    }
}

/// How many records a history query returns.
#[derive(Debug, Clone, Copy, PartialEq, Eq, Structural)]
pub struct HistorySettings {
    pub default_limit: usize,
    pub max_limit: usize,
}

impl Default for HistorySettings {
    fn default() -> (r: HistorySettings)
        ensures
            r == (HistorySettings { default_limit: 80, max_limit: 200 }),
    {
        HistorySettings { default_limit: 80, max_limit: 200 }
    }
}

/// What the page shows.
#[derive(Debug, Clone, Copy, PartialEq, Eq, Structural)]
pub struct DisplaySettings {
    pub show_domains: bool,
}

impl Default for DisplaySettings {
    fn default() -> (r: DisplaySettings)
        ensures
            r.show_domains,
    {
        DisplaySettings { show_domains: true }
    }
}

/// What can be wrong with a configuration. Failures of the system and of the file formats are
/// carried as the texts that describe them.
#[derive(Debug)]
pub enum ConfigError {
    Io(String),
    MissingConfig(String),
    MissingDomainFile(String),
    Toml(String),
    Yaml(String),
    NoDomains,
    InvalidDomainUrl(String),
    DuplicateDomain(String),
    MissingSpeedtestSettings,
    InvalidDownloadFilePath(String),
    InvalidHistoryLimit,
}

/// The mathematical model of a configuration error.
#[verifier::ext_equal]
pub ghost enum ConfigErrorModel {
    Io(Seq<char>),
    MissingConfig(Seq<char>),
    MissingDomainFile(Seq<char>),
    Toml(Seq<char>),
    Yaml(Seq<char>),
    NoDomains,
    InvalidDomainUrl(Seq<char>),
    DuplicateDomain(Seq<char>),
    MissingSpeedtestSettings,
    InvalidDownloadFilePath(Seq<char>),
    InvalidHistoryLimit,
}

impl View for ConfigError {
    type V = ConfigErrorModel;

    open spec fn view(&self) -> ConfigErrorModel {
        match self {
            ConfigError::Io(t) => ConfigErrorModel::Io(t@),
            ConfigError::MissingConfig(t) => ConfigErrorModel::MissingConfig(t@),
            ConfigError::MissingDomainFile(t) => ConfigErrorModel::MissingDomainFile(t@),
            ConfigError::Toml(t) => ConfigErrorModel::Toml(t@),
            ConfigError::Yaml(t) => ConfigErrorModel::Yaml(t@),
            ConfigError::NoDomains => ConfigErrorModel::NoDomains,
            ConfigError::InvalidDomainUrl(t) => ConfigErrorModel::InvalidDomainUrl(t@),
            ConfigError::DuplicateDomain(t) => ConfigErrorModel::DuplicateDomain(t@),
            ConfigError::MissingSpeedtestSettings => ConfigErrorModel::MissingSpeedtestSettings,
            ConfigError::InvalidDownloadFilePath(t) => ConfigErrorModel::InvalidDownloadFilePath(
                t@,
            ),
            ConfigError::InvalidHistoryLimit => ConfigErrorModel::InvalidHistoryLimit,
        }
    }
}

impl ConfigErrorModel {
    /// The text that describes the error.
    pub open spec fn message(self) -> Seq<char> {
        match self {
            ConfigErrorModel::Io(t) => "读取配置失败: "@ + t,
            ConfigErrorModel::MissingConfig(t) => "配置文件不存在: "@ + t,
            ConfigErrorModel::MissingDomainFile(t) => "外部线路文件不存在: "@ + t,
            ConfigErrorModel::Toml(t) => "TOML 配置解析失败: "@ + t,
            ConfigErrorModel::Yaml(t) => "YAML 线路配置解析失败: "@ + t,
            ConfigErrorModel::NoDomains => "配置中没有可用线路"@,
            ConfigErrorModel::InvalidDomainUrl(t) => "线路 URL 无效: "@ + t,
            ConfigErrorModel::DuplicateDomain(t) => "重复线路域名: "@ + t,
            ConfigErrorModel::MissingSpeedtestSettings => "缺少 [speedtest] 配置段"@,
            ConfigErrorModel::InvalidDownloadFilePath(t) =>
            "speedtest.download_file_path 必须以 / 开头且不能只写 /: "@ + t,
            ConfigErrorModel::InvalidHistoryLimit => "历史记录默认查询数量不能大于最大查询数量"@,
        }
    }
}

/// The text `prefix` followed by `detail`.
fn described(prefix: &str, detail: &String) -> (r: String)
    ensures
        r@ == prefix@ + detail@,
{
    let mut out = prefix.to_owned();
    out.append(detail.as_str());
    out
}

impl ConfigError {
    /// The text that describes the error.
    pub fn message(&self) -> (r: String)
        ensures
            r@ == self@.message(),
    {
        match self {
            ConfigError::Io(t) => described("读取配置失败: ", t),
            ConfigError::MissingConfig(t) => described("配置文件不存在: ", t),
            ConfigError::MissingDomainFile(t) => described("外部线路文件不存在: ", t),
            ConfigError::Toml(t) => described("TOML 配置解析失败: ", t),
            ConfigError::Yaml(t) => described("YAML 线路配置解析失败: ", t),
            ConfigError::NoDomains => "配置中没有可用线路".to_owned(),
            ConfigError::InvalidDomainUrl(t) => described("线路 URL 无效: ", t),
            ConfigError::DuplicateDomain(t) => described("重复线路域名: ", t),
            ConfigError::MissingSpeedtestSettings => "缺少 [speedtest] 配置段".to_owned(),
            ConfigError::InvalidDownloadFilePath(t) => described(
                "speedtest.download_file_path 必须以 / 开头且不能只写 /: ",
                t,
            ),
            ConfigError::InvalidHistoryLimit => "历史记录默认查询数量不能大于最大查询数量".to_owned(),
        }
    }
}

/// The lines that the configuration file itself says something about.
#[derive(Debug)]
pub struct DomainConfig {
    pub path: String,
    pub blacklist: Vec<String>,
    pub overrides: Vec<DomainItem>,
}

/// What the configuration file holds.
#[derive(Debug)]
pub struct FileConfig<N> {
    pub server: ServerConfig,
    pub database: DatabaseConfig,
    pub speedtest: Option<FileTestSettings<N>>,
    pub test: Option<FileTestSettings<N>>,
    pub history: HistorySettings,
    pub display: DisplaySettings,
    pub domains: DomainConfig,
}

/// What became of reading the configuration file.
#[derive(Debug)]
pub enum ConfigFile<N> {
    /// There is no such file.
    Missing,
    /// The file could not be read, for the given reason.
    Unreadable(String),
    /// The file is no TOML of the right shape, for the given reason.
    Malformed(String),
    /// The file holds this.
    Parsed(FileConfig<N>),
}

/// What became of reading the file of lines.
#[derive(Debug)]
pub enum DomainFile {
    /// There is no such file.
    Missing,
    /// The file could not be read, for the given reason.
    Unreadable(String),
    /// The file is no YAML of the right shape, for the given reason.
    Malformed(String),
    /// The file lists these lines.
    Loaded(Vec<DomainItem>),
}

/// The configuration that the service runs with.
#[derive(Debug)]
pub struct RuntimeConfig<N> {
    pub server: ServerConfig,
    pub database: DatabaseConfig,
    pub test: TestSettings<N>,
    pub history: HistorySettings,
    pub display: DisplaySettings,
    pub targets: Vec<TestTarget>,
}

impl<N: Copy> Clone for RuntimeConfig<N> {
    fn clone(&self) -> (r: RuntimeConfig<N>)
        ensures
            r@ == self@,
    {
        let targets = self.targets.clone();
        proof {
            assert(targets_view(targets@) =~= targets_view(self.targets@));
        }
        RuntimeConfig {
            server: self.server.clone(),
            database: self.database.clone(),
            test: self.test.clone(),
            history: self.history,
            display: self.display,
            targets,
        }
    }
}

/// The mathematical model of a running configuration.
#[verifier::ext_equal]
pub ghost struct RuntimeModel<N> {
    pub host: Seq<char>,
    pub port: u16,
    pub database: Seq<char>,
    pub test: SettingsModel<N>,
    pub history: HistorySettings,
    pub display: DisplaySettings,
    pub targets: Seq<TargetModel>,
}

impl<N> View for RuntimeConfig<N> {
    type V = RuntimeModel<N>;

    open spec fn view(&self) -> RuntimeModel<N> {
        RuntimeModel {
            host: self.server.host@,
            port: self.server.port,
            database: self.database.path@,
            test: self.test@,
            history: self.history,
            display: self.display,
            targets: targets_view(self.targets@),
        }
    }
}

/// The model of the outcome of reading a configuration.
pub open spec fn runtime_view<N>(r: Result<RuntimeConfig<N>, ConfigError>) -> Result<
    RuntimeModel<N>,
    ConfigErrorModel,
> {
    match r {
        Ok(config) => Ok(config@),
        Err(e) => Err(e@),
    }
}

/// The model of the outcome of normalizing test settings.
pub open spec fn settings_view<N>(r: Result<TestSettings<N>, ConfigError>) -> Result<
    SettingsModel<N>,
    ConfigErrorModel,
> {
    match r {
        Ok(settings) => Ok(settings@),
        Err(e) => Err(e@),
    }
}

/// The model of the outcome of choosing between two groups of test settings.
pub open spec fn file_settings_view<N>(r: Result<FileTestSettings<N>, ConfigError>) -> Result<
    SettingsModel<N>,
    ConfigErrorModel,
> {
    match r {
        Ok(settings) => Ok(settings@),
        Err(e) => Err(e@),
    }
}

/// The model of the outcome of normalizing history settings.
pub open spec fn history_view(r: Result<HistorySettings, ConfigError>) -> Result<
    HistorySettings,
    ConfigErrorModel,
> {
    match r {
        Ok(settings) => Ok(settings),
        Err(e) => Err(e@),
    }
}

/// The number nearest to `n` between `low` and `high`.
pub open spec fn clamped(n: int, low: int, high: int) -> int {
    if n < low {
        low
    } else if n > high {
        high
    } else {
        n
    }
}

/// The path of the downloaded file without the white space around it. It stands below the
/// address of a line, so it starts with a slash and names something.
pub open spec fn file_path_of(value: Seq<char>) -> Result<Seq<char>, ConfigErrorModel> {
    let path = text::trimmed(value);
    if path.len() >= 2 && path[0] == '/' {
        Ok(path)
    } else {
        Err(ConfigErrorModel::InvalidDownloadFilePath(path))
    }
}

/// Test settings with each number brought into its range. The ratio stays as it is.
pub open spec fn settings_of<N>(settings: SettingsModel<N>) -> Result<
    SettingsModel<N>,
    ConfigErrorModel,
> {
    match file_path_of(settings.download_file_path) {
        Ok(path) => Ok(
            SettingsModel {
                latency_rounds: clamped(settings.latency_rounds as int, 1, 20) as usize,
                latency_timeout_ms: clamped(
                    settings.latency_timeout_ms as int,
                    300,
                    30_000,
                ) as u64,
                download_test_ms: clamped(
                    settings.download_test_ms as int,
                    1_000,
                    120_000,
                ) as u64,
                download_file_path: path,
                progress_save_ratio: settings.progress_save_ratio,
            },
        ),
        Err(e) => Err(e),
    }
}

/// The settings of the section `speedtest`, or else of the section `test`.
pub open spec fn chosen_settings<N>(
    speedtest: Option<FileTestSettings<N>>,
    legacy_test: Option<FileTestSettings<N>>,
) -> Result<SettingsModel<N>, ConfigErrorModel> {
    match (speedtest, legacy_test) {
        (Some(settings), _) => Ok(settings@),
        (None, Some(settings)) => Ok(settings@),
        (None, None) => Err(ConfigErrorModel::MissingSpeedtestSettings),
    }
}

/// History settings with each number brought into its range.
pub open spec fn history_of(settings: HistorySettings) -> Result<
    HistorySettings,
    ConfigErrorModel,
> {
    let default_limit = clamped(settings.default_limit as int, 1, 1000) as usize;
    let max_limit = clamped(settings.max_limit as int, 1, 1000) as usize;
    if default_limit > max_limit {
        Err(ConfigErrorModel::InvalidHistoryLimit)
    } else {
        Ok(HistorySettings { default_limit, max_limit })
    }
}

/// The lines of the file of lines, with the overrides applied and the blacklist taken out.
pub open spec fn lines_of(config: DomainConfig, external: DomainFile) -> Result<
    Seq<ItemModel>,
    ConfigErrorModel,
> {
    match external {
        DomainFile::Missing => Err(ConfigErrorModel::MissingDomainFile(config.path@)),
        DomainFile::Unreadable(reason) => Err(ConfigErrorModel::Io(reason@)),
        DomainFile::Malformed(reason) => Err(ConfigErrorModel::Yaml(reason@)),
        DomainFile::Loaded(items) => if items@.len() == 0 {
            Err(ConfigErrorModel::NoDomains)
        } else {
            match domains::merged_of(items_view(items@), items_view(config.overrides@)) {
                Ok(merged) => domains::filtered_of(merged, text::views(config.blacklist@)),
                Err(e) => Err(e),
            }
        },
    }
}

/// The running configuration that a configuration file and a file of lines give.
pub open spec fn runtime_of<N>(file: FileConfig<N>, external: DomainFile) -> Result<
    RuntimeModel<N>,
    ConfigErrorModel,
> {
    match lines_of(file.domains, external) {
        Err(e) => Err(e),
        Ok(items) => match chosen_settings(file.speedtest, file.test) {
            Err(e) => Err(e),
            Ok(given) => match settings_of(given) {
                Err(e) => Err(e),
                Ok(test) => match domains::targets_of(items, test.download_file_path) {
                    Err(e) => Err(e),
                    Ok(targets) => if targets.len() == 0 {
                        Err(ConfigErrorModel::NoDomains)
                    } else {
                        match history_of(file.history) {
                            Err(e) => Err(e),
                            Ok(history) => Ok(
                                RuntimeModel {
                                    host: file.server.host@,
                                    port: file.server.port,
                                    database: file.database.path@,
                                    test,
                                    history,
                                    display: file.display,
                                    targets,
                                },
                            ),
                        }
                    },
                },
            },
        },
    }
}

fn clamp_usize(n: usize, low: usize, high: usize) -> (r: usize)
    ensures
        r == clamped(n as int, low as int, high as int),
{
    if n < low {
        low
    } else if n > high {
        high
    } else {
        n
    }
}

fn clamp_u64(n: u64, low: u64, high: u64) -> (r: u64)
    ensures
        r == clamped(n as int, low as int, high as int),
{
    if n < low {
        low
    } else if n > high {
        high
    } else {
        n
    }
}

/// How many times the latency of a line is measured, where the file does not say.
pub fn default_latency_rounds() -> (r: usize)
    ensures
        r == 5,
{
    5
}

/// How long a latency measurement may take, where the file does not say.
pub fn default_latency_timeout_ms() -> (r: u64)
    ensures
        r == 3500,
{
    3500
}

/// How long a download test runs, where the file does not say.
pub fn default_download_test_ms() -> (r: u64)
    ensures
        r == 8500,
{
    8500
}

/// The path of the downloaded file, if it is one.
pub fn normalize_download_file_path(value: &str) -> (r: Result<String, ConfigError>)
    ensures
        domains::text_result_view(r) == file_path_of(value@),
{
    let path = text::trim(value);
    proof {
        reveal_strlit("/");
    }
    if path.unicode_len() == 0 || !text::starts_with(path, "/") || text::same_text(path, "/") {
        proof {
            if path@.len() >= 2 && path@[0] == '/' {
                assert("/"@.is_prefix_of(path@));
            }
            if path@.len() == 1 && path@[0] == '/' {
                assert(path@ =~= "/"@);
            }
        }
        return Err(ConfigError::InvalidDownloadFilePath(path.to_owned()));
    }
    proof {
        assert(path@[0] == path@.take(1)[0]);
        assert(path@.len() == 1 ==> path@ =~= "/"@);
    }
    Ok(path.to_owned())
}

/// Takes the section `speedtest`, or else the section `test` of older files.
pub fn select_file_test_settings<N>(
    speedtest: Option<FileTestSettings<N>>,
    legacy_test: Option<FileTestSettings<N>>,
) -> (r: Result<FileTestSettings<N>, ConfigError>)
    ensures
        file_settings_view(r) == chosen_settings(speedtest, legacy_test),
{
    match speedtest {
        Some(settings) => Ok(settings),
        None => match legacy_test {
            Some(settings) => Ok(settings),
            None => Err(ConfigError::MissingSpeedtestSettings),
        },
    }
}

impl<N> FileTestSettings<N> {
    /// Brings each number into its range. The ratio stays as it is.
    pub fn normalized(self) -> (r: Result<TestSettings<N>, ConfigError>)
        ensures
            settings_view(r) == settings_of(self@),
    {
        let path = match normalize_download_file_path(self.download_file_path.as_str()) {
            Ok(path) => path,
            Err(e) => return Err(e),
        };
        Ok(
            TestSettings {
                latency_rounds: clamp_usize(self.latency_rounds, 1, 20),
                latency_timeout_ms: clamp_u64(self.latency_timeout_ms, 300, 30_000),
                download_test_ms: clamp_u64(self.download_test_ms, 1_000, 120_000),
                download_file_path: path,
                progress_save_ratio: self.progress_save_ratio,
            },
        )
    }
}

impl HistorySettings {
    /// What running settings keep: a default of at least one that the limit allows.
    pub open spec fn wf(self) -> bool {
        1 <= self.default_limit <= self.max_limit <= 1000
    }

    /// The number of records that a query for `requested` returns at most.
    pub open spec fn limit_of(self, requested: Option<usize>) -> int {
        match requested {
            Some(n) => clamped(n as int, 1, self.max_limit as int),
            None => clamped(self.default_limit as int, 1, self.max_limit as int),
        }
    }

    /// Brings each number into its range.
    pub fn normalized(self) -> (r: Result<HistorySettings, ConfigError>)
        ensures
            history_view(r) == history_of(self),
            r matches Ok(settings) ==> settings.wf(),
    {
        let default_limit = clamp_usize(self.default_limit, 1, 1000);
        let max_limit = clamp_usize(self.max_limit, 1, 1000);
        if default_limit > max_limit {
            return Err(ConfigError::InvalidHistoryLimit);
        }
        Ok(HistorySettings { default_limit, max_limit })
    }

    /// The number of records for a query that may ask for one.
    pub fn resolve_limit(&self, requested: Option<usize>) -> (r: usize)
        requires
            self.max_limit >= 1,
        ensures
            r == self.limit_of(requested),
            1 <= r <= self.max_limit,
    {
        match requested {
            Some(n) => clamp_usize(n, 1, self.max_limit),
            None => clamp_usize(self.default_limit, 1, self.max_limit),
        }
    }
}

/// The lines to test: those of the file of lines, with the overrides applied and the blacklist
/// taken out.
pub fn load_domain_items(config: &DomainConfig, external: DomainFile) -> (r: Result<
    Vec<DomainItem>,
    ConfigError,
>)
    ensures
        domains::items_result_view(r) == lines_of(*config, external),
{
    let items = match external {
        DomainFile::Missing => return Err(ConfigError::MissingDomainFile(config.path.clone())),
        DomainFile::Unreadable(reason) => return Err(ConfigError::Io(reason)),
        DomainFile::Malformed(reason) => return Err(ConfigError::Yaml(reason)),
        DomainFile::Loaded(items) => items,
    };
    if items.len() == 0 {
        return Err(ConfigError::NoDomains);
    }
    match domains::merge_domain_overrides(items, &config.overrides) {
        Ok(merged) => domains::filter_blacklisted_domains(merged, &config.blacklist),
        Err(e) => Err(e),
    }
}

impl<N> RuntimeConfig<N> {
    /// The configuration of the file at `path`, given what became of reading it and the file of
    /// lines that it names.
    pub fn load(path: String, file: ConfigFile<N>, external: DomainFile) -> (r: Result<
        RuntimeConfig<N>,
        ConfigError,
    >)
        ensures
            runtime_view(r) == (match file {
                ConfigFile::Missing => Err(ConfigErrorModel::MissingConfig(path@)),
                ConfigFile::Unreadable(reason) => Err(ConfigErrorModel::Io(reason@)),
                ConfigFile::Malformed(reason) => Err(ConfigErrorModel::Toml(reason@)),
                ConfigFile::Parsed(config) => runtime_of(config, external),
            }),
            r matches Ok(config) ==> {
                &&& file matches ConfigFile::Parsed(given)
                &&& config.server == given.server
                &&& config.database == given.database
                &&& config.display == given.display
                &&& config.history.wf()
            },
    {
        match file {
            ConfigFile::Missing => Err(ConfigError::MissingConfig(path)),
            ConfigFile::Unreadable(reason) => Err(ConfigError::Io(reason)),
            ConfigFile::Malformed(reason) => Self::from_toml_str(Err(reason), external),
            ConfigFile::Parsed(config) => Self::from_toml_str(Ok(config), external),
        }
    }

    /// The configuration of a TOML text, given what became of parsing it.
    pub fn from_toml_str(parsed: Result<FileConfig<N>, String>, external: DomainFile) -> (r: Result<
        RuntimeConfig<N>,
        ConfigError,
    >)
        ensures
            runtime_view(r) == (match parsed {
                Ok(config) => runtime_of(config, external),
                Err(reason) => Err(ConfigErrorModel::Toml(reason@)),
            }),
            r matches Ok(config) ==> {
                &&& parsed matches Ok(file)
                &&& config.server == file.server
                &&& config.database == file.database
                &&& config.display == file.display
                &&& config.history.wf()
            },
    {
        match parsed {
            Ok(config) => Self::from_file_config(config, external),
            Err(reason) => Err(ConfigError::Toml(reason)),
        }
    }

    /// Normalizes what a configuration file holds and builds the targets.
    pub fn from_file_config(file_config: FileConfig<N>, external: DomainFile) -> (r: Result<
        RuntimeConfig<N>,
        ConfigError,
    >)
        ensures
            runtime_view(r) == runtime_of(file_config, external),
            r matches Ok(config) ==> {
                &&& config.server == file_config.server
                &&& config.database == file_config.database
                &&& config.display == file_config.display
                &&& config.history.wf()
            },
    {
        let domain_items = match load_domain_items(&file_config.domains, external) {
            Ok(items) => items,
            Err(e) => return Err(e),
        };
        let given = match select_file_test_settings(file_config.speedtest, file_config.test) {
            Ok(settings) => settings,
            Err(e) => return Err(e),
        };
        let test = match given.normalized() {
            Ok(settings) => settings,
            Err(e) => return Err(e),
        };
        let targets = match domains::build_targets(
            &domain_items,
            test.download_file_path.as_str(),
        ) {
            Ok(targets) => targets,
            Err(e) => return Err(e),
        };
        if targets.len() == 0 {
            return Err(ConfigError::NoDomains);
        }
        let history = match file_config.history.normalized() {
            Ok(settings) => settings,
            Err(e) => return Err(e),
        };
        Ok(
            RuntimeConfig {
                server: file_config.server,
                database: file_config.database,
                test,
                history,
                display: file_config.display,
                targets,
            },
        )
    }

    /// The address to listen on.
    pub fn listen_addr(&self) -> (r: String)
        ensures
            r@ == self@.host + ":"@ + text::decimal(self@.port as nat),
    {
        let mut out = self.server.host.clone();
        out.append(":");
        out.append(text::decimal_text(self.server.port as u128).as_str());
        out
    }
}

} // verus!
