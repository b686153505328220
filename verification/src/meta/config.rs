//! Configuration of the metadata service.

use crate::text::{
    dec_nat, law_only_digits_are_numbers, law_unsigned_reads_back, parse_bool, parse_u64,
    starts_with,
};
use vstd::prelude::*;
use vstd::string::*;

verus! {

/// The configuration.
#[derive(Debug, Clone)]
pub struct Config {
    pub metadata: MetadataConfig,
    pub cache: CacheConfig,
    pub logging: LoggingConfig,
    pub storage: StorageConfig,
}

/// Where metadata are kept.
#[derive(Debug, Clone)]
pub struct MetadataConfig {
    pub backend: MetadataBackend,
}

/// The kinds of metadata backends.
#[derive(Debug, Clone)]
pub enum MetadataBackend {
    /// A database.
    Database { config: DatabaseConfig },
    /// A remote metadata server.
    Grpc { endpoint: String, timeout_secs: u64, tls: bool },
}

/// Sizes and times to live of the caches.
#[derive(Debug, Clone, Copy)]
pub struct CacheConfig {
    pub enabled: bool,
    pub attr_cache_size: usize,
    pub attr_cache_ttl_secs: u64,
    pub dentry_cache_size: usize,
    pub dentry_cache_ttl_secs: u64,
    pub negative_cache_size: usize,
    pub negative_cache_ttl_secs: u64,
}

/// Logging.
#[derive(Debug, Clone)]
pub struct LoggingConfig {
    pub level: String,
    pub format: String,
    pub file: Option<String>,
}

/// Sizes of chunks and blocks, in bytes.
#[derive(Debug, Clone, Copy)]
pub struct StorageConfig {
    pub chunk_size: u32,
    pub block_size: u32,
}

/// Which database, and where.
#[derive(Debug, Clone)]
pub struct DatabaseConfig {
    pub db_config: DatabaseType,
}

/// The kinds of databases.
#[derive(Debug, Clone)]
pub enum DatabaseType {
    Sqlite { url: String },
    Postgres { url: String },
    Etcd { urls: Vec<String> },
}

/// How long a connection to a metadata server may take, in seconds.
pub fn default_grpc_timeout() -> (r: u64)
    ensures
        r == 30,
{
    30
}

/// Caching is on.
pub fn default_true() -> (r: bool)
    ensures
        r,
{
    true
}

/// How many attributes are cached.
pub fn default_attr_cache_size() -> (r: usize)
    ensures
        r == 10000,
{
    10000
}

/// How long attributes are cached, in seconds.
pub fn default_attr_cache_ttl() -> (r: u64)
    ensures
        r == 60,
{
    60
}

/// How many names are cached.
pub fn default_dentry_cache_size() -> (r: usize)
    ensures
        r == 10000,
{
    10000
}

/// How long names are cached, in seconds.
pub fn default_dentry_cache_ttl() -> (r: u64)
    ensures
        r == 60,
{
    60
}

/// How many absent names are cached.
pub fn default_negative_cache_size() -> (r: usize)
    ensures
        r == 5000,
{
    5000
}

/// How long absent names are cached, in seconds.
pub fn default_negative_cache_ttl() -> (r: u64)
    ensures
        r == 30,
{
    30
}

/// The log level.
pub fn default_log_level() -> (r: String)
    ensures
        r@ == "info"@,
{
    String::from_str("info")
}

/// The log format.
pub fn default_log_format() -> (r: String)
    ensures
        r@ == "text"@,
{
    String::from_str("text")
}

/// Chunks of 64 MiB.
pub fn default_chunk_size() -> (r: u32)
    ensures
        r == 64 * 1024 * 1024,
{
    64 * 1024 * 1024
}

/// Blocks of 4 KiB.
pub fn default_block_size() -> (r: u32)
    ensures
        r == 4 * 1024,
{
    4 * 1024
}

/// The database file that is used where none is named.
pub fn default_sqlite_url() -> (r: String)
    ensures
        r@ == "sqlite:///tmp/slayerfs/metadata.db"@,
{
    String::from_str("sqlite:///tmp/slayerfs/metadata.db")
}

impl CacheConfig {
    /// The cache configuration that is used where none is given.
    pub open spec fn standard() -> CacheConfig {
        CacheConfig {
            enabled: true,
            attr_cache_size: 10000,
            attr_cache_ttl_secs: 60,
            dentry_cache_size: 10000,
            dentry_cache_ttl_secs: 60,
            negative_cache_size: 5000,
            negative_cache_ttl_secs: 30,
        }
    }
}

impl Default for CacheConfig {
    fn default() -> (r: Self)
        ensures
            r == CacheConfig::standard(),
            r.enabled,
            r.attr_cache_size == 10000 && r.attr_cache_ttl_secs == 60,
            r.dentry_cache_size == 10000 && r.dentry_cache_ttl_secs == 60,
            r.negative_cache_size == 5000 && r.negative_cache_ttl_secs == 30,
    {
        CacheConfig {
            enabled: default_true(),
            attr_cache_size: default_attr_cache_size(),
            attr_cache_ttl_secs: default_attr_cache_ttl(),
            dentry_cache_size: default_dentry_cache_size(),
            dentry_cache_ttl_secs: default_dentry_cache_ttl(),
            negative_cache_size: default_negative_cache_size(),
            negative_cache_ttl_secs: default_negative_cache_ttl(),
        }
    }
}

impl LoggingConfig {
    /// Whether this is the logging that is used where none is given.
    pub open spec fn is_standard(self) -> bool {
        self.level@ == "info"@ && self.format@ == "text"@ && self.file is None
    }
}

impl Default for LoggingConfig {
    fn default() -> (r: Self)
        ensures
            r.is_standard(),
            r.level@ == "info"@,
            r.format@ == "text"@,
            r.file is None,
    {
        LoggingConfig { level: default_log_level(), format: default_log_format(), file: None }
    }
}

impl Default for StorageConfig {
    fn default() -> (r: Self)
        ensures
            r == (StorageConfig { chunk_size: 67108864, block_size: 4096 }),
    {
        StorageConfig { chunk_size: default_chunk_size(), block_size: default_block_size() }
    }
}

impl DatabaseConfig {
    /// Whether this is the database that is used where none is named.
    pub open spec fn is_standard(self) -> bool {
        self.db_config matches DatabaseType::Sqlite { url } && url@
            == "sqlite:///tmp/slayerfs/metadata.db"@
    }

    /// The name of the kind of database.
    pub fn db_type_str(&self) -> (r: &'static str)
        ensures
            r@ == (match self.db_config {
                DatabaseType::Sqlite { .. } => "sqlite"@,
                DatabaseType::Postgres { .. } => "postgres"@,
                DatabaseType::Etcd { .. } => "etcd"@,
            }),
    {
        match &self.db_config {
            DatabaseType::Sqlite { .. } => "sqlite",
            DatabaseType::Postgres { .. } => "postgres",
            DatabaseType::Etcd { .. } => "etcd",
        }
    }
}

impl Default for DatabaseConfig {
    fn default() -> (r: Self)
        ensures
            r.is_standard(),
            r.db_config matches DatabaseType::Sqlite { url } && url@
                == "sqlite:///tmp/slayerfs/metadata.db"@,
    {
        DatabaseConfig { db_config: DatabaseType::Sqlite { url: default_sqlite_url() } }
    }
}

impl MetadataConfig {
    /// Whether this is the backend that is used where none is given.
    pub open spec fn is_standard(self) -> bool {
        self.backend matches MetadataBackend::Database { config } && config.is_standard()
    }
}

impl Default for MetadataConfig {
    fn default() -> (r: Self)
        ensures
            r.is_standard(),
            r.backend matches MetadataBackend::Database { config } && (
            config.db_config matches DatabaseType::Sqlite { url } && url@
                == "sqlite:///tmp/slayerfs/metadata.db"@),
    {
        MetadataConfig { backend: MetadataBackend::Database { config: DatabaseConfig::default() } }
    }
}

impl Config {
    /// Whether this is the configuration that is used where none is given.
    pub open spec fn is_standard(self) -> bool {
        &&& self.metadata.is_standard()
        &&& self.cache == CacheConfig::standard()
        &&& self.logging.is_standard()
        &&& self.storage == (StorageConfig { chunk_size: 67108864, block_size: 4096 })
    }
}

impl Default for Config {
    fn default() -> (r: Self)
        ensures
            r.is_standard(),
    {
        Config {
            metadata: MetadataConfig::default(),
            cache: CacheConfig::default(),
            logging: LoggingConfig::default(),
            storage: StorageConfig::default(),
        }
    }
}

/// The values of the environment variables that configure the service.
#[derive(Debug, Clone)]
pub struct EnvValues {
    /// `SLAYERFS_META_ENDPOINT`
    pub meta_endpoint: Option<String>,
    /// `SLAYERFS_META_TIMEOUT`
    pub meta_timeout: Option<String>,
    /// `SLAYERFS_META_TLS`
    pub meta_tls: Option<String>,
    /// `SLAYERFS_DATABASE_URL`
    pub database_url: Option<String>,
    /// `SLAYERFS_CACHE_SIZE`
    pub cache_size: Option<String>,
    /// `SLAYERFS_CACHE_TTL`
    pub cache_ttl: Option<String>,
    /// `SLAYERFS_LOG_LEVEL`
    pub log_level: Option<String>,
    /// `SLAYERFS_LOG_FORMAT`
    pub log_format: Option<String>,
}

/// The number that an optional text stands for, if it stands for one up to `max`.
pub open spec fn number_in(s: Option<String>, max: nat) -> Option<nat> {
    match s {
        Some(text) => match crate::text::parse_unsigned(text@, max) {
            Ok(n) => Some(n),
            Err(_) => None,
        },
        None => None,
    }
}

/// The number that an optional text stands for, if it stands for one up to `max`.
fn read_number(s: &Option<String>, max: u64) -> (r: Option<u64>)
    ensures
        match number_in(*s, max as nat) {
            Some(n) => r == Some(n as u64) && n <= max,
            None => r is None,
        },
{
    match s {
        Some(text) => match parse_u64(text.as_str(), max) {
            Ok(n) => Some(n),
            Err(_) => None,
        },
        None => None,
    }
}

/// The truth that an optional text stands for, false where it stands for none.
pub open spec fn truth_in(s: Option<String>) -> bool {
    match s {
        Some(text) => crate::text::parse_truth(text@) == Some(true),
        None => false,
    }
}

/// The truth that an optional text stands for, false where it stands for none.
fn read_truth(s: &Option<String>) -> (r: bool)
    ensures
        r == truth_in(*s),
{
    match s {
        Some(text) => match parse_bool(text.as_str()) {
            Some(b) => b,
            None => false,
        },
        None => false,
    }
}

impl EnvValues {
    /// Whether a backend is the one that the variables name: a metadata server
    /// before a database, and the standard one where neither is named.
    pub open spec fn names_backend(self, backend: MetadataBackend) -> bool {
        match self.meta_endpoint {
            Some(endpoint) => backend == (MetadataBackend::Grpc {
                endpoint,
                timeout_secs: match number_in(self.meta_timeout, u64::MAX as nat) {
                    Some(n) => n as u64,
                    None => 30,
                },
                tls: truth_in(self.meta_tls),
            }),
            None => match self.database_url {
                Some(url) => backend == (MetadataBackend::Database {
                    config: DatabaseConfig {
                        db_config: if "postgres"@.is_prefix_of(url@) {
                            DatabaseType::Postgres { url }
                        } else {
                            DatabaseType::Sqlite { url }
                        },
                    },
                }),
                None => (MetadataConfig { backend }).is_standard(),
            },
        }
    }
}

impl Config {
    /// The configuration that the environment variables give. A variable that is
    /// absent, or whose text is not of its kind, leaves the standard value.
    pub fn from_env(env: EnvValues) -> (r: Result<Config, ConfigError>)
        ensures
            r matches Ok(config) && {
                &&& env.names_backend(config.metadata.backend)
                &&& config.cache == (CacheConfig {
                    attr_cache_size: match number_in(env.cache_size, usize::MAX as nat) {
                        Some(n) => n as usize,
                        None => 10000,
                    },
                    dentry_cache_size: match number_in(env.cache_size, usize::MAX as nat) {
                        Some(n) => n as usize,
                        None => 10000,
                    },
                    attr_cache_ttl_secs: match number_in(env.cache_ttl, u64::MAX as nat) {
                        Some(n) => n as u64,
                        None => 60,
                    },
                    dentry_cache_ttl_secs: match number_in(env.cache_ttl, u64::MAX as nat) {
                        Some(n) => n as u64,
                        None => 60,
                    },
                    ..CacheConfig::standard()
                })
                &&& config.logging.level@ == (match env.log_level {
                    Some(level) => level@,
                    None => "info"@,
                })
                &&& config.logging.format@ == (match env.log_format {
                    Some(format) => format@,
                    None => "text"@,
                })
                &&& config.logging.file is None
                &&& config.storage == (StorageConfig { chunk_size: 67108864, block_size: 4096 })
            },
    {
        let mut config = Config::default();
        match env.meta_endpoint {
            Some(endpoint) => {
                let timeout_secs: u64 = match read_number(&env.meta_timeout, u64::MAX) {
                    Some(n) => n,
                    None => default_grpc_timeout(),
                };
                let tls = read_truth(&env.meta_tls);
                config.metadata.backend = MetadataBackend::Grpc { endpoint, timeout_secs, tls };
            },
            None => {
                if let Some(url) = env.database_url {
                    let db_config = if starts_with(url.as_str(), "postgres") {
                        DatabaseType::Postgres { url }
                    } else {
                        DatabaseType::Sqlite { url }
                    };
                    config.metadata.backend =
                        MetadataBackend::Database { config: DatabaseConfig { db_config } };
                }
            },
        }
        if let Some(n) = read_number(&env.cache_size, usize::MAX as u64) {
            config.cache.attr_cache_size = n as usize;
            config.cache.dentry_cache_size = n as usize;
        }
        if let Some(n) = read_number(&env.cache_ttl, u64::MAX) {
            config.cache.attr_cache_ttl_secs = n;
            config.cache.dentry_cache_ttl_secs = n;
        }
        if let Some(level) = env.log_level {
            config.logging.level = level;
        }
        if let Some(format) = env.log_format {
            config.logging.format = format;
        }
        Ok(config)
    }

    /// The files that are looked for, in order.
    pub open spec fn default_paths() -> Seq<Seq<char>> {
        seq![
            "slayerfs.yml"@,
            "slayerfs.yaml"@,
            "config.yml"@,
            "config.yaml"@,
            "/etc/slayerfs/config.yml"@,
        ]
    }

    /// The files that are looked for, in order.
    pub fn possible_paths() -> (r: Vec<String>)
        ensures
            r.len() == 5,
            forall|i: int| 0 <= i < 5 ==> (#[trigger] r[i])@ == Config::default_paths()[i],
            r[0]@ == "slayerfs.yml"@,
            r[1]@ == "slayerfs.yaml"@,
            r[2]@ == "config.yml"@,
            r[3]@ == "config.yaml"@,
            r[4]@ == "/etc/slayerfs/config.yml"@,
    {
        let mut r: Vec<String> = Vec::new();
        r.push(String::from_str("slayerfs.yml"));
        r.push(String::from_str("slayerfs.yaml"));
        r.push(String::from_str("config.yml"));
        r.push(String::from_str("config.yaml"));
        r.push(String::from_str("/etc/slayerfs/config.yml"));
        r
    }

    /// Where the configuration is loaded from, given which of the default files
    /// exist: the first that does, or else the environment.
    pub fn from_default_path(exists: &Vec<bool>) -> (r: ConfigSource)
        requires
            exists.len() == 5,
        ensures
            match r {
                ConfigSource::File(path) => exists|i: int|
                    0 <= i < 5 && #[trigger] exists[i] && path@ == Config::default_paths()[i]
                        && forall|j: int| 0 <= j < i ==> !exists[j],
                ConfigSource::Environment => forall|i: int| 0 <= i < 5 ==> !exists[i],
            },
    {
        let paths = Config::possible_paths();
        let mut i: usize = 0;
        while i < 5
            invariant
                i <= 5,
                exists.len() == 5,
                paths.len() == 5,
                forall|k: int|
                    0 <= k < 5 ==> (#[trigger] paths[k])@ == Config::default_paths()[k],
                forall|j: int| 0 <= j < i ==> !exists[j],
            decreases 5 - i,
        {
            if exists[i] {
                return ConfigSource::File(paths[i].clone());
            }
            i = i + 1;
        }
        ConfigSource::Environment
    }

    /// Where the configuration is loaded from, given the file of the backend,
    /// whether it exists, and which of the default files exist.
    pub fn from_path(backend_file: String, backend_file_exists: bool, exists: &Vec<bool>) -> (r:
        ConfigSource)
        requires
            exists.len() == 5,
        ensures
            backend_file_exists ==> r == ConfigSource::File(backend_file),
            !backend_file_exists ==> match r {
                ConfigSource::File(path) => exists|i: int|
                    0 <= i < 5 && #[trigger] exists[i] && path@ == Config::default_paths()[i]
                        && forall|j: int| 0 <= j < i ==> !exists[j],
                ConfigSource::Environment => forall|i: int| 0 <= i < 5 ==> !exists[i],
            },
    {
        if backend_file_exists {
            ConfigSource::File(backend_file)
        } else {
            Config::from_default_path(exists)
        }
    }

    /// The database of the metadata, if they are kept in one.
    pub open spec fn spec_database(self) -> Option<DatabaseConfig> {
        match self.metadata.backend {
            MetadataBackend::Database { config } => Some(config),
            MetadataBackend::Grpc { .. } => None,
        }
    }

    /// The database, where metadata are kept in one.
    pub fn database(&self) -> (r: Option<&DatabaseConfig>)
        ensures
            match self.spec_database() {
                Some(config) => r == Some(&config),
                None => r is None,
            },
            self.metadata.backend matches MetadataBackend::Database { config } ==> r == Some(
                &config,
            ),
            self.metadata.backend is Grpc ==> r is None,
    {
        match &self.metadata.backend {
            MetadataBackend::Database { config } => Some(config),
            _ => None,
        }
    }
}

/// Where a configuration is loaded from.
#[derive(Debug, Clone)]
pub enum ConfigSource {
    File(String),
    Environment,
}

/// Why a configuration cannot be had.
#[derive(Debug, Clone)]
pub enum ConfigError {
    IoError(String),
    ParseError(String),
    ConfigNotFound,
}

impl ConfigError {
    /// The message for a reader.
    pub fn message(&self) -> (r: String)
        ensures
            r@ == (match *self {
                ConfigError::IoError(detail) => "IO error: "@ + detail@,
                ConfigError::ParseError(detail) => "Parse error: "@ + detail@,
                ConfigError::ConfigNotFound => "Config file not found in default locations"@,
            }),
    {
        match self {
            ConfigError::IoError(detail) => String::from_str("IO error: ").concat(detail.as_str()),
            ConfigError::ParseError(detail) => String::from_str("Parse error: ").concat(
                detail.as_str(),
            ),
            ConfigError::ConfigNotFound => String::from_str(
                "Config file not found in default locations",
            ),
        }
    }
}

/// A variable that holds the decimal form of a number gives that number, one that holds a number
/// above the largest value or no number gives none, and one that is not set gives none.
pub proof fn law_variables_give_their_numbers(text: String, n: nat, max: nat, i: int)
    ensures
        text@ == dec_nat(n) && n <= max ==> number_in(Some(text), max) == Some(n),
        text@ == dec_nat(n) && n > max ==> number_in(Some(text), max) is None,
        text@.len() == 0 ==> number_in(Some(text), max) is None,
        0 <= i < text@.len() && !('0' <= text@[i] && text@[i] <= '9') && text@[i] != '+'
            ==> number_in(Some(text), max) is None,
        number_in(None, max) is None,
{
    law_unsigned_reads_back(n, max);
    if number_in(Some(text), max) is Some && 0 <= i < text@.len() {
        law_only_digits_are_numbers(text@, max, i);
    }
}

/// A variable switches on where it holds `true`, and nowhere else.
pub proof fn law_only_true_switches_on(value: Option<String>)
    ensures
        truth_in(value) <==> (value matches Some(text) && text@ == "true"@),
{
    reveal_strlit("true");
    reveal_strlit("false");
}

/// A metadata server that is named is used, with its time and its security as they are named; else
/// a database that is named, of the kind that its address begins with; else the standard one.
pub proof fn law_named_backend_is_used(env: EnvValues, backend: MetadataBackend)
    requires
        env.names_backend(backend),
    ensures
        env.meta_endpoint matches Some(at) ==> (
        backend matches MetadataBackend::Grpc { endpoint, timeout_secs, tls } && {
            &&& endpoint == at
            &&& tls <==> (env.meta_tls matches Some(text) && text@ == "true"@)
            &&& env.meta_timeout is None ==> timeout_secs == 30
            &&& env.meta_timeout matches Some(text) ==> (text@.len() == 0 ==> timeout_secs == 30)
            &&& env.meta_timeout matches Some(text) ==> (forall|n: u64|
                text@ == #[trigger] dec_nat(n as nat) ==> timeout_secs == n)
        }),
        env.meta_endpoint is None && env.database_url is Some ==> (
        backend matches MetadataBackend::Database { config } && match config.db_config {
            DatabaseType::Postgres { url } => Some(url) == env.database_url
                && "postgres"@.is_prefix_of(url@),
            DatabaseType::Sqlite { url } => Some(url) == env.database_url
                && !"postgres"@.is_prefix_of(url@),
            DatabaseType::Etcd { .. } => false,
        }),
        env.meta_endpoint is None && env.database_url is None ==> (
        backend matches MetadataBackend::Database { config } && (
        config.db_config matches DatabaseType::Sqlite { url } && url@
            == "sqlite:///tmp/slayerfs/metadata.db"@)),
{
    law_only_true_switches_on(env.meta_tls);
    if let Some(text) = env.meta_timeout {
        assert forall|n: u64| text@ == #[trigger] dec_nat(n as nat) implies number_in(
            env.meta_timeout,
            u64::MAX as nat,
        ) == Some(n as nat) by {
            law_variables_give_their_numbers(text, n as nat, u64::MAX as nat, 0);
        }
    }
}

} // verus!
