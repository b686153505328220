use slayerfs::meta::config::{
    Config, ConfigError, ConfigSource, DatabaseConfig, DatabaseType, EnvValues, MetadataBackend,
};
use slayerfs::meta::database::connect::DatabaseMetaStore;
use slayerfs::meta::etcd::store::EtcdMetaStore;
use slayerfs::meta::permission::Permission;
use slayerfs::meta::store::MetaError;
use slayerfs::text::{
    join_from, parse_i64, parse_u64, path_components, split_text, u64_text, i64_text,
};
use slayerfs::vfs::error::VfsError;
use slayerfs::vfs::path::{norm_path, parse_path, split_dir_file};

fn no_env() -> EnvValues {
    EnvValues {
        meta_endpoint: None,
        meta_timeout: None,
        meta_tls: None,
        database_url: None,
        cache_size: None,
        cache_ttl: None,
        log_level: None,
        log_format: None,
    }
}

fn some(text: &str) -> Option<String> {
    Some(text.to_string())
}

#[test]
fn the_standard_configuration() {
    let c = Config::default();
    assert_eq!((c.storage.chunk_size, c.storage.block_size), (64 * 1024 * 1024, 4 * 1024));
    assert_eq!((c.cache.attr_cache_size, c.cache.attr_cache_ttl_secs), (10000, 60));
    assert_eq!((c.cache.negative_cache_size, c.cache.negative_cache_ttl_secs), (5000, 30));
    assert_eq!((c.logging.level.as_str(), c.logging.format.as_str()), ("info", "text"));
    assert_eq!(c.database().unwrap().db_type_str(), "sqlite");
}

#[test]
fn the_environment_is_read() {
    let env = EnvValues {
        meta_endpoint: some("http://meta:50051"),
        meta_timeout: some("5"),
        meta_tls: some("true"),
        cache_size: some("77"),
        cache_ttl: some("x"),
        log_level: some("debug"),
        ..no_env()
    };
    let c = Config::from_env(env).unwrap();
    match &c.metadata.backend {
        MetadataBackend::Grpc { endpoint, timeout_secs, tls } => {
            assert_eq!((endpoint.as_str(), *timeout_secs, *tls), ("http://meta:50051", 5, true))
        }
        other => panic!("unexpected: {other:?}"),
    }
    assert!(c.database().is_none());
    assert_eq!((c.cache.attr_cache_size, c.cache.attr_cache_ttl_secs), (77, 60));
    assert_eq!(c.logging.level, "debug");
    let c = Config::from_env(EnvValues {
        database_url: some("postgres://u@h/db"),
        ..no_env()
    })
    .unwrap();
    assert_eq!(c.database().unwrap().db_type_str(), "postgres");
    let c = Config::from_env(EnvValues { database_url: some("sqlite::memory:"), ..no_env() });
    assert_eq!(c.unwrap().database().unwrap().db_type_str(), "sqlite");
}

#[test]
fn the_first_file_that_is_there_is_taken() {
    let paths = Config::possible_paths();
    assert_eq!(paths.len(), 5);
    assert_eq!(paths[0], "slayerfs.yml");
    let source = Config::from_default_path(&vec![false, false, true, true, false]);
    assert!(matches!(source, ConfigSource::File(p) if p == paths[2]));
    assert!(matches!(
        Config::from_default_path(&vec![false; 5]),
        ConfigSource::Environment
    ));
    let source = Config::from_path("b.yml".to_string(), true, &vec![true; 5]);
    assert!(matches!(source, ConfigSource::File(p) if p == "b.yml"));
    assert_eq!(
        ConfigError::ConfigNotFound.message(),
        "Config file not found in default locations"
    );
    assert_eq!(ConfigError::IoError("x".to_string()).message(), "IO error: x");
    assert_eq!(ConfigError::ParseError("x".to_string()).message(), "Parse error: x");
}

#[test]
fn each_store_takes_its_databases() {
    let etcd = DatabaseConfig { db_config: DatabaseType::Etcd { urls: vec!["h:2379".to_string()] } };
    assert!(matches!(DatabaseMetaStore::create_connection(&etcd), Err(MetaError::Config(_))));
    assert!(matches!(DatabaseMetaStore::id_source(&etcd), Err(MetaError::Config(_))));
    let sqlite =
        DatabaseConfig { db_config: DatabaseType::Sqlite { url: "sqlite::memory:".to_string() } };
    let plan = DatabaseMetaStore::create_connection(&sqlite).unwrap();
    assert_eq!(plan.url, "sqlite::memory:");
    assert_eq!(plan.statements[0], "PRAGMA journal_mode=WAL;");
    let mut c = Config::default();
    assert!(matches!(EtcdMetaStore::create_client(&c), Err(MetaError::Config(_))));
    c.metadata.backend = MetadataBackend::Database { config: etcd };
    assert_eq!(EtcdMetaStore::create_client(&c).unwrap(), &vec!["h:2379".to_string()]);
}

#[test]
fn paths_have_one_form() {
    assert_eq!(norm_path(""), "/");
    assert_eq!(norm_path("//a///b/"), "/a/b");
    assert_eq!(norm_path("a"), "/a");
    assert_eq!(split_dir_file("/a/b"), ("/a".to_string(), "b".to_string()));
    assert_eq!(split_dir_file("/a"), ("/".to_string(), "a".to_string()));
    assert_eq!(parse_path("/a/b/c").unwrap(), ("/a/b".to_string(), "c".to_string()));
    assert!(matches!(parse_path("a"), Err(VfsError::InvalidPath(p)) if p == "a"));
    assert!(matches!(parse_path("/"), Err(VfsError::InvalidPath(p)) if p == "Cannot parse root path"));
    assert_eq!(path_components("/a//b"), vec!["a".to_string(), "b".to_string()]);
}

#[test]
fn texts_and_numbers() {
    assert_eq!(i64_text(i64::MIN), "-9223372036854775808");
    assert_eq!(u64_text(u64::MAX), "18446744073709551615");
    assert_eq!(parse_i64("-17").unwrap(), -17);
    assert_eq!(parse_i64("+3").unwrap(), 3);
    assert!(parse_i64("").is_err() && parse_i64("-").is_err());
    assert!(parse_i64("9223372036854775808").is_err());
    assert!(parse_u64("-1", u64::MAX).is_err());
    assert_eq!(parse_u64("65535", 65535).unwrap(), 65535);
    assert!(parse_u64("65536", 65535).is_err());
    let parts = split_text("f:1:a:b", ':');
    assert_eq!(parts.len(), 4);
    assert_eq!(join_from(&parts, 2, ":", ':'), "a:b");
}

#[test]
fn permissions_tell_directories() {
    assert!(Permission::new(0o040755, 0, 0).is_directory());
    assert!(!Permission::new(0o100644, 0, 0).is_directory());
}
