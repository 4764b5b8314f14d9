use sccache::config::{
    parse_size, parse_log_level, Config, ConfigFile, ConfigEnv, ConfigError, CacheType,
    StorageSelection, LogLevel, storage_from_config, fallback_storage, TEN_GIGS,
};

fn empty_file() -> ConfigFile {
    ConfigFile {
        cache_type: None,
        cache_dir: None,
        cache_size: None,
        redis_url: None,
        s3_bucket: None,
        s3_endpoint: None,
        no_daemon: None,
        force_recache: None,
        msvc_force_z7: None,
        compiler_dir: None,
    }
}

fn empty_env() -> ConfigEnv {
    ConfigEnv {
        dir: None,
        size: None,
        redis: None,
        bucket: None,
        endpoint: None,
        region: None,
        no_daemon: None,
        recache: None,
        default_dir: "/tmp/sccache_cache".to_string(),
    }
}

#[test]
fn test_parse_size() {
    assert_eq!(None, parse_size(""));
    assert_eq!(None, parse_size("100"));
    assert_eq!(Some(2048), parse_size("2K"));
    assert_eq!(Some(10 * 1024 * 1024), parse_size("10M"));
    assert_eq!(Some(TEN_GIGS), parse_size("10G"));
    assert_eq!(Some(1024 * TEN_GIGS), parse_size("10T"));
}

#[test]
fn test_parse_size_rejects_noise() {
    assert_eq!(None, parse_size("K"));
    assert_eq!(None, parse_size("10Q"));
    assert_eq!(None, parse_size("1 0K"));
    assert_eq!(Some(7 * 1024), parse_size("0007K"));
}

#[test]
fn test_config_defaults_to_disk() {
    let conf = Config::create(&empty_file(), &empty_env()).unwrap();
    match conf.cache_type {
        CacheType::Disk(d) => {
            assert_eq!("/tmp/sccache_cache", d.cache_dir);
            assert_eq!(TEN_GIGS, d.cache_size);
        }
        o => panic!("unexpected cache type: {:?}", o),
    }
    assert!(!conf.no_daemon);
    assert!(!conf.force_recache);
    assert!(!conf.msvc_force_z7);
    assert_eq!(None, conf.compiler_dir);
}

#[test]
fn test_config_env_size_overrides_file() {
    let mut file = empty_file();
    file.cache_type = Some("disk".to_string());
    file.cache_dir = Some("/var/cache".to_string());
    file.cache_size = Some("2K".to_string());
    let mut env = empty_env();
    env.size = Some("10M".to_string());
    let conf = Config::create(&file, &env).unwrap();
    match conf.cache_type {
        CacheType::Disk(d) => {
            assert_eq!("/var/cache", d.cache_dir);
            assert_eq!(10 * 1024 * 1024, d.cache_size);
        }
        o => panic!("unexpected cache type: {:?}", o),
    }
}

#[test]
fn test_config_redis_env_wins() {
    let mut file = empty_file();
    file.cache_type = Some("disk".to_string());
    let mut env = empty_env();
    env.redis = Some("redis://localhost/".to_string());
    let conf = Config::create(&file, &env).unwrap();
    assert_eq!(
        CacheType::Redis(sccache::config::RedisCacheConfig { url: "redis://localhost/".to_string() }),
        conf.cache_type
    );
}

#[test]
fn test_config_s3_endpoint_from_region() {
    let mut env = empty_env();
    env.bucket = Some("bkt".to_string());
    env.region = Some("eu-west-1".to_string());
    let conf = Config::create(&empty_file(), &env).unwrap();
    match conf.cache_type {
        CacheType::S3(c) => {
            assert_eq!("bkt", c.bucket);
            assert_eq!("bkt.s3-eu-west-1.amazonaws.com", c.endpoint);
        }
        o => panic!("unexpected cache type: {:?}", o),
    }
    let mut env2 = empty_env();
    env2.bucket = Some("bkt".to_string());
    env2.region = Some("us-east-1".to_string());
    let conf2 = Config::create(&empty_file(), &env2).unwrap();
    match conf2.cache_type {
        CacheType::S3(c) => assert_eq!("bkt.s3.amazonaws.com", c.endpoint),
        o => panic!("unexpected cache type: {:?}", o),
    }
}

#[test]
fn test_config_missing_redis_url_is_fatal() {
    let mut file = empty_file();
    file.cache_type = Some("redis".to_string());
    assert_eq!(Err(ConfigError::MissingRedisUrl), Config::create(&file, &empty_env()));
}

#[test]
fn test_config_unknown_cache_type_is_fatal() {
    let mut file = empty_file();
    file.cache_type = Some("floppy".to_string());
    assert_eq!(Err(ConfigError::InvalidCacheType), Config::create(&file, &empty_env()));
}

#[test]
fn test_config_flags_precedence() {
    let mut file = empty_file();
    file.no_daemon = Some(false);
    file.force_recache = Some(true);
    let mut env = empty_env();
    env.no_daemon = Some("1".to_string());
    env.recache = Some("0".to_string());
    let conf = Config::create(&file, &env).unwrap();
    assert!(conf.no_daemon);
    assert!(!conf.force_recache);
}

#[test]
fn test_config_compiler_dir_appends_dot() {
    let mut file = empty_file();
    file.compiler_dir = Some("/opt/compilers".to_string());
    let conf = Config::create(&file, &empty_env()).unwrap();
    assert_eq!(Some("/opt/compilers.".to_string()), conf.compiler_dir);
    let mut file2 = empty_file();
    file2.compiler_dir = Some("/opt/compilers/".to_string());
    let conf2 = Config::create(&file2, &empty_env()).unwrap();
    assert_eq!(Some("/opt/compilers/.".to_string()), conf2.compiler_dir);
}

#[test]
fn test_storage_selection() {
    let conf = Config::create(&empty_file(), &empty_env()).unwrap();
    match storage_from_config(&conf) {
        Ok(StorageSelection::Disk { dir, size }) => {
            assert_eq!("/tmp/sccache_cache", dir);
            assert_eq!(TEN_GIGS, size);
        }
        o => panic!("unexpected selection: {:?}", o),
    }
    match fallback_storage("/fallback".to_string()) {
        StorageSelection::Disk { dir, size } => {
            assert_eq!("/fallback", dir);
            assert_eq!(TEN_GIGS, size);
        }
        o => panic!("unexpected selection: {:?}", o),
    }
}

#[test]
fn test_parse_log_level() {
    assert_eq!(Some(LogLevel::Off), parse_log_level(&"off".to_string()));
    assert_eq!(Some(LogLevel::Trace), parse_log_level(&"trace".to_string()));
    assert_eq!(Some(LogLevel::Warn), parse_log_level(&"warn".to_string()));
    assert_eq!(None, parse_log_level(&"loud".to_string()));
}

#[test]
fn test_config_missing_s3_keys_are_fatal() {
    let mut file = empty_file();
    file.cache_type = Some("s3".to_string());
    assert_eq!(Err(ConfigError::MissingS3Bucket), Config::create(&file, &empty_env()));
    let mut file2 = empty_file();
    file2.cache_type = Some("s3".to_string());
    file2.s3_bucket = Some("bkt".to_string());
    assert_eq!(Err(ConfigError::MissingS3Endpoint), Config::create(&file2, &empty_env()));
}
