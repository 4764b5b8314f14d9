use vstd::prelude::*;
use crate::strutil::{chars_of, string_is};

verus! {

/// Default cache bound: ten gigabytes.
pub const TEN_GIGS: u64 = 10 * 1024 * 1024 * 1024;

pub open spec fn is_digit(c: char) -> bool {
    48 <= c as u32 <= 57
}

pub open spec fn digit_val(c: char) -> nat {
    (c as u32 - 48) as nat
}

pub open spec fn all_digits(s: Seq<char>) -> bool {
    forall|i: int| 0 <= i < s.len() ==> is_digit(#[trigger] s[i])
}

/// The number denoted by a decimal digit string, leading zeros allowed.
pub open spec fn digits_val(s: Seq<char>) -> nat
    decreases s.len(),
{
    if s.len() == 0 {
        0
    } else {
        digits_val(s.drop_last()) * 10 + digit_val(s.last())
    }
}

/// The byte multiplier a size suffix stands for, if it is one.
pub open spec fn suffix_multiplier(c: char) -> Option<nat> {
    if c == 'K' {
        Some(1024 as nat)
    } else if c == 'M' {
        Some((1024 * 1024) as nat)
    } else if c == 'G' {
        Some((1024 * 1024 * 1024) as nat)
    } else if c == 'T' {
        Some((1024 * 1024 * 1024 * 1024) as nat)
    } else {
        None
    }
}

/// What a size string denotes: one or more decimal digits followed by a
/// `K`, `M`, `G` or `T` suffix; anything else denotes nothing.
pub open spec fn spec_parse_size(s: Seq<char>) -> Option<nat> {
    if s.len() >= 2 && all_digits(s.drop_last()) && suffix_multiplier(s.last()) is Some {
        Some(digits_val(s.drop_last()) * suffix_multiplier(s.last()).unwrap())
    } else {
        None
    }
}

/// Parse a cache-size bound such as `10G`. Bare numbers, an empty string,
/// or an unknown suffix are rejected; so is a value over `u64::MAX` bytes.
pub fn parse_size(val: &str) -> (r: Option<u64>)
    ensures
        match r {
            Some(v) => spec_parse_size(val@) == Some(v as nat),
            None => spec_parse_size(val@) is None || spec_parse_size(val@).unwrap() > u64::MAX,
        },
{
    let chars = chars_of(val);
    if chars.len() < 2 {
        return None;
    }
    let ndigits = chars.len() - 1;
    let ghost digits = val@.drop_last();
    proof {
        assert(digits =~= val@.take(ndigits as int));
    }
    let mut acc: u64 = 0;
    let mut overflowed = false;
    let mut i: usize = 0;
    while i < ndigits
        invariant
            i <= ndigits,
            ndigits < chars@.len(),
            chars@ == val@,
            digits == val@.take(ndigits as int),
            all_digits(digits.take(i as int)),
            !overflowed ==> acc == digits_val(digits.take(i as int)),
            overflowed ==> digits_val(digits.take(i as int)) > u64::MAX,
        decreases ndigits - i,
    {
        let c = chars[i];
        let cv = c as u32;
        if cv < 48 || cv > 57 {
            // A non-digit before the suffix: the string denotes nothing.
            proof {
                assert(digits[i as int] == c);
                assert(!is_digit(digits[i as int]));
            }
            return None;
        }
        let d: u64 = (cv - 48) as u64;
        proof {
            assert(digits.take(i + 1).drop_last() =~= digits.take(i as int));
            assert(digits.take(i + 1).last() == digits[i as int]);
        }
        if overflowed {
            proof {
                assert(digits_val(digits.take(i + 1)) == digits_val(digits.take(i as int)) * 10
                    + digit_val(digits[i as int]));
                assert(digits_val(digits.take(i as int)) * 10 >= digits_val(
                    digits.take(i as int),
                )) by (nonlinear_arith);
            }
        } else {
            if acc > (u64::MAX - d) / 10 {
                proof {
                    assert(digits_val(digits.take(i + 1)) == acc * 10 + d);
                    assert(acc >= (u64::MAX - d) / 10 + 1);
                    assert(((u64::MAX - d) / 10 + 1) * 10 + d > u64::MAX) by (nonlinear_arith)
                        requires
                            0 <= d <= 9,
                    ;
                    assert(acc * 10 + d >= ((u64::MAX - d) / 10 + 1) * 10 + d)
                        by (nonlinear_arith)
                        requires
                            acc >= (u64::MAX - d) / 10 + 1,
                            0 <= d,
                    ;
                }
                overflowed = true;
            } else {
                acc = acc * 10 + d;
            }
        }
        i = i + 1;
    }
    proof {
        assert(digits.take(ndigits as int) =~= digits);
    }
    let suffix = chars[ndigits];
    let mult: u64 = if suffix == 'K' {
        1024
    } else if suffix == 'M' {
        1024 * 1024
    } else if suffix == 'G' {
        1024 * 1024 * 1024
    } else if suffix == 'T' {
        1024 * 1024 * 1024 * 1024
    } else {
        proof {
            assert(val@.last() == suffix);
        }
        return None;
    };
    proof {
        assert(val@.last() == suffix);
        assert(suffix_multiplier(suffix) == Some(mult as nat));
    }
    if overflowed {
        proof {
            assert(digits_val(digits) * mult >= digits_val(digits) * 1) by (nonlinear_arith)
                requires
                    mult >= 1,
            ;
        }
        return None;
    }
    if mult > 0 && acc > u64::MAX / mult {
        proof {
            let m = mult as nat;
            assert(acc * m > (u64::MAX / mult) * m) by (nonlinear_arith)
                requires
                    acc > u64::MAX / mult,
                    m > 0,
            ;
            assert((u64::MAX / mult) * m + m > u64::MAX) by (nonlinear_arith)
                requires
                    m == mult as nat,
                    mult > 0,
            ;
            assert(acc * m >= (u64::MAX / mult) * m + m) by (nonlinear_arith)
                requires
                    acc >= u64::MAX / mult + 1,
                    m > 0,
            ;
        }
        return None;
    }
    proof {
        assert(acc * mult <= u64::MAX) by (nonlinear_arith)
            requires
                mult > 0,
                acc <= u64::MAX / mult,
        ;
    }
    Some(acc * mult)
}

/// Settings for the disk cache backend.
#[derive(Debug, PartialEq)]
pub struct DiskCacheConfig {
    pub cache_dir: String,
    pub cache_size: u64,
}

/// Settings for a redis cache backend.
#[derive(Debug, PartialEq)]
pub struct RedisCacheConfig {
    pub url: String,
}

/// Settings for an S3 cache backend.
#[derive(Debug, PartialEq)]
pub struct S3CacheConfig {
    pub endpoint: String,
    pub bucket: String,
}

/// Which cache backend the daemon should use.
#[derive(Debug, PartialEq)]
pub enum CacheType {
    Invalid,
    Disk(DiskCacheConfig),
    S3(S3CacheConfig),
    Redis(RedisCacheConfig),
}

/// The daemon's configuration surface.
#[derive(Debug, PartialEq)]
pub struct Config {
    pub cache_type: CacheType,
    pub no_daemon: bool,
    pub force_recache: bool,
    pub msvc_force_z7: bool,
    pub compiler_dir: Option<String>,
}

/// The recognized keys of the configuration file, already read and
/// type-checked by the caller.
pub struct ConfigFile {
    pub cache_type: Option<String>,
    pub cache_dir: Option<String>,
    pub cache_size: Option<String>,
    pub redis_url: Option<String>,
    pub s3_bucket: Option<String>,
    pub s3_endpoint: Option<String>,
    pub no_daemon: Option<bool>,
    pub force_recache: Option<bool>,
    pub msvc_force_z7: Option<bool>,
    pub compiler_dir: Option<String>,
}

/// The recognized environment variables, as the caller found them, plus the
/// platform's default disk cache directory.
pub struct ConfigEnv {
    pub dir: Option<String>,
    pub size: Option<String>,
    pub redis: Option<String>,
    pub bucket: Option<String>,
    pub endpoint: Option<String>,
    pub region: Option<String>,
    pub no_daemon: Option<String>,
    pub recache: Option<String>,
    pub default_dir: String,
}

/// A configuration that cannot be completed.
#[derive(Debug, PartialEq)]
pub enum ConfigError {
    /// The file's `cache_type` key holds an unknown backend name.
    InvalidCacheType,
    /// The file selects redis but gives no `redis_url`.
    MissingRedisUrl,
    /// The file selects S3 but gives no `s3_bucket`.
    MissingS3Bucket,
    /// The file selects S3 but gives no `s3_endpoint`.
    MissingS3Endpoint,
}

impl ConfigError {
    /// A one-line human diagnostic for the error.
    pub fn message(&self) -> (r: &'static str)
        ensures
            r@ == self.spec_message(),
    {
        match self {
            ConfigError::InvalidCacheType => "cache_type must be 'disk', 'redis', or 's3'",
            ConfigError::MissingRedisUrl => "missing redis_url for redis cache",
            ConfigError::MissingS3Bucket => "missing s3_bucket in config",
            ConfigError::MissingS3Endpoint => "missing s3_endpoint in config",
        }
    }

    pub open spec fn spec_message(&self) -> Seq<char> {
        match self {
            ConfigError::InvalidCacheType => "cache_type must be 'disk', 'redis', or 's3'"@,
            ConfigError::MissingRedisUrl => "missing redis_url for redis cache"@,
            ConfigError::MissingS3Bucket => "missing s3_bucket in config"@,
            ConfigError::MissingS3Endpoint => "missing s3_endpoint in config"@,
        }
    }
}

/// What the file alone selects as the backend, before the environment is
/// consulted; `Err` stands for a configuration the daemon cannot start with.
pub open spec fn spec_file_cache_type(file: ConfigFile, default_dir: Seq<char>) -> Result<
    CacheTypeV,
    ConfigError,
> {
    match file.cache_type {
        Option::None => Ok(CacheTypeV::Invalid),
        Option::Some(t) => {
            if t@ == "disk"@ {
                Ok(
                    CacheTypeV::Disk {
                        dir: match file.cache_dir {
                            Option::Some(d) => d@,
                            Option::None => default_dir,
                        },
                        size: TEN_GIGS as nat,
                    },
                )
            } else if t@ == "redis"@ {
                match file.redis_url {
                    Option::Some(u) => Ok(CacheTypeV::Redis { url: u@ }),
                    Option::None => Err(ConfigError::MissingRedisUrl),
                }
            } else if t@ == "s3"@ {
                match (file.s3_bucket, file.s3_endpoint) {
                    (Option::Some(b), Option::Some(e)) => Ok(
                        CacheTypeV::S3 { bucket: b@, endpoint: e@ },
                    ),
                    (Option::None, _) => Err(ConfigError::MissingS3Bucket),
                    (Option::Some(_), Option::None) => Err(ConfigError::MissingS3Endpoint),
                }
            } else {
                Err(ConfigError::InvalidCacheType)
            }
        },
    }
}

/// The mathematical image of `CacheType`.
#[verifier::ext_equal]
pub enum CacheTypeV {
    Invalid,
    Disk { dir: Seq<char>, size: nat },
    S3 { bucket: Seq<char>, endpoint: Seq<char> },
    Redis { url: Seq<char> },
}

impl CacheType {
    pub open spec fn view(&self) -> CacheTypeV {
        match self {
            CacheType::Invalid => CacheTypeV::Invalid,
            CacheType::Disk(c) => CacheTypeV::Disk { dir: c.cache_dir@, size: c.cache_size as nat },
            CacheType::S3(c) => CacheTypeV::S3 { bucket: c.bucket@, endpoint: c.endpoint@ },
            CacheType::Redis(c) => CacheTypeV::Redis { url: c.url@ },
        }
    }
}

/// The S3 endpoint the environment variables denote for bucket `b`:
/// an explicit endpoint is joined with the bucket; otherwise the region,
/// when given and not `us-east-1`, picks a regional host; otherwise the
/// plain S3 host.
pub open spec fn spec_s3_endpoint(b: Seq<char>, env: ConfigEnv) -> Seq<char> {
    match env.endpoint {
        Option::Some(e) => e@ + "/"@ + b,
        Option::None => match env.region {
            Option::Some(r) => if r@ != "us-east-1"@ {
                b + ".s3-"@ + r@ + ".amazonaws.com"@
            } else {
                b + ".s3.amazonaws.com"@
            },
            Option::None => b + ".s3.amazonaws.com"@,
        },
    }
}

/// The backend after the environment overrides are applied.
pub open spec fn spec_cache_type(file: ConfigFile, env: ConfigEnv) -> Result<
    CacheTypeV,
    ConfigError,
> {
    match spec_file_cache_type(file, env.default_dir@) {
        Err(e) => Err(e),
        Ok(from_file) => Ok(
            {
                if env.redis is Some {
                    CacheTypeV::Redis { url: env.redis.unwrap()@ }
                } else if env.bucket is Some || env.endpoint is Some || env.region is Some {
                    match env.bucket {
                        Option::Some(b) => CacheTypeV::S3 {
                            bucket: b@,
                            endpoint: spec_s3_endpoint(b@, env),
                        },
                        Option::None => from_file,
                    }
                } else if from_file is Invalid {
                    CacheTypeV::Disk {
                        dir: match env.dir {
                            Option::Some(d) => d@,
                            Option::None => env.default_dir@,
                        },
                        size: TEN_GIGS as nat,
                    }
                } else {
                    from_file
                }
            },
        ),
    }
}

/// The backend with the disk bound applied: a disk backend gets its size
/// from `spec_disk_size`; the others are unchanged.
pub open spec fn spec_final_cache_type(file: ConfigFile, env: ConfigEnv) -> Result<
    CacheTypeV,
    ConfigError,
> {
    match spec_cache_type(file, env) {
        Err(e) => Err(e),
        Ok(ct) => Ok(
            match ct {
                CacheTypeV::Disk { dir, size: _ } => CacheTypeV::Disk {
                    dir,
                    size: spec_disk_size(file, env),
                },
                other => other,
            },
        ),
    }
}

/// The disk bound after the size overrides: the environment wins, then the
/// file, then the default; an unparsable or oversized value is ignored.
pub open spec fn spec_disk_size(file: ConfigFile, env: ConfigEnv) -> nat {
    let from_env = match env.size {
        Option::Some(s) => if spec_parse_size(s@) is Some && spec_parse_size(s@).unwrap()
            <= u64::MAX {
            Some(spec_parse_size(s@).unwrap())
        } else {
            None
        },
        Option::None => None,
    };
    let from_file = match file.cache_size {
        Option::Some(s) => if spec_parse_size(s@) is Some && spec_parse_size(s@).unwrap()
            <= u64::MAX {
            Some(spec_parse_size(s@).unwrap())
        } else {
            None
        },
        Option::None => None,
    };
    match from_env {
        Option::Some(v) => v,
        Option::None => match from_file {
            Option::Some(v) => v,
            Option::None => TEN_GIGS as nat,
        },
    }
}

/// An environment boolean: set and not `"0"` means true.
pub open spec fn spec_env_bool(v: Option<String>) -> Option<bool> {
    match v {
        Option::Some(s) => Some(s@ != "0"@),
        Option::None => None,
    }
}

pub open spec fn spec_flag(env_val: Option<String>, file_val: Option<bool>) -> bool {
    match spec_env_bool(env_val) {
        Option::Some(b) => b,
        Option::None => match file_val {
            Option::Some(b) => b,
            Option::None => false,
        },
    }
}

/// The compiler directory recorded from the file: a trailing dot is added
/// unless the value ends with both a slash and a backslash. No string ends
/// with both, so the dot is appended to every recorded directory; the
/// trailing-separator test is kept exactly as it stands.
pub open spec fn spec_compiler_dir(file: ConfigFile) -> Option<Seq<char>> {
    match file.compiler_dir {
        Option::None => None,
        Option::Some(s) => {
            if !(s@.len() > 0 && s@.last() == '/') || !(s@.len() > 0 && s@.last() == '\\') {
                Some(s@ + "."@)
            } else {
                Some(s@)
            }
        },
    }
}

impl Config {
    /// Build the configuration from the file's keys and the environment,
    /// environment over file over defaults.
    pub fn create(file: &ConfigFile, env: &ConfigEnv) -> (r: Result<Config, ConfigError>)
        ensures
            match r {
                Ok(conf) => {
                    &&& Ok::<CacheTypeV, ConfigError>(conf.cache_type@) == spec_final_cache_type(
                        *file,
                        *env,
                    )
                    &&& conf.no_daemon == spec_flag(env.no_daemon, file.no_daemon)
                    &&& conf.force_recache == spec_flag(env.recache, file.force_recache)
                    &&& conf.msvc_force_z7 == (file.msvc_force_z7 == Some(true))
                    &&& match (conf.compiler_dir, spec_compiler_dir(*file)) {
                        (Option::Some(d), Option::Some(s)) => d@ == s,
                        (Option::None, Option::None) => true,
                        _ => false,
                    }
                },
                Err(e) => spec_final_cache_type(*file, *env) == Err::<CacheTypeV, ConfigError>(e),
            },
    {
        let from_file: CacheType = match &file.cache_type {
            Option::None => CacheType::Invalid,
            Option::Some(t) => {
                if string_is(t, "disk") {
                    let dir = match &file.cache_dir {
                        Option::Some(d) => d.clone(),
                        Option::None => env.default_dir.clone(),
                    };
                    CacheType::Disk(DiskCacheConfig { cache_dir: dir, cache_size: TEN_GIGS })
                } else if string_is(t, "redis") {
                    match &file.redis_url {
                        Option::Some(u) => CacheType::Redis(RedisCacheConfig { url: u.clone() }),
                        Option::None => {
                            return Err(ConfigError::MissingRedisUrl);
                        },
                    }
                } else if string_is(t, "s3") {
                    match (&file.s3_bucket, &file.s3_endpoint) {
                        (Option::Some(b), Option::Some(e)) => CacheType::S3(
                            S3CacheConfig { bucket: b.clone(), endpoint: e.clone() },
                        ),
                        (Option::None, _) => {
                            return Err(ConfigError::MissingS3Bucket);
                        },
                        (Option::Some(_), Option::None) => {
                            return Err(ConfigError::MissingS3Endpoint);
                        },
                    }
                } else {
                    return Err(ConfigError::InvalidCacheType);
                }
            },
        };
        let cache_type: CacheType = if env.redis.is_some() {
            let url = env.redis.as_ref().unwrap().clone();
            CacheType::Redis(RedisCacheConfig { url })
        } else if env.bucket.is_some() || env.endpoint.is_some() || env.region.is_some() {
            match &env.bucket {
                Option::Some(b) => {
                    let endpoint: String = match &env.endpoint {
                        Option::Some(e) => e.clone().concat("/").concat(b.as_str()),
                        Option::None => match &env.region {
                            Option::Some(r) => {
                                if !string_is(r, "us-east-1") {
                                    b.clone().concat(".s3-").concat(r.as_str()).concat(
                                        ".amazonaws.com",
                                    )
                                } else {
                                    b.clone().concat(".s3.amazonaws.com")
                                }
                            },
                            Option::None => b.clone().concat(".s3.amazonaws.com"),
                        },
                    };
                    CacheType::S3(S3CacheConfig { bucket: b.clone(), endpoint })
                },
                Option::None => from_file,
            }
        } else if matches!(from_file, CacheType::Invalid) {
            let dir = match &env.dir {
                Option::Some(d) => d.clone(),
                Option::None => env.default_dir.clone(),
            };
            CacheType::Disk(DiskCacheConfig { cache_dir: dir, cache_size: TEN_GIGS })
        } else {
            from_file
        };
        let cache_type: CacheType = match cache_type {
            CacheType::Disk(c) => {
                let from_env: Option<u64> = match &env.size {
                    Option::Some(s) => parse_size(s.as_str()),
                    Option::None => None,
                };
                let size: u64 = match from_env {
                    Option::Some(v) => v,
                    Option::None => {
                        let from_file_size: Option<u64> = match &file.cache_size {
                            Option::Some(s) => parse_size(s.as_str()),
                            Option::None => None,
                        };
                        match from_file_size {
                            Option::Some(v) => v,
                            Option::None => TEN_GIGS,
                        }
                    },
                };
                CacheType::Disk(DiskCacheConfig { cache_dir: c.cache_dir, cache_size: size })
            },
            other => other,
        };
        let no_daemon = env_flag(&env.no_daemon, &file.no_daemon);
        let force_recache = env_flag(&env.recache, &file.force_recache);
        let msvc_force_z7 = match file.msvc_force_z7 {
            Option::Some(b) => b,
            Option::None => false,
        };
        let compiler_dir: Option<String> = match &file.compiler_dir {
            Option::None => None,
            Option::Some(s) => {
                let ends_slash = ends_with_char(s, '/');
                let ends_backslash = ends_with_char(s, '\\');
                if !ends_slash || !ends_backslash {
                    Some(s.clone().concat("."))
                } else {
                    Some(s.clone())
                }
            },
        };
        Ok(
            Config {
                cache_type,
                no_daemon,
                force_recache,
                msvc_force_z7,
                compiler_dir,
            },
        )
    }
}

/// Whether the string ends with character `c`.
pub fn ends_with_char(s: &String, c: char) -> (r: bool)
    ensures
        r == (s@.len() > 0 && s@.last() == c),
{
    let chars = chars_of(s.as_str());
    if chars.len() == 0 {
        false
    } else {
        chars[chars.len() - 1] == c
    }
}

fn env_flag(env_val: &Option<String>, file_val: &Option<bool>) -> (r: bool)
    ensures
        r == spec_flag(*env_val, *file_val),
{
    match env_val {
        Option::Some(s) => !string_is(s, "0"),
        Option::None => match file_val {
            Option::Some(b) => *b,
            Option::None => false,
        },
    }
}

/// Which storage backend a finished configuration selects; the caller builds
/// the backend itself.
#[derive(Debug, PartialEq)]
pub enum StorageSelection {
    Disk { dir: String, size: u64 },
    Redis { url: String },
    S3 { bucket: String, endpoint: String },
}

/// A configuration whose backend is still `Invalid` cannot select storage.
#[derive(Debug, PartialEq)]
pub enum StorageError {
    UninitializedConfig,
}

/// Map the configuration to the storage backend it names.
pub fn storage_from_config(conf: &Config) -> (r: Result<StorageSelection, StorageError>)
    ensures
        match conf.cache_type {
            CacheType::Invalid => r is Err,
            CacheType::Disk(_) => r matches Ok(StorageSelection::Disk { dir, size })
                && dir@ == conf.cache_type->Disk_0.cache_dir@ && size == conf.cache_type
                ->Disk_0.cache_size,
            CacheType::Redis(_) => r matches Ok(StorageSelection::Redis { url }) && url@
                == conf.cache_type->Redis_0.url@,
            CacheType::S3(_) => r matches Ok(StorageSelection::S3 { bucket, endpoint }) && bucket@
                == conf.cache_type->S3_0.bucket@ && endpoint@ == conf.cache_type->S3_0.endpoint@,
        },
{
    match &conf.cache_type {
        CacheType::Invalid => Err(StorageError::UninitializedConfig),
        CacheType::Disk(c) => Ok(
            StorageSelection::Disk { dir: c.cache_dir.clone(), size: c.cache_size },
        ),
        CacheType::Redis(c) => Ok(StorageSelection::Redis { url: c.url.clone() }),
        CacheType::S3(c) => Ok(
            StorageSelection::S3 { bucket: c.bucket.clone(), endpoint: c.endpoint.clone() },
        ),
    }
}

/// The storage used when the selected backend cannot be built: a disk cache
/// in the default directory with the default bound.
pub fn fallback_storage(default_dir: String) -> (r: StorageSelection)
    ensures
        r matches StorageSelection::Disk { dir, size } && dir@ == default_dir@ && size == TEN_GIGS,
{
    StorageSelection::Disk { dir: default_dir, size: TEN_GIGS }
}

} // verus!

verus! {

/// The verbosity levels the log-level option recognizes.
#[derive(Debug, PartialEq)]
pub enum LogLevel {
    Off,
    Error,
    Warn,
    Info,
    Debug,
    Trace,
}

/// The level a log-level option value names, lower case; an unknown name
/// is rejected, which the daemon treats as fatal.
pub fn parse_log_level(s: &String) -> (r: Option<LogLevel>)
    ensures
        s@ == "off"@ ==> (r matches Some(l) && l is Off),
        s@ == "error"@ ==> (r matches Some(l) && l is Error),
        s@ == "warn"@ ==> (r matches Some(l) && l is Warn),
        s@ == "info"@ ==> (r matches Some(l) && l is Info),
        s@ == "debug"@ ==> (r matches Some(l) && l is Debug),
        s@ == "trace"@ ==> (r matches Some(l) && l is Trace),
        (s@ != "off"@ && s@ != "error"@ && s@ != "warn"@ && s@ != "info"@ && s@ != "debug"@ && s@
            != "trace"@) ==> r is None,
{
    proof {
        vstd::prelude::reveal_strlit("off");
        vstd::prelude::reveal_strlit("error");
        vstd::prelude::reveal_strlit("warn");
        vstd::prelude::reveal_strlit("info");
        vstd::prelude::reveal_strlit("debug");
        vstd::prelude::reveal_strlit("trace");
        assert("off"@[0] == 'o' && "error"@[0] == 'e' && "warn"@[0] == 'w' && "info"@[0] == 'i'
            && "debug"@[0] == 'd' && "trace"@[0] == 't');
    }
    if string_is(s, "off") {
        Some(LogLevel::Off)
    } else if string_is(s, "error") {
        Some(LogLevel::Error)
    } else if string_is(s, "warn") {
        Some(LogLevel::Warn)
    } else if string_is(s, "info") {
        Some(LogLevel::Info)
    } else if string_is(s, "debug") {
        Some(LogLevel::Debug)
    } else if string_is(s, "trace") {
        Some(LogLevel::Trace)
    } else {
        None
    }
}

} // verus!
