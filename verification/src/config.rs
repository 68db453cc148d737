//! Runtime configuration (`turbine.toml`): sections, their defaults, and
//! the consistency check that reports errors and warnings.
use vstd::prelude::*;

verus! {

/// The views of a sequence of strings.
pub open spec fn str_views(v: Seq<String>) -> Seq<Seq<char>> {
    v.map_values(|s: String| s@)
}

/// Response cache TTL in seconds.
pub fn default_cache_ttl() -> (r: u64)
    ensures
        r == 30,
{
    30
}

/// Response cache capacity.
pub fn default_cache_max_entries() -> (r: usize)
    ensures
        r == 1024,
{
    1024
}

/// Smallest body, in bytes, that is compressed.
pub fn default_compression_min_size() -> (r: usize)
    ensures
        r == 1024,
{
    1024
}

/// Compression level.
pub fn default_compression_level() -> (r: u32)
    ensures
        r == 6,
{
    6
}

/// Session garbage-collection lifetime in seconds.
pub fn default_session_gc_maxlifetime() -> (r: u64)
    ensures
        r == 1440,
{
    1440
}

/// CORS preflight max-age in seconds.
pub fn default_cors_max_age() -> (r: u64)
    ensures
        r == 86400,
{
    86400
}

/// Requests per second per IP; 0 disables rate limiting.
pub fn default_rate_limit_rps() -> (r: u32)
    ensures
        r == 0,
{
    0
}

/// Rate-limit window in seconds.
pub fn default_rate_limit_window() -> (r: u64)
    ensures
        r == 60,
{
    60
}

/// Injection-filter paranoia level.
pub fn default_paranoia_level() -> (r: u8)
    ensures
        r == 1,
{
    1
}

/// SQL injection attempts before an IP is blocked.
pub fn default_sqli_block_threshold() -> (r: u32)
    ensures
        r == 3,
{
    3
}

/// The value `true`, for flags that default to on.
pub fn default_true() -> (r: bool)
    ensures
        r == true,
{
    true
}

/// Request timeout in seconds.
pub fn default_request_timeout() -> (r: u64)
    ensures
        r == 30,
{
    30
}

/// Requests a worker serves before it is respawned.
pub fn default_worker_max_requests() -> (r: u64)
    ensures
        r == 10000,
{
    10000
}

/// Internal channel capacity.
pub fn default_channel_capacity() -> (r: usize)
    ensures
        r == 64,
{
    64
}

/// PHP max_execution_time in seconds.
pub fn default_max_execution_time() -> (r: u64)
    ensures
        r == 30,
{
    30
}

/// OPcache memory in MB.
pub fn default_opcache_memory() -> (r: usize)
    ensures
        r == 128,
{
    128
}

/// Fewest workers when auto-scaling.
pub fn default_min_workers() -> (r: usize)
    ensures
        r == 1,
{
    1
}

/// Seconds an idle excess worker survives.
pub fn default_scale_down_idle() -> (r: u64)
    ensures
        r == 5,
{
    5
}

/// File watcher debounce in milliseconds.
pub fn default_watch_debounce_ms() -> (r: u64)
    ensures
        r == 500,
{
    500
}

/// Most workers of a route pool.
pub fn default_pool_max_workers() -> (r: usize)
    ensures
        r == 4,
{
    4
}

/// Destination of structured PHP logs.
pub fn default_structured_log_output() -> (r: String)
    ensures
        r@ == "stderr"@,
{
    "stderr".to_string()
}

/// Directory for ACME certificates and keys.
pub fn default_acme_cache_dir() -> (r: String)
    ensures
        r@ == "/var/lib/turbine/acme"@,
{
    "/var/lib/turbine/acme".to_string()
}

/// Directory for file-based sessions.
pub fn default_session_save_path() -> (r: String)
    ensures
        r@ == "/tmp/turbine-sessions"@,
{
    "/tmp/turbine-sessions".to_string()
}

/// Session cookie name.
pub fn default_session_cookie_name() -> (r: String)
    ensures
        r@ == "PHPSESSID"@,
{
    "PHPSESSID".to_string()
}

/// Session cookie SameSite attribute.
pub fn default_session_samesite() -> (r: String)
    ensures
        r@ == "Lax"@,
{
    "Lax".to_string()
}

/// Listen address.
pub fn default_listen() -> (r: String)
    ensures
        r@ == "127.0.0.1:9000"@,
{
    "127.0.0.1:9000".to_string()
}

/// Worker backend mode.
pub fn default_worker_mode() -> (r: String)
    ensures
        r@ == "process"@,
{
    "process".to_string()
}

/// Log level.
pub fn default_log_level() -> (r: String)
    ensures
        r@ == "info"@,
{
    "info".to_string()
}

/// PHP memory_limit.
pub fn default_memory_limit() -> (r: String)
    ensures
        r@ == "256M"@,
{
    "256M".to_string()
}

/// PHP upload_max_filesize.
pub fn default_upload_max_filesize() -> (r: String)
    ensures
        r@ == "64M"@,
{
    "64M".to_string()
}

/// PHP post_max_size.
pub fn default_post_max_size() -> (r: String)
    ensures
        r@ == "64M"@,
{
    "64M".to_string()
}

/// JIT buffer size.
pub fn default_jit_buffer_size() -> (r: String)
    ensures
        r@ == "64M"@,
{
    "64M".to_string()
}

/// Temporary directory for uploads.
pub fn default_upload_tmp_dir() -> (r: String)
    ensures
        r@ == "/tmp/turbine-uploads"@,
{
    "/tmp/turbine-uploads".to_string()
}

/// Sandbox execution mode.
pub fn default_execution_mode() -> (r: String)
    ensures
        r@ == "framework"@,
{
    "framework".to_string()
}

/// Allowed CORS methods.
pub fn default_cors_methods() -> (r: Vec<String>)
    ensures
        str_views(r@) == seq!["GET"@, "POST"@, "PUT"@, "DELETE"@, "PATCH"@, "OPTIONS"@],
{
    let mut r: Vec<String> = Vec::new();
    r.push("GET".to_string());
    r.push("POST".to_string());
    r.push("PUT".to_string());
    r.push("DELETE".to_string());
    r.push("PATCH".to_string());
    r.push("OPTIONS".to_string());
    assert(str_views(r@) =~= seq!["GET"@, "POST"@, "PUT"@, "DELETE"@, "PATCH"@, "OPTIONS"@]);
    r
}

/// Allowed CORS request headers.
pub fn default_cors_headers() -> (r: Vec<String>)
    ensures
        str_views(r@) == seq!["Content-Type"@, "Authorization"@, "X-Requested-With"@],
{
    let mut r: Vec<String> = Vec::new();
    r.push("Content-Type".to_string());
    r.push("Authorization".to_string());
    r.push("X-Requested-With".to_string());
    assert(str_views(r@) =~= seq!["Content-Type"@, "Authorization"@, "X-Requested-With"@]);
    r
}

/// Compression algorithms in order of preference.
pub fn default_compression_algorithms() -> (r: Vec<String>)
    ensures
        str_views(r@) == seq!["br"@, "zstd"@, "gzip"@],
{
    let mut r: Vec<String> = Vec::new();
    r.push("br".to_string());
    r.push("zstd".to_string());
    r.push("gzip".to_string());
    assert(str_views(r@) =~= seq!["br"@, "zstd"@, "gzip"@]);
    r
}

/// Directories the file watcher observes.
pub fn default_watch_paths() -> (r: Vec<String>)
    ensures
        str_views(r@) == seq!["app/"@, "config/"@, "routes/"@, "src/"@, "public/"@],
{
    let mut r: Vec<String> = Vec::new();
    r.push("app/".to_string());
    r.push("config/".to_string());
    r.push("routes/".to_string());
    r.push("src/".to_string());
    r.push("public/".to_string());
    assert(str_views(r@) =~= seq!["app/"@, "config/"@, "routes/"@, "src/"@, "public/"@]);
    r
}

/// File extensions the file watcher observes.
pub fn default_watch_extensions() -> (r: Vec<String>)
    ensures
        str_views(r@) == seq!["php"@, "env"@],
{
    let mut r: Vec<String> = Vec::new();
    r.push("php".to_string());
    r.push("env".to_string());
    assert(str_views(r@) =~= seq!["php"@, "env"@]);
    r
}

/// PHP files allowed to execute (empty: no explicit whitelist).
pub fn default_execution_whitelist() -> (r: Vec<String>)
    ensures
        str_views(r@) == Seq::<Seq<char>>::empty(),
{
    let mut r: Vec<String> = Vec::new();
    assert(str_views(r@) =~= Seq::<Seq<char>>::empty());
    r
}

/// Directories where PHP may write but never execute.
pub fn default_data_directories() -> (r: Vec<String>)
    ensures
        str_views(r@) == seq!["storage/"@, "uploads/"@, "public/uploads/"@],
{
    let mut r: Vec<String> = Vec::new();
    r.push("storage/".to_string());
    r.push("uploads/".to_string());
    r.push("public/uploads/".to_string());
    assert(str_views(r@) =~= seq!["storage/"@, "uploads/"@, "public/uploads/"@]);
    r
}

/// Upload extensions that are refused.
pub fn default_blocked_upload_extensions() -> (r: Vec<String>)
    ensures
        str_views(r@) == seq![".php"@, ".phtml"@, ".phar"@, ".php7"@, ".php8"@, ".inc"@, ".phps"@, ".pht"@, ".pgif"@],
{
    let mut r: Vec<String> = Vec::new();
    r.push(".php".to_string());
    r.push(".phtml".to_string());
    r.push(".phar".to_string());
    r.push(".php7".to_string());
    r.push(".php8".to_string());
    r.push(".inc".to_string());
    r.push(".phps".to_string());
    r.push(".pht".to_string());
    r.push(".pgif".to_string());
    assert(str_views(r@) =~= seq![".php"@, ".phtml"@, ".phar"@, ".php7"@, ".php8"@, ".inc"@, ".phps"@, ".pht"@, ".pgif"@]);
    r
}

/// PHP functions that are disabled.
pub fn default_disabled_functions() -> (r: Vec<String>)
    ensures
        str_views(r@) == seq!["exec"@, "system"@, "passthru"@, "shell_exec"@, "proc_open"@, "popen"@, "pcntl_exec"@, "dl"@, "putenv"@],
{
    let mut r: Vec<String> = Vec::new();
    r.push("exec".to_string());
    r.push("system".to_string());
    r.push("passthru".to_string());
    r.push("shell_exec".to_string());
    r.push("proc_open".to_string());
    r.push("popen".to_string());
    r.push("pcntl_exec".to_string());
    r.push("dl".to_string());
    r.push("putenv".to_string());
    assert(str_views(r@) =~= seq!["exec"@, "system"@, "passthru"@, "shell_exec"@, "proc_open"@, "popen"@, "pcntl_exec"@, "dl"@, "putenv"@]);
    r
}

/// Worker count used when the number of CPUs is unknown.
pub fn default_workers_for(cpus: Option<usize>) -> (r: usize)
    ensures
        r == match cpus {
            Some(n) => n,
            None => 4usize,
        },
{
    match cpus {
        Some(n) => n,
        None => 4,
    }
}

/// Auto-scaling worker ceiling: twice the CPUs, or 8 when unknown.
pub fn default_max_workers_for(cpus: Option<usize>) -> (r: usize)
    ensures
        r == match cpus {
            Some(n) => if n <= usize::MAX / 2 { (n * 2) as usize } else { usize::MAX },
            None => 8usize,
        },
{
    match cpus {
        Some(n) => if n <= usize::MAX / 2 { n * 2 } else { usize::MAX },
        None => 8,
    }
}

/// `[server]`.
pub struct ServerConfig {
    pub workers: usize,
    pub listen: String,
    /// Worker backend mode: "process" or "thread".
    pub worker_mode: String,
    /// Request execution timeout in seconds (0 = no timeout).
    pub request_timeout: u64,
    /// Maximum PHP requests per worker before respawn.
    pub worker_max_requests: u64,
    /// Internal channel capacity for single-process mode.
    pub channel_capacity: usize,
    pub pid_file: Option<String>,
    pub tls: TlsConfig,
    /// Seconds a request may wait for a free worker (0 = request_timeout).
    pub max_wait_time: u64,
    pub auto_scale: bool,
    pub min_workers: usize,
    pub max_workers: usize,
    pub scale_down_idle_secs: u64,
    pub persistent_workers: Option<bool>,
    pub worker_boot: Option<String>,
    pub worker_handler: Option<String>,
    pub worker_cleanup: Option<String>,
    pub tokio_worker_threads: Option<usize>,
    pub pin_workers: bool,
    pub listen_busy_poll_us: Option<u32>,
    pub listen_reuseport_shards: Option<usize>,
}

impl ServerConfig {
    /// Defaults for a machine with `cpus` CPUs (unknown: `None`).
    pub fn default_for_cpus(cpus: Option<usize>) -> (r: Self)
        ensures
            r.workers == default_workers_for_spec(cpus),
            r.max_workers == default_max_workers_for_spec(cpus),
            r.listen@ == "127.0.0.1:9000"@,
            r.worker_mode@ == "process"@,
            r.request_timeout == 30,
            r.worker_max_requests == 10000,
            r.channel_capacity == 64,
            r.pid_file is None,
            r.tls == TlsConfig::spec_default(),
            r.max_wait_time == 0,
            !r.auto_scale,
            r.min_workers == 1,
            r.scale_down_idle_secs == 5,
            r.persistent_workers is None,
            r.worker_boot is None,
            r.worker_handler is None,
            r.worker_cleanup is None,
            r.tokio_worker_threads is None,
            !r.pin_workers,
            r.listen_busy_poll_us is None,
            r.listen_reuseport_shards is None,
    {
        ServerConfig {
            workers: default_workers_for(cpus),
            listen: default_listen(),
            worker_mode: default_worker_mode(),
            request_timeout: default_request_timeout(),
            worker_max_requests: default_worker_max_requests(),
            channel_capacity: default_channel_capacity(),
            pid_file: None,
            tls: TlsConfig::default(),
            max_wait_time: 0,
            auto_scale: false,
            min_workers: default_min_workers(),
            max_workers: default_max_workers_for(cpus),
            scale_down_idle_secs: default_scale_down_idle(),
            persistent_workers: None,
            worker_boot: None,
            worker_handler: None,
            worker_cleanup: None,
            tokio_worker_threads: None,
            pin_workers: false,
            listen_busy_poll_us: None,
            listen_reuseport_shards: None,
        }
    }
}

/// `default_workers_for`, as a spec function.
pub open spec fn default_workers_for_spec(cpus: Option<usize>) -> usize {
    match cpus {
        Some(n) => n,
        None => 4usize,
    }
}

/// `default_max_workers_for`, as a spec function.
pub open spec fn default_max_workers_for_spec(cpus: Option<usize>) -> usize {
    match cpus {
        Some(n) => if n <= usize::MAX / 2 { (n * 2) as usize } else { usize::MAX },
        None => 8usize,
    }
}

impl Default for ServerConfig {
    /// Defaults with the CPU count unknown (4 workers, 8 at most).
    fn default() -> (r: Self)
        ensures
            r.workers == 4,
            r.max_workers == 8,
            r.listen@ == "127.0.0.1:9000"@,
            r.worker_mode@ == "process"@,
            r.request_timeout == 30,
            r.worker_max_requests == 10000,
            r.channel_capacity == 64,
            r.pid_file is None,
            r.tls == TlsConfig::spec_default(),
            r.max_wait_time == 0,
            !r.auto_scale,
            r.min_workers == 1,
            r.scale_down_idle_secs == 5,
            r.persistent_workers is None,
            r.worker_boot is None,
            r.worker_handler is None,
            r.worker_cleanup is None,
            r.tokio_worker_threads is None,
            !r.pin_workers,
            r.listen_busy_poll_us is None,
            r.listen_reuseport_shards is None,
    {
        ServerConfig::default_for_cpus(None)
    }
}

/// `[server.tls]`.
#[derive(Clone)]
pub struct TlsConfig {
    /// Enable TLS (HTTPS). Requires cert_file and key_file.
    pub enabled: bool,
    /// Path to the PEM certificate chain.
    pub cert_file: Option<String>,
    /// Path to the PEM private key.
    pub key_file: Option<String>,
}

impl TlsConfig {
    /// TLS disabled, no files.
    pub open spec fn spec_default() -> TlsConfig {
        TlsConfig { enabled: false, cert_file: None, key_file: None }
    }
}

impl Default for TlsConfig {
    fn default() -> (r: Self)
        ensures
            r == TlsConfig::spec_default(),
    {
        TlsConfig { enabled: false, cert_file: None, key_file: None }
    }
}

/// `[php]`.
pub struct PhpConfig {
    pub extension_dir: Option<String>,
    /// PHP extensions to load.
    pub extensions: Vec<String>,
    /// Zend extensions to load.
    pub zend_extensions: Vec<String>,
    pub memory_limit: String,
    pub max_execution_time: u64,
    pub upload_max_filesize: String,
    pub post_max_size: String,
    /// OPcache memory in MB.
    pub opcache_memory: usize,
    pub jit_buffer_size: String,
    pub upload_tmp_dir: String,
    pub preload_script: Option<String>,
    pub opcache_validate_timestamps: Option<bool>,
    /// Extra php.ini directives (key, value).
    pub ini: Vec<(String, String)>,
}

impl Default for PhpConfig {
    fn default() -> (r: Self)
        ensures
            r.extension_dir is None,
            r.extensions@.len() == 0,
            r.zend_extensions@.len() == 0,
            r.memory_limit@ == "256M"@,
            r.max_execution_time == 30,
            r.upload_max_filesize@ == "64M"@,
            r.post_max_size@ == "64M"@,
            r.opcache_memory == 128,
            r.jit_buffer_size@ == "64M"@,
            r.upload_tmp_dir@ == "/tmp/turbine-uploads"@,
            r.preload_script is None,
            r.opcache_validate_timestamps is None,
            r.ini@.len() == 0,
    {
        PhpConfig {
            extension_dir: None,
            extensions: Vec::new(),
            zend_extensions: Vec::new(),
            memory_limit: default_memory_limit(),
            max_execution_time: default_max_execution_time(),
            upload_max_filesize: default_upload_max_filesize(),
            post_max_size: default_post_max_size(),
            opcache_memory: default_opcache_memory(),
            jit_buffer_size: default_jit_buffer_size(),
            upload_tmp_dir: default_upload_tmp_dir(),
            preload_script: None,
            opcache_validate_timestamps: None,
            ini: Vec::new(),
        }
    }
}

/// `[security]`.
pub struct SecurityConfig {
    pub enabled: bool,
    pub sql_guard: bool,
    pub path_traversal_guard: bool,
    pub code_injection_guard: bool,
    pub behaviour_guard: bool,
    /// Injection-filter paranoia level (0 to 3).
    pub paranoia_level: u8,
    /// URL path prefixes excluded from injection scanning.
    pub exclude_paths: Vec<String>,
    /// Requests per second per IP; 0 disables rate limiting.
    pub max_requests_per_second: u32,
    pub rate_limit_window: u64,
    pub sqli_block_threshold: u32,
}

impl Default for SecurityConfig {
    fn default() -> (r: Self)
        ensures
            r.enabled && r.sql_guard && r.path_traversal_guard && r.code_injection_guard
                && r.behaviour_guard,
            r.paranoia_level == 1,
            r.exclude_paths@.len() == 0,
            r.max_requests_per_second == 0,
            r.rate_limit_window == 60,
            r.sqli_block_threshold == 3,
    {
        SecurityConfig {
            enabled: true,
            sql_guard: true,
            path_traversal_guard: true,
            code_injection_guard: true,
            behaviour_guard: true,
            paranoia_level: default_paranoia_level(),
            exclude_paths: Vec::new(),
            max_requests_per_second: default_rate_limit_rps(),
            rate_limit_window: default_rate_limit_window(),
            sqli_block_threshold: default_sqli_block_threshold(),
        }
    }
}

/// `[sandbox]`.
pub struct SandboxConfig {
    pub seccomp: bool,
    /// "strict" (only the whitelist) or "framework".
    pub execution_mode: String,
    pub front_controller: Option<bool>,
    pub execution_whitelist: Vec<String>,
    pub data_directories: Vec<String>,
    pub blocked_upload_extensions: Vec<String>,
    pub scan_upload_content: bool,
    pub disabled_functions: Vec<String>,
    pub enforce_open_basedir: bool,
    pub block_url_include: bool,
    pub block_url_fopen: bool,
}

impl Default for SandboxConfig {
    fn default() -> (r: Self)
        ensures
            r.seccomp,
            r.execution_mode@ == "framework"@,
            r.front_controller is None,
            r.execution_whitelist@.len() == 0,
            str_views(r.data_directories@) == seq!["storage/"@, "uploads/"@, "public/uploads/"@],
            str_views(r.blocked_upload_extensions@) == seq![".php"@, ".phtml"@, ".phar"@, ".php7"@, ".php8"@, ".inc"@, ".phps"@, ".pht"@, ".pgif"@],
            r.scan_upload_content,
            str_views(r.disabled_functions@) == seq!["exec"@, "system"@, "passthru"@, "shell_exec"@, "proc_open"@, "popen"@, "pcntl_exec"@, "dl"@, "putenv"@],
            r.enforce_open_basedir && r.block_url_include && r.block_url_fopen,
    {
        let w = default_execution_whitelist();
        assert(w@.len() == 0) by { assert(str_views(w@).len() == w@.len()); }
        SandboxConfig {
            seccomp: true,
            execution_mode: default_execution_mode(),
            front_controller: None,
            execution_whitelist: w,
            data_directories: default_data_directories(),
            blocked_upload_extensions: default_blocked_upload_extensions(),
            scan_upload_content: true,
            disabled_functions: default_disabled_functions(),
            enforce_open_basedir: true,
            block_url_include: true,
            block_url_fopen: true,
        }
    }
}

/// `[logging]`.
pub struct LoggingConfig {
    pub level: String,
    /// Access log file (None = disabled).
    pub access_log: Option<String>,
}

impl Default for LoggingConfig {
    fn default() -> (r: Self)
        ensures
            r.level@ == "info"@,
            r.access_log is None,
    {
        LoggingConfig { level: default_log_level(), access_log: None }
    }
}

/// `[cache]`.
pub struct CacheTomlConfig {
    pub enabled: bool,
    pub ttl_seconds: u64,
    pub max_entries: usize,
}

impl Default for CacheTomlConfig {
    fn default() -> (r: Self)
        ensures
            r.enabled,
            r.ttl_seconds == 30,
            r.max_entries == 1024,
    {
        CacheTomlConfig {
            enabled: true,
            ttl_seconds: default_cache_ttl(),
            max_entries: default_cache_max_entries(),
        }
    }
}

/// `[early_hints]`: 103 Early Hints support.
#[derive(Clone)]
pub struct EarlyHintsConfig {
    pub enabled: bool,
}

impl Default for EarlyHintsConfig {
    fn default() -> (r: Self)
        ensures
            r.enabled,
    {
        EarlyHintsConfig { enabled: true }
    }
}

/// `[x_sendfile]`: X-Sendfile / X-Accel-Redirect support.
#[derive(Clone)]
pub struct XSendfileConfig {
    pub enabled: bool,
    /// Base directory for X-Accel-Redirect paths.
    pub root: Option<String>,
}

impl Default for XSendfileConfig {
    fn default() -> (r: Self)
        ensures
            !r.enabled,
            r.root is None,
    {
        XSendfileConfig { enabled: false, root: None }
    }
}

/// `[structured_logging]`: `turbine_log()` from PHP.
#[derive(Clone)]
pub struct StructuredLoggingConfig {
    pub enabled: bool,
    /// "stdout", "stderr", or a file path.
    pub output: String,
}

impl Default for StructuredLoggingConfig {
    fn default() -> (r: Self)
        ensures
            r.enabled,
            r.output@ == "stderr"@,
    {
        StructuredLoggingConfig { enabled: true, output: default_structured_log_output() }
    }
}

/// `[acme]`: automatic TLS through ACME.
#[derive(Clone)]
pub struct AcmeConfig {
    pub enabled: bool,
    pub domains: Vec<String>,
    pub email: Option<String>,
    pub cache_dir: String,
    /// Use the staging server.
    pub staging: bool,
}

impl Default for AcmeConfig {
    fn default() -> (r: Self)
        ensures
            !r.enabled,
            r.domains@.len() == 0,
            r.email is None,
            r.cache_dir@ == "/var/lib/turbine/acme"@,
            !r.staging,
    {
        AcmeConfig {
            enabled: false,
            domains: Vec::new(),
            email: None,
            cache_dir: default_acme_cache_dir(),
            staging: false,
        }
    }
}

/// `[embed]`: serve a PHP application packed into the binary.
#[derive(Clone)]
pub struct EmbedConfig {
    pub enabled: bool,
    /// Where the embedded files are extracted (temporary directory if None).
    pub extract_dir: Option<String>,
}

impl Default for EmbedConfig {
    fn default() -> (r: Self)
        ensures
            !r.enabled,
            r.extract_dir is None,
    {
        EmbedConfig { enabled: false, extract_dir: None }
    }
}

/// `[dashboard]`: dashboard, metrics and internal endpoints.
#[derive(Clone)]
pub struct DashboardConfig {
    pub enabled: bool,
    pub statistics: bool,
    /// Bearer token for internal endpoints (None = no auth).
    pub token: Option<String>,
}

impl Default for DashboardConfig {
    fn default() -> (r: Self)
        ensures
            r.enabled,
            r.statistics,
            r.token is None,
    {
        DashboardConfig { enabled: true, statistics: true, token: None }
    }
}

/// `[[worker_pools]]`: a route served by a dedicated worker pool.
#[derive(Clone)]
pub struct WorkerPoolRouteConfig {
    /// Path pattern, such as "/api/slow/*".
    pub match_path: String,
    pub min_workers: usize,
    pub max_workers: usize,
    pub name: Option<String>,
}

/// `[[virtual_hosts]]`: one PHP application per domain.
#[derive(Clone)]
pub struct VirtualHostConfig {
    pub domain: String,
    pub root: String,
    pub aliases: Vec<String>,
    pub entry_point: Option<String>,
    pub tls_cert: Option<String>,
    pub tls_key: Option<String>,
}

/// `[compression]`.
pub struct CompressionConfig {
    pub enabled: bool,
    /// Smallest body, in bytes, that is compressed.
    pub min_size: usize,
    /// Compression level (1-9).
    pub level: u32,
    /// Algorithms in order of preference: "br", "zstd", "gzip".
    pub algorithms: Vec<String>,
}

impl Default for CompressionConfig {
    fn default() -> (r: Self)
        ensures
            r.enabled,
            r.min_size == 1024,
            r.level == 6,
            str_views(r.algorithms@) == seq!["br"@, "zstd"@, "gzip"@],
    {
        CompressionConfig {
            enabled: true,
            min_size: default_compression_min_size(),
            level: default_compression_level(),
            algorithms: default_compression_algorithms(),
        }
    }
}

/// `[error_pages]`.
pub struct ErrorPagesConfig {
    pub not_found: Option<String>,
    pub server_error: Option<String>,
}

impl Default for ErrorPagesConfig {
    fn default() -> (r: Self)
        ensures
            r.not_found is None,
            r.server_error is None,
    {
        ErrorPagesConfig { not_found: None, server_error: None }
    }
}

/// `[session]`.
pub struct SessionConfig {
    pub enabled: bool,
    pub save_path: String,
    pub cookie_name: String,
    /// Cookie lifetime (0 = until the browser closes).
    pub cookie_lifetime: u64,
    pub cookie_httponly: bool,
    pub cookie_secure: bool,
    pub cookie_samesite: String,
    pub gc_maxlifetime: u64,
    pub auto_start: bool,
}

impl Default for SessionConfig {
    fn default() -> (r: Self)
        ensures
            r.enabled,
            r.save_path@ == "/tmp/turbine-sessions"@,
            r.cookie_name@ == "PHPSESSID"@,
            r.cookie_lifetime == 0,
            r.cookie_httponly,
            !r.cookie_secure,
            r.cookie_samesite@ == "Lax"@,
            r.gc_maxlifetime == 1440,
            !r.auto_start,
    {
        SessionConfig {
            enabled: true,
            save_path: default_session_save_path(),
            cookie_name: default_session_cookie_name(),
            cookie_lifetime: 0,
            cookie_httponly: true,
            cookie_secure: false,
            cookie_samesite: default_session_samesite(),
            gc_maxlifetime: default_session_gc_maxlifetime(),
            auto_start: false,
        }
    }
}

/// `[cors]`.
#[derive(Clone)]
pub struct CorsConfig {
    pub enabled: bool,
    /// Allowed origins; "*" allows any.
    pub allow_origins: Vec<String>,
    pub allow_credentials: bool,
    pub allow_methods: Vec<String>,
    pub allow_headers: Vec<String>,
    pub expose_headers: Vec<String>,
    /// Preflight max-age in seconds.
    pub max_age: u64,
}

impl Default for CorsConfig {
    fn default() -> (r: Self)
        ensures
            !r.enabled,
            r.allow_origins@.len() == 0,
            !r.allow_credentials,
            str_views(r.allow_methods@) == seq!["GET"@, "POST"@, "PUT"@, "DELETE"@, "PATCH"@, "OPTIONS"@],
            str_views(r.allow_headers@) == seq!["Content-Type"@, "Authorization"@, "X-Requested-With"@],
            r.expose_headers@.len() == 0,
            r.max_age == 86400,
    {
        CorsConfig {
            enabled: false,
            allow_origins: Vec::new(),
            allow_credentials: false,
            allow_methods: default_cors_methods(),
            allow_headers: default_cors_headers(),
            expose_headers: Vec::new(),
            max_age: default_cors_max_age(),
        }
    }
}

/// `[watcher]`: restart workers when PHP files change.
#[derive(Clone)]
pub struct WatcherConfig {
    pub enabled: bool,
    pub paths: Vec<String>,
    pub extensions: Vec<String>,
    pub debounce_ms: u64,
}

impl Default for WatcherConfig {
    fn default() -> (r: Self)
        ensures
            !r.enabled,
            str_views(r.paths@) == seq!["app/"@, "config/"@, "routes/"@, "src/"@, "public/"@],
            str_views(r.extensions@) == seq!["php"@, "env"@],
            r.debounce_ms == 500,
    {
        WatcherConfig {
            enabled: false,
            paths: default_watch_paths(),
            extensions: default_watch_extensions(),
            debounce_ms: default_watch_debounce_ms(),
        }
    }
}

/// The whole `turbine.toml`.
pub struct RuntimeConfig {
    pub server: ServerConfig,
    pub php: PhpConfig,
    pub security: SecurityConfig,
    pub sandbox: SandboxConfig,
    pub cache: CacheTomlConfig,
    pub logging: LoggingConfig,
    pub compression: CompressionConfig,
    pub error_pages: ErrorPagesConfig,
    pub session: SessionConfig,
    pub cors: CorsConfig,
    pub watcher: WatcherConfig,
    pub early_hints: EarlyHintsConfig,
    pub x_sendfile: XSendfileConfig,
    pub structured_logging: StructuredLoggingConfig,
    pub acme: AcmeConfig,
    pub embed: EmbedConfig,
    pub dashboard: DashboardConfig,
    pub worker_pools: Vec<WorkerPoolRouteConfig>,
    pub virtual_hosts: Vec<VirtualHostConfig>,
}

impl Default for RuntimeConfig {
    /// Every section at its defaults; no pools, no virtual hosts.
    fn default() -> (r: Self)
        ensures
            r.server.worker_mode@ == "process"@,
            r.server.listen@ == "127.0.0.1:9000"@,
            r.server.workers == 4,
            r.server.request_timeout == 30,
            r.server.worker_max_requests == 10000,
            r.server.persistent_workers is None,
            r.server.tls == TlsConfig::spec_default(),
            r.sandbox.execution_mode@ == "framework"@,
            r.sandbox.execution_whitelist@.len() == 0,
            r.security.enabled && r.security.sql_guard && r.security.code_injection_guard
                && r.security.behaviour_guard,
            r.cache.enabled && r.cache.ttl_seconds == 30,
            r.compression.enabled && r.compression.level == 6,
            r.session.cookie_samesite@ == "Lax"@,
            !r.cors.enabled && r.cors.allow_origins@.len() == 0,
            !r.watcher.enabled,
            !r.acme.enabled && r.acme.domains@.len() == 0,
            r.logging.level@ == "info"@,
            r.worker_pools@.len() == 0,
            r.virtual_hosts@.len() == 0,
    {
        RuntimeConfig {
            server: ServerConfig::default(),
            php: PhpConfig::default(),
            security: SecurityConfig::default(),
            sandbox: SandboxConfig::default(),
            cache: CacheTomlConfig::default(),
            logging: LoggingConfig::default(),
            compression: CompressionConfig::default(),
            error_pages: ErrorPagesConfig::default(),
            session: SessionConfig::default(),
            cors: CorsConfig::default(),
            watcher: WatcherConfig::default(),
            early_hints: EarlyHintsConfig::default(),
            x_sendfile: XSendfileConfig::default(),
            structured_logging: StructuredLoggingConfig::default(),
            acme: AcmeConfig::default(),
            embed: EmbedConfig::default(),
            dashboard: DashboardConfig::default(),
            worker_pools: Vec::new(),
            virtual_hosts: Vec::new(),
        }
    }
}


/// The `turbine.toml` template written by `turbine init`.
pub const CONFIG_TEMPLATE: &'static str = r#"# Turbine Runtime Configuration
# https://github.com/turbine-php/turbine

[server]
# Number of worker processes (0 = auto-detect CPU cores)
workers = 4
# Listen address
listen = "127.0.0.1:8080"
# TCP connection read/write timeout in seconds
connection_timeout = 30
# Request execution timeout in seconds (0 = no timeout)
request_timeout = 30
# Maximum time (seconds) a request waits for a free worker (0 = uses request_timeout)
# max_wait_time = 5
# Shared memory size in MB
shm_size_mb = 128
# Maximum PHP requests per worker before respawn
worker_max_requests = 10000
# Internal channel capacity (single-process mode)
channel_capacity = 64
# PID file path (comment out to disable)
# pid_file = "/var/run/turbine.pid"
# Auto-scaling: dynamically add/remove workers based on load
auto_scale = false
# min_workers = 1
# max_workers = 16
# scale_down_idle_secs = 5
[server.tls]
# Enable TLS (HTTPS + HTTP/2)
enabled = false
# Path to PEM certificate chain
# cert_file = "/path/to/cert.pem"
# Path to PEM private key
# key_file = "/path/to/key.pem"

[php]
# extension_dir = "/path/to/extensions"
# PHP extensions to load (shared .so)
# extensions = ["redis.so", "imagick.so", "apcu.so"]
# Zend extensions to load
# zend_extensions = ["xdebug.so"]
memory_limit = "256M"
max_execution_time = 30
upload_max_filesize = "64M"
post_max_size = "64M"
opcache_memory = 128
jit_buffer_size = "64M"
# Temporary directory for file uploads
upload_tmp_dir = "/tmp/turbine-uploads"
# OPcache preload script (auto-detect or explicit path)
# preload_script = "auto"
# Custom php.ini directives (key=value)
# [php.ini]
# error_reporting = "E_ALL"
# date.timezone = "UTC"

[cache]
# Enable response cache
enabled = true
# Cache TTL in seconds
ttl_seconds = 30
# Maximum number of cached responses
max_entries = 1024

[security]
# Master switch for all security guards
enabled = true
# Individual guard toggles
sql_guard = true
code_injection_guard = true
path_traversal_guard = true
behaviour_guard = true
# Rate limiting: max requests per second per IP
max_requests_per_second = 100
# Rate limit window in seconds
rate_limit_window = 60

[sandbox]
# seccomp-bpf sandbox (Linux only)
seccomp = true
# Execution mode: "strict" (only whitelist) or "framework" (auto-detect entry point)
execution_mode = "framework"
# PHP files allowed to execute via HTTP (strict mode only)
# execution_whitelist = ["public/index.php"]
# Directories where uploads/data live (PHP cannot execute files here)
data_directories = ["storage/", "uploads/", "public/uploads/"]
# Block uploads with these file extensions
blocked_upload_extensions = [".php", ".phtml", ".phar", ".php7", ".php8", ".inc", ".phps", ".pht", ".pgif"]
# Scan upload content for embedded PHP code
scan_upload_content = true
# Disable dangerous PHP functions
disabled_functions = ["exec", "system", "passthru", "shell_exec", "proc_open", "popen", "pcntl_exec", "dl", "putenv"]
# Restrict PHP filesystem access to project directories only
enforce_open_basedir = true
# Block remote code inclusion
block_url_include = true
# Block remote file access  
block_url_fopen = true

[logging]
# Log level: trace, debug, info, warn, error
level = "info"
# Access log file path (comment out to disable)
# access_log = "/var/log/turbine/access.log"

[compression]
# Enable response compression (brotli, zstd, gzip)
enabled = true
# Minimum body size in bytes to compress
min_size = 1024
# Compression level (1 = fastest, 9 = best, 6 = balanced)
level = 6
# Preferred algorithm order (first match with client Accept-Encoding wins)
algorithms = ["br", "zstd", "gzip"]

[error_pages]
# Custom HTML error pages (comment out to use defaults)
# not_found = "/path/to/404.html"
# server_error = "/path/to/500.html"

[session]
# Enable PHP session support
enabled = true
# Session file storage path
save_path = "/tmp/turbine-sessions"
# Session cookie name
cookie_name = "PHPSESSID"
# Cookie lifetime (0 = until browser close)
cookie_lifetime = 0
# HttpOnly flag
cookie_httponly = true
# Secure flag (auto-enabled when TLS is active)
cookie_secure = false
# SameSite attribute (Lax, Strict, None)
cookie_samesite = "Lax"
# Garbage collection max lifetime in seconds
gc_maxlifetime = 1440

[cors]
# Enable CORS (Cross-Origin Resource Sharing)
enabled = false
# Allowed origins (use ["*"] for any origin)
# allow_origins = ["https://example.com", "http://localhost:3000"]
allow_credentials = false
allow_methods = ["GET", "POST", "PUT", "DELETE", "PATCH", "OPTIONS"]
allow_headers = ["Content-Type", "Authorization", "X-Requested-With"]
# expose_headers = ["X-Total-Count"]
max_age = 86400

[watcher]
# Enable file watcher (auto-restart workers on PHP file changes)
enabled = false
# Directories to watch (relative to app root)
paths = ["app/", "config/", "routes/", "src/", "public/"]
# File extensions to watch
extensions = ["php", "env"]
# Debounce interval in milliseconds
debounce_ms = 500

[early_hints]
# Enable 103 Early Hints support (preload CSS/JS before final response)
enabled = true

[x_sendfile]
# Enable X-Sendfile / X-Accel-Redirect (delegate large file serving to Turbine)
enabled = false
# Base directory for X-Accel-Redirect paths (relative to app root)
# root = "private-files/"

[structured_logging]
# Enable structured JSON logging from PHP via turbine_log() markers
enabled = true
# Output: "stdout", "stderr", or a file path
output = "stderr"

[acme]
# Enable automatic TLS via ACME (Let's Encrypt).
# When [[virtual_hosts]] are configured, their domains are auto-collected —
# you do NOT need to list them in 'domains'. Use 'domains' only for
# single-site setups without virtual hosting.
enabled = false
# Domain names for the certificate (only needed without [[virtual_hosts]])
# domains = ["example.com", "www.example.com"]
# Contact email for Let's Encrypt notifications
# email = "admin@example.com"
# Certificate cache directory
cache_dir = "/var/lib/turbine/acme"
# Use staging server (set to true for testing)
staging = false

[embed]
# Embed PHP app in binary (set TURBINE_EMBED_DIR at build time)
enabled = false
# extract_dir = "/tmp/turbine-app"

[dashboard]
# Enable the /_/dashboard HTML page
enabled = true
# Enable /_/metrics and /_/status endpoints
statistics = true
# Bearer token to protect internal endpoints (comment out to disable auth)
# token = "my-secret-token"

# Worker pool splitting: route specific paths to dedicated worker pools
# [[worker_pools]]
# match_path = "/api/slow/*"
# min_workers = 1
# max_workers = 4
# name = "slow-api"

# Virtual hosting: serve different PHP applications on different domains.
# All virtual hosts share the same worker pool (no memory overhead).
# Requests whose Host header does not match any virtual host use the global root.
#
# [[virtual_hosts]]
# domain = "xpto.com"
# root = "/var/www/xpto"
# aliases = ["www.xpto.com"]
# # entry_point = "index.php"   # optional, auto-detected
# # tls_cert = "/etc/ssl/xpto.com.pem"   # optional, per-host TLS
# # tls_key = "/etc/ssl/xpto.com-key.pem"
#
# [[virtual_hosts]]
# domain = "outro.com"
# root = "/var/www/outro"
# aliases = ["www.outro.com"]
"#;

impl RuntimeConfig {
    /// A default `turbine.toml` with every section documented.
    pub fn template() -> (r: &'static str)
        ensures
            r@ == CONFIG_TEMPLATE@,
    {
        CONFIG_TEMPLATE
    }
}

} // verus!
