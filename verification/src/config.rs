//! Runtime configuration: YAML file plus environment overrides.

use crate::scalar::Scalar;
use crate::text;
use vstd::prelude::*;

verus! {

/// Errors produced while loading or validating configuration.
#[derive(Debug, PartialEq, Eq)]
pub enum ConfigError {
    /// The YAML in the config file could not be parsed.
    Yaml(String),
    /// The config file could not be read.
    Read {
        /// Path that failed to read.
        path: String,
        /// Underlying I/O error.
        source: String,
    },
    /// The `PORT` environment variable is not a valid TCP port.
    BadPort {
        /// The rejected value.
        value: String,
    },
    /// A field failed semantic validation.
    Invalid(String),
}

/// Browser pool sizing and queueing.
#[derive(Debug, Clone, Copy, PartialEq, Eq, Structural)]
pub struct PoolConfig {
    /// Browsers kept launched and ready ahead of demand.
    pub min_ready: u32,
    /// Hard ceiling of concurrent claimed sessions.
    pub max_sessions: u32,
    /// Whether the ceiling was configured; otherwise serving derives one from
    /// the host.
    pub max_sessions_set: bool,
    /// Maximum clients waiting for a session slot before rejection.
    pub max_queue: u32,
    /// How long a queued client waits before rejection, in milliseconds.
    pub queue_timeout_ms: u64,
    /// Idle time after which warm browsers above `min_ready` are culled.
    pub warm_idle_ms: u64,
    /// Age at which any warm browser is recycled regardless of use.
    pub warm_max_age_ms: u64,
}

impl Default for PoolConfig {
    fn default() -> (r: PoolConfig)
        ensures
            r == (PoolConfig {
                min_ready: 1,
                max_sessions: 10,
                max_sessions_set: false,
                max_queue: 10,
                queue_timeout_ms: 30_000,
                warm_idle_ms: 300_000,
                warm_max_age_ms: 3_600_000,
            }),
    {
        PoolConfig {
            min_ready: 1,
            max_sessions: 10,
            max_sessions_set: false,
            max_queue: 10,
            queue_timeout_ms: 30_000,
            warm_idle_ms: 300_000,
            warm_max_age_ms: 3_600_000,
        }
    }
}

/// Per-session limits and teardown behavior.
#[derive(Debug, Clone, Copy, PartialEq, Eq, Structural)]
pub struct SessionConfig {
    /// Maximum session lifetime in milliseconds. `0` means unlimited.
    pub max_session_ms: u64,
    /// Per-session memory cap in MiB, enforced via cgroups on Linux. `0` disables.
    pub memory_max_mb: u64,
    /// Size cap for the RAM-backed session dir tier on Linux, in MiB.
    pub tmpfs_size_mb: u64,
    /// Grace period between SIGTERM and SIGKILL during teardown, in milliseconds.
    pub kill_grace_ms: u64,
}

impl Default for SessionConfig {
    fn default() -> (r: SessionConfig)
        ensures
            r == (SessionConfig {
                max_session_ms: 0,
                memory_max_mb: 2048,
                tmpfs_size_mb: 512,
                kill_grace_ms: 5_000,
            }),
    {
        SessionConfig {
            max_session_ms: 0,
            memory_max_mb: 2048,
            tmpfs_size_mb: 512,
            kill_grace_ms: 5_000,
        }
    }
}

/// The bits of the number one.
pub const ONE: u64 = 0x3FF0_0000_0000_0000;

/// The bits of the number ninety-five.
pub const NINETY_FIVE: u64 = 0x4057_C000_0000_0000;

/// The bits of the number one hundred.
pub const HUNDRED: u64 = 0x4059_0000_0000_0000;

/// Admission thresholds: new sessions are rejected above these, running ones untouched.
#[derive(Debug, Clone, Copy, PartialEq, Eq, Structural)]
pub struct PressureConfig {
    /// CPU usage percentage above which new sessions are rejected.
    pub max_cpu_percent: Scalar,
    /// Memory usage percentage above which new sessions are rejected.
    pub max_memory_percent: Scalar,
}

impl Default for PressureConfig {
    fn default() -> (r: PressureConfig)
        ensures
            r.max_cpu_percent.bits == NINETY_FIVE,
            r.max_memory_percent.bits == NINETY_FIVE,
    {
        PressureConfig {
            max_cpu_percent: Scalar { bits: NINETY_FIVE },
            max_memory_percent: Scalar { bits: NINETY_FIVE },
        }
    }
}

/// How the runtime talks CDP to each Chrome it launches.
#[derive(Debug, Clone, Copy, PartialEq, Eq, Structural)]
pub enum Transport {
    /// CDP over inherited pipe file descriptors. No TCP port exists.
    Pipe,
    /// CDP over a localhost TCP port. Fallback mode.
    Port,
}

/// Chrome discovery and launch settings.
#[derive(Debug)]
pub struct ChromeConfig {
    /// Explicit Chrome/Chromium executable. Auto-detected when unset.
    pub executable_path: Option<String>,
    /// CDP transport between the runtime and each Chrome.
    pub transport: Transport,
    /// Launch Chrome with `--no-sandbox`. Off by default; prefer a sandboxed setup.
    pub no_sandbox: bool,
    /// Extra flags appended after the built-in set.
    pub extra_flags: Vec<String>,
    /// Time budget for a launched Chrome to become CDP-ready, in milliseconds.
    pub launch_timeout_ms: u64,
    /// Maximum size of a single CDP message before the session is failed, in bytes.
    pub max_frame_bytes: usize,
}

impl Default for ChromeConfig {
    fn default() -> (r: ChromeConfig)
        ensures
            r.executable_path is None,
            r.transport == Transport::Pipe,
            !r.no_sandbox,
            r.extra_flags@.len() == 0,
            r.launch_timeout_ms == 30_000,
            r.max_frame_bytes == 268_435_456,
    {
        ChromeConfig {
            executable_path: None,
            transport: Transport::Pipe,
            no_sandbox: false,
            extra_flags: Vec::new(),
            launch_timeout_ms: 30_000,
            max_frame_bytes: 268_435_456,
        }
    }
}

/// Root configuration. Every field has a working default; an empty file is valid.
#[derive(Debug)]
pub struct RuntimeConfig {
    /// Browser pool sizing and queueing.
    pub pool: PoolConfig,
    /// Per-session limits and teardown behavior.
    pub session: SessionConfig,
    /// Admission thresholds.
    pub pressure: PressureConfig,
    /// Chrome discovery and launch settings.
    pub chrome: ChromeConfig,
    /// Directory holding per-session state. Created if missing.
    pub data_dir: String,
    /// Time budget for draining active sessions on shutdown, in milliseconds.
    pub drain_timeout_ms: u64,
    /// Public address advertised in `webSocketDebuggerUrl`, e.g.
    /// `ws://browsers.internal:9222`. Derived from the request Host when unset.
    pub external_address: Option<String>,
}

/// Whether a configuration has the default in every field.
pub open spec fn is_default(c: RuntimeConfig) -> bool {
    &&& c.pool == (PoolConfig {
        min_ready: 1,
        max_sessions: 10,
        max_sessions_set: false,
        max_queue: 10,
        queue_timeout_ms: 30_000,
        warm_idle_ms: 300_000,
        warm_max_age_ms: 3_600_000,
    })
    &&& c.session == (SessionConfig {
        max_session_ms: 0,
        memory_max_mb: 2048,
        tmpfs_size_mb: 512,
        kill_grace_ms: 5_000,
    })
    &&& c.pressure.max_cpu_percent.bits == NINETY_FIVE
    &&& c.pressure.max_memory_percent.bits == NINETY_FIVE
    &&& c.chrome.executable_path is None
    &&& c.chrome.transport == Transport::Pipe
    &&& !c.chrome.no_sandbox
    &&& c.chrome.extra_flags@.len() == 0
    &&& c.chrome.launch_timeout_ms == 30_000
    &&& c.chrome.max_frame_bytes == 268_435_456
    &&& c.data_dir@ == ".browserserve"@
    &&& c.drain_timeout_ms == 30_000
    &&& c.external_address is None
}

impl Default for RuntimeConfig {
    fn default() -> (r: RuntimeConfig)
        ensures
            is_default(r),
    {
        RuntimeConfig {
            pool: PoolConfig::default(),
            session: SessionConfig::default(),
            pressure: PressureConfig::default(),
            chrome: ChromeConfig::default(),
            data_dir: ".browserserve".to_owned(),
            drain_timeout_ms: 30_000,
            external_address: None,
        }
    }
}

/// Network-facing settings, sourced from the environment only.
#[derive(Debug, Clone)]
pub struct ServeSettings {
    /// TCP port for the front door. `PORT` env var, default 9222.
    pub port: u16,
    /// Bind address. `HOST` env var, default `0.0.0.0`.
    pub host: String,
    /// Auth token for WebSocket sessions. `BROWSERSERVE_TOKEN` env var, unset means no auth.
    pub token: Option<String>,
}

/// A fully resolved configuration.
#[derive(Debug)]
pub struct Loaded {
    /// File-plus-env runtime configuration.
    pub config: RuntimeConfig,
    /// Environment-only network settings.
    pub serve: ServeSettings,
}

/// One environment variable.
#[derive(Debug)]
pub struct EnvVar {
    /// Its name.
    pub name: String,
    /// Its value.
    pub value: String,
}

/// The value of the first variable of this name.
pub open spec fn env_of(env: Seq<EnvVar>, name: Seq<char>) -> Option<String>
    decreases env.len(),
{
    if env.len() == 0 {
        None
    } else if env[0].name@ == name {
        Some(env[0].value)
    } else {
        env_of(env.skip(1), name)
    }
}

/// The value of an environment variable, if it is set.
pub fn lookup<'a>(env: &'a Vec<EnvVar>, name: &str) -> (r: Option<&'a String>)
    ensures
        r is Some <==> env_of(env@, name@) is Some,
        r matches Some(v) ==> env_of(env@, name@) == Some(*v),
{
    let mut i: usize = 0;
    assert(env@.skip(0) =~= env@);
    while i < env.len()
        invariant
            i <= env@.len(),
            env_of(env@.skip(i as int), name@) == env_of(env@, name@),
        decreases env.len() - i,
    {
        assert(env@.skip(i as int)[0] == env@[i as int]);
        assert(env@.skip(i as int).skip(1) =~= env@.skip(i + 1));
        if text::same(env[i].name.as_str(), name) {
            return Some(&env[i].value);
        }
        i += 1;
    }
    None
}

/// Whether a configuration text says nothing: there is none, or only space.
pub open spec fn says_nothing(yaml: Option<Seq<char>>) -> bool {
    match yaml {
        None => true,
        Some(s) => text::trimmed(s).len() == 0,
    }
}

/// Whether a configuration text says nothing: there is none, or only space.
pub fn is_blank(yaml: Option<&str>) -> (r: bool)
    ensures
        r == says_nothing(text::opt_str(yaml)),
{
    match yaml {
        None => true,
        Some(s) => text::trim(s).as_str().unicode_len() == 0,
    }
}

/// Whether a percentage is from one to one hundred.
pub open spec fn percent_ok(p: Scalar) -> bool {
    !p.is_nan() && !p.less(Scalar { bits: ONE }) && !(Scalar { bits: HUNDRED }).less(p)
}

fn in_percent_range(p: Scalar) -> (r: bool)
    ensures
        r == percent_ok(p),
{
    let nan = !p.lt(Scalar { bits: ONE }) && !(Scalar { bits: ONE }).lt(p) && p.bits != ONE;
    assert(nan <==> p.is_nan());
    !nan && !p.lt(Scalar { bits: ONE }) && !(Scalar { bits: HUNDRED }).lt(p)
}

/// What is wrong with a configuration, if anything is: the first of these.
pub open spec fn fault_of(config: RuntimeConfig) -> Option<Seq<char>> {
    if config.pool.max_sessions == 0 {
        Some("pool.maxSessions must be at least 1"@)
    } else if !percent_ok(config.pressure.max_cpu_percent) {
        Some("pressure.maxCpuPercent must be between 1 and 100"@)
    } else if !percent_ok(config.pressure.max_memory_percent) {
        Some("pressure.maxMemoryPercent must be between 1 and 100"@)
    } else if config.session.kill_grace_ms == 0 {
        Some("session.killGraceMs must be greater than 0"@)
    } else if config.chrome.max_frame_bytes == 0 {
        Some("chrome.maxFrameBytes must be greater than 0"@)
    } else {
        None
    }
}

/// Checks what a configuration's types cannot.
pub fn validate(config: &RuntimeConfig) -> (r: Result<(), ConfigError>)
    ensures
        match fault_of(*config) {
            Some(fault) => r matches Err(ConfigError::Invalid(m)) && m@ == fault,
            None => r == Ok::<(), ConfigError>(()),
        },
{
    if config.pool.max_sessions == 0 {
        return Err(ConfigError::Invalid("pool.maxSessions must be at least 1".to_owned()));
    }
    if !in_percent_range(config.pressure.max_cpu_percent) {
        return Err(
            ConfigError::Invalid("pressure.maxCpuPercent must be between 1 and 100".to_owned()),
        );
    }
    if !in_percent_range(config.pressure.max_memory_percent) {
        return Err(
            ConfigError::Invalid("pressure.maxMemoryPercent must be between 1 and 100".to_owned()),
        );
    }
    if config.session.kill_grace_ms == 0 {
        return Err(ConfigError::Invalid("session.killGraceMs must be greater than 0".to_owned()));
    }
    if config.chrome.max_frame_bytes == 0 {
        return Err(ConfigError::Invalid("chrome.maxFrameBytes must be greater than 0".to_owned()));
    }
    Ok(())
}

/// The browsers kept ready that the environment asks for, those of the file if
/// it does not; nothing if what it asks for is no number.
pub open spec fn min_ready_of(config: RuntimeConfig, env: Seq<EnvVar>) -> Option<nat> {
    match env_of(env, "BROWSERSERVE_MIN_READY"@) {
        Some(value) => text::number_of(value@, u32::MAX as nat),
        None => Some(config.pool.min_ready as nat),
    }
}

/// The configuration behind the environment's overrides.
pub open spec fn overridden(config: RuntimeConfig, env: Seq<EnvVar>) -> RuntimeConfig {
    RuntimeConfig {
        pool: PoolConfig { min_ready: min_ready_of(config, env)->0 as u32, ..config.pool },
        chrome: ChromeConfig {
            executable_path: match env_of(env, "BROWSERSERVE_CHROME_PATH"@) {
                Some(path) => Some(path),
                None => config.chrome.executable_path,
            },
            ..config.chrome
        },
        data_dir: match env_of(env, "BROWSERSERVE_DATA_DIR"@) {
            Some(dir) => dir,
            None => config.data_dir,
        },
        ..config
    }
}

/// The port that the environment names, 9222 if it names none.
pub open spec fn port_of(env: Seq<EnvVar>) -> Option<nat> {
    match env_of(env, "PORT"@) {
        Some(value) => text::number_of(value@, u16::MAX as nat),
        None => Some(9222),
    }
}

/// What loading makes of a configuration: the environment's overrides applied,
/// if what comes of it is in order.
pub open spec fn loads(
    config: RuntimeConfig,
    env: Seq<EnvVar>,
    r: Result<Loaded, ConfigError>,
) -> bool {
    if min_ready_of(config, env) is None {
        r matches Err(ConfigError::Invalid(m)) && m@
            == "BROWSERSERVE_MIN_READY must be a whole number"@
    } else {
        match port_of(env) {
            None => r == Err::<Loaded, ConfigError>(
                (ConfigError::BadPort { value: env_of(env, "PORT"@)->0 }),
            ),
            Some(port) => match fault_of(overridden(config, env)) {
                Some(fault) => r matches Err(ConfigError::Invalid(m)) && m@ == fault,
                None => r matches Ok(loaded) && loaded.config == overridden(config, env)
                    && loaded.serve.port == port && loaded.serve.host@ == (match env_of(
                    env,
                    "HOST"@,
                ) {
                    Some(host) => host@,
                    None => "0.0.0.0"@,
                }) && loaded.serve.token == env_of(env, "BROWSERSERVE_TOKEN"@),
            },
        }
    }
}

/// Takes the default where the text is blank, otherwise what the parser made of
/// it; applies environment overrides and validates the outcome.
///
/// Recognized environment keys: `PORT`, `HOST`, `BROWSERSERVE_TOKEN`, `BROWSERSERVE_CHROME_PATH`,
/// `BROWSERSERVE_DATA_DIR`, `BROWSERSERVE_MIN_READY`. Returns a validated [`Loaded`].
pub fn load(
    yaml: Option<&str>,
    parsed: Result<RuntimeConfig, String>,
    env: &Vec<EnvVar>,
) -> (r: Result<Loaded, ConfigError>)
    ensures
        if says_nothing(text::opt_str(yaml)) {
            exists|config: RuntimeConfig| is_default(config) && #[trigger] loads(config, env@, r)
        } else {
            match parsed {
                Err(e) => r == Err::<Loaded, ConfigError>(ConfigError::Yaml(e)),
                Ok(config) => loads(config, env@, r),
            }
        },
{
    if is_blank(yaml) {
        let config = RuntimeConfig::default();
        let r = apply_env(config, env);
        assert(is_default(config) && loads(config, env@, r));
        return r;
    }
    match parsed {
        Ok(config) => apply_env(config, env),
        Err(e) => Err(ConfigError::Yaml(e)),
    }
}

fn apply_env(file: RuntimeConfig, env: &Vec<EnvVar>) -> (r: Result<Loaded, ConfigError>)
    ensures
        loads(file, env@, r),
{
    let mut config = file;
    let ghost before = config;
    if let Some(path) = lookup(env, "BROWSERSERVE_CHROME_PATH") {
        config.chrome.executable_path = Some(path.clone());
    }
    if let Some(dir) = lookup(env, "BROWSERSERVE_DATA_DIR") {
        config.data_dir = dir.clone();
    }
    if let Some(value) = lookup(env, "BROWSERSERVE_MIN_READY") {
        match text::parse_number(value.as_str(), u32::MAX as u64) {
            Some(n) => {
                config.pool.min_ready = n as u32;
            },
            None => {
                return Err(
                    ConfigError::Invalid(
                        "BROWSERSERVE_MIN_READY must be a whole number".to_owned(),
                    ),
                );
            },
        }
    }
    assert(config == overridden(before, env@));
    let port: u16 = match lookup(env, "PORT") {
        Some(value) => match text::parse_number(value.as_str(), u16::MAX as u64) {
            Some(n) => n as u16,
            None => {
                return Err(ConfigError::BadPort { value: value.clone() });
            },
        },
        None => 9222,
    };
    let host = match lookup(env, "HOST") {
        Some(host) => host.clone(),
        None => "0.0.0.0".to_owned(),
    };
    let token = match lookup(env, "BROWSERSERVE_TOKEN") {
        Some(token) => Some(token.clone()),
        None => None,
    };
    match validate(&config) {
        Err(e) => Err(e),
        Ok(()) => Ok(Loaded { config, serve: ServeSettings { port, host, token } }),
    }
}

/// The config file to read: the explicit path, then the one that
/// `BROWSERSERVE_CONFIG` names, then `./browserserve.yml` when it exists, then
/// no file at all.
pub open spec fn file_of(
    env: Seq<EnvVar>,
    explicit_path: Option<Seq<char>>,
    default_exists: bool,
) -> Option<Seq<char>> {
    match explicit_path {
        Some(path) => Some(path),
        None => match env_of(env, "BROWSERSERVE_CONFIG"@) {
            Some(path) => Some(path@),
            None => if default_exists {
                Some("browserserve.yml"@)
            } else {
                None
            },
        },
    }
}

/// Resolves the config file path.
pub fn config_file(env: &Vec<EnvVar>, explicit_path: Option<&str>, default_exists: bool) -> (r:
    Option<String>)
    ensures
        text::opt_view(r) == file_of(env@, text::opt_str(explicit_path), default_exists),
{
    match explicit_path {
        Some(path) => Some(path.to_owned()),
        None => match lookup(env, "BROWSERSERVE_CONFIG") {
            Some(path) => Some(path.clone()),
            None => if default_exists {
                Some("browserserve.yml".to_owned())
            } else {
                None
            },
        },
    }
}

impl ConfigError {
    /// What the error says; a rejected port is quoted.
    pub open spec fn says(self) -> Seq<char> {
        match self {
            ConfigError::Yaml(e) => "invalid config YAML: "@ + e@,
            ConfigError::Read { path, source } => "cannot read config file "@ + path@ + ": "@
                + source@,
            ConfigError::BadPort { value } => "invalid PORT value "@ + text::debug_text(value@),
            ConfigError::Invalid(m) => "invalid config: "@ + m@,
        }
    }

    /// The error as text.
    pub fn message(&self) -> (r: String)
        ensures
            r@ == self.says(),
    {
        match self {
            ConfigError::Yaml(e) => {
                let mut s = "invalid config YAML: ".to_owned();
                s.append(e.as_str());
                s
            },
            ConfigError::Read { path, source } => {
                let mut s = "cannot read config file ".to_owned();
                s.append(path.as_str());
                s.append(": ");
                s.append(source.as_str());
                s
            },
            ConfigError::BadPort { value } => {
                let mut s = "invalid PORT value ".to_owned();
                s.append(text::debug(value.as_str()).as_str());
                s
            },
            ConfigError::Invalid(m) => {
                let mut s = "invalid config: ".to_owned();
                s.append(m.as_str());
                s
            },
        }
    }
}

/// Every field has a working default: without a file and without variables a
/// configuration loads as it is.
pub proof fn defaults_are_valid(config: RuntimeConfig)
    requires
        is_default(config),
    ensures
        fault_of(overridden(config, Seq::empty())) is None,
        overridden(config, Seq::empty()) == config,
        port_of(Seq::empty()) == Some(9222nat),
        forall|r: Result<Loaded, ConfigError>| #[trigger]
            loads(config, Seq::empty(), r) ==> (r matches Ok(loaded) && loaded.config == config),
{
}

/// What loads is usable: there is room for a session, time for a teardown, and
/// thresholds that a percentage can reach.
pub proof fn loaded_config_is_usable(config: RuntimeConfig)
    requires
        fault_of(config) is None,
    ensures
        config.pool.max_sessions >= 1,
        config.session.kill_grace_ms > 0,
        config.chrome.max_frame_bytes > 0,
        !config.pressure.max_cpu_percent.is_nan(),
        !config.pressure.max_memory_percent.is_nan(),
{
}

} // verus!
