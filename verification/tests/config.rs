use browserserve::config::{
    config_file, is_blank, load, validate, ChromeConfig, ConfigError, EnvVar, Loaded, PoolConfig,
    PressureConfig, RuntimeConfig, SessionConfig, Transport,
};
use browserserve::scalar::Scalar;

fn env(pairs: &[(&str, &str)]) -> Vec<EnvVar> {
    pairs
        .iter()
        .map(|(k, v)| EnvVar {
            name: (*k).to_string(),
            value: (*v).to_string(),
        })
        .collect()
}

/// Loads what the parser made of a text that is not blank.
fn load_file(
    parsed: Result<RuntimeConfig, String>,
    env: &Vec<EnvVar>,
) -> Result<Loaded, ConfigError> {
    load(Some("pool: {}\n"), parsed, env)
}

/// What must not matter where the text is blank.
fn unread() -> Result<RuntimeConfig, String> {
    Err("not looked at".to_string())
}

fn defaults() -> Result<RuntimeConfig, String> {
    Ok(RuntimeConfig::default())
}

#[test]
fn defaults_when_no_yaml() {
    assert!(is_blank(None));
    let loaded = load(None, unread(), &vec![]).unwrap();
    assert_eq!(loaded.config.pool.min_ready, 1);
    assert_eq!(loaded.config.pool.max_sessions, 10);
    assert_eq!(loaded.config.chrome.transport, Transport::Pipe);
    assert_eq!(loaded.serve.port, 9222);
    assert_eq!(loaded.serve.host, "0.0.0.0");
    assert!(loaded.serve.token.is_none());
}

#[test]
fn empty_yaml_is_defaults() {
    assert!(is_blank(Some("  \n")));
    assert!(!is_blank(Some("pool:\n")));
    let loaded = load(Some("  \n"), unread(), &vec![]).unwrap();
    assert_eq!(loaded.config.pool.max_sessions, 10);
}

#[test]
fn yaml_overrides_defaults() {
    let file = RuntimeConfig {
        pool: PoolConfig {
            max_sessions: 3,
            max_sessions_set: true,
            min_ready: 0,
            ..PoolConfig::default()
        },
        chrome: ChromeConfig {
            no_sandbox: true,
            transport: Transport::Port,
            ..ChromeConfig::default()
        },
        session: SessionConfig {
            kill_grace_ms: 2000,
            ..SessionConfig::default()
        },
        data_dir: "/var/lib/bgr".to_string(),
        ..RuntimeConfig::default()
    };
    let loaded = load_file(Ok(file), &vec![]).unwrap();
    assert_eq!(loaded.config.pool.max_sessions, 3);
    assert_eq!(loaded.config.pool.min_ready, 0);
    assert!(loaded.config.chrome.no_sandbox);
    assert_eq!(loaded.config.chrome.transport, Transport::Port);
    assert_eq!(loaded.config.session.kill_grace_ms, 2000);
    assert_eq!(loaded.config.data_dir, "/var/lib/bgr");
}

#[test]
fn parser_errors_are_passed_on() {
    let file = Err("pool: unknown field `maxSesions`".to_string());
    let err = load_file(file, &vec![]).unwrap_err();
    assert!(matches!(err, ConfigError::Yaml(ref e) if e.contains("maxSesions")));
}

#[test]
fn env_overrides_win() {
    let env = env(&[
        ("PORT", "9333"),
        ("HOST", "127.0.0.1"),
        ("BROWSERSERVE_TOKEN", "secret"),
        ("BROWSERSERVE_CHROME_PATH", "/opt/chrome"),
        ("BROWSERSERVE_DATA_DIR", "/tmp/bgr-data"),
    ]);
    let file = RuntimeConfig {
        data_dir: "ignored".to_string(),
        ..RuntimeConfig::default()
    };
    let loaded = load_file(Ok(file), &env).unwrap();
    assert_eq!(loaded.serve.port, 9333);
    assert_eq!(loaded.serve.host, "127.0.0.1");
    assert_eq!(loaded.serve.token.as_deref(), Some("secret"));
    assert_eq!(loaded.config.chrome.executable_path.as_deref(), Some("/opt/chrome"));
    assert_eq!(loaded.config.data_dir, "/tmp/bgr-data");
}

#[test]
fn bad_port_rejected() {
    let err = load_file(defaults(), &env(&[("PORT", "eighty")])).unwrap_err();
    assert!(matches!(err, ConfigError::BadPort { .. }));
    let err = load_file(defaults(), &env(&[("PORT", "65536")])).unwrap_err();
    assert!(err.message().contains("65536"));
}

#[test]
fn semantic_validation() {
    let no_sessions = RuntimeConfig {
        pool: PoolConfig {
            max_sessions: 0,
            max_sessions_set: true,
            ..PoolConfig::default()
        },
        ..RuntimeConfig::default()
    };
    assert!(load_file(Ok(no_sessions), &vec![]).is_err());
    let no_cpu = RuntimeConfig {
        pressure: PressureConfig {
            max_cpu_percent: Scalar { bits: 0f64.to_bits() },
            ..PressureConfig::default()
        },
        ..RuntimeConfig::default()
    };
    assert!(load_file(Ok(no_cpu), &vec![]).is_err());
    let no_grace = RuntimeConfig {
        session: SessionConfig {
            kill_grace_ms: 0,
            ..SessionConfig::default()
        },
        ..RuntimeConfig::default()
    };
    assert!(load_file(Ok(no_grace), &vec![]).is_err());
}

fn with_percent(cpu: f64, memory: f64) -> Result<(), ConfigError> {
    validate(&RuntimeConfig {
        pressure: PressureConfig {
            max_cpu_percent: Scalar { bits: cpu.to_bits() },
            max_memory_percent: Scalar { bits: memory.to_bits() },
        },
        ..RuntimeConfig::default()
    })
}

#[test]
fn thresholds_are_percentages() {
    assert!(with_percent(1.0, 100.0).is_ok());
    assert!(with_percent(95.5, 0.999).is_err());
    assert!(with_percent(f64::NAN, 50.0).is_err());
    assert!(with_percent(-5.0, 50.0).is_err());
    let err = with_percent(50.0, 100.5).unwrap_err();
    assert_eq!(
        err,
        ConfigError::Invalid("pressure.maxMemoryPercent must be between 1 and 100".to_string())
    );
}

#[test]
fn frames_may_not_be_empty() {
    let config = RuntimeConfig {
        chrome: ChromeConfig {
            max_frame_bytes: 0,
            ..ChromeConfig::default()
        },
        ..RuntimeConfig::default()
    };
    assert_eq!(
        validate(&config).unwrap_err().message(),
        ConfigError::Invalid("chrome.maxFrameBytes must be greater than 0".to_string()).message()
    );
}

#[test]
fn config_file_resolves_in_order() {
    let named = env(&[("BROWSERSERVE_CONFIG", "/etc/b.yml")]);
    assert_eq!(config_file(&named, Some("x.yml"), true).as_deref(), Some("x.yml"));
    assert_eq!(config_file(&named, None, true).as_deref(), Some("/etc/b.yml"));
    assert_eq!(config_file(&vec![], None, true).as_deref(), Some("browserserve.yml"));
    assert_eq!(config_file(&vec![], None, false), None);
}

#[test]
fn unreadable_files_are_described() {
    let err = ConfigError::Read {
        path: "/etc/b.yml".to_string(),
        source: "denied".to_string(),
    };
    assert!(err.message().contains("/etc/b.yml"));
    assert!(err.message().contains("denied"));
}

#[test]
fn min_ready_comes_from_the_environment() {
    let loaded = load_file(Ok(RuntimeConfig::default()), &env(&[("BROWSERSERVE_MIN_READY", "0")])).unwrap();
    assert_eq!(loaded.config.pool.min_ready, 0);
    let unset = load_file(Ok(RuntimeConfig::default()), &env(&[])).unwrap();
    assert_eq!(unset.config.pool.min_ready, 1);
    let err = load_file(Ok(RuntimeConfig::default()), &env(&[("BROWSERSERVE_MIN_READY", "few")]));
    assert_eq!(
        err.unwrap_err().message(),
        "invalid config: BROWSERSERVE_MIN_READY must be a whole number"
    );
}

#[test]
fn config_errors_are_described() {
    let bad = load_file(defaults(), &env(&[("PORT", "a \"b\"\n")])).unwrap_err();
    assert_eq!(bad.message(), "invalid PORT value \"a \\\"b\\\"\\n\"");
    let read = ConfigError::Read {
        path: "x.yml".to_string(),
        source: "gone".to_string(),
    };
    assert_eq!(read.message(), "cannot read config file x.yml: gone");
    let yaml = load_file(Err("line 1".to_string()), &vec![]).unwrap_err();
    assert_eq!(yaml.message(), "invalid config YAML: line 1");
}
