//! What is said when something fails.

use crate::chrome::client::CdpError;
use crate::chrome::find::FindError;
use crate::chrome::launch;
use crate::chrome::launch::LaunchError;
use crate::chrome::pipe::PipeError;
use crate::config;
use crate::config::{ConfigError, EnvVar, Loaded, RuntimeConfig};
use crate::linux::cgroup::CgroupError;
use crate::linux::probe;
use crate::linux::probe::{CgroupFacts, LeafProbe, ReflinkProbe};
use crate::pool::ClaimError;
use crate::profile::cdp::ProfileCdpError;
use crate::profile::manifest::ExtractError;
use crate::text;
use vstd::prelude::*;

verus! {

/// What a failure of the CDP pipe or of a command says.
pub proof fn wire_failures_say_what_failed(
    max_bytes: usize,
    e: String,
    failure: PipeError,
    method: String,
    code: i64,
)
    ensures
        PipeError::Closed.says() == "CDP pipe closed by the browser"@,
        (PipeError::FrameTooLarge { max_bytes }).says() == "CDP frame exceeds the "@
            + text::decimal_of(max_bytes as nat) + "-byte cap"@,
        PipeError::BadJson(e).says() == "CDP frame is not valid JSON: "@ + e@,
        PipeError::Io(e).says() == "CDP pipe I/O error: "@ + e@,
        CdpError::Pipe(failure).says() == failure.says(),
        (CdpError::Protocol { method, code, message: e }).says() == "CDP command "@ + method@
            + " failed: "@ + e@ + " (code "@ + text::signed_decimal_of(code as int) + ")"@,
        forall|inner: CdpError| #[trigger] ProfileCdpError::Cdp(inner).says() == inner.says(),
        ProfileCdpError::Decode(e).says() == "decoding CDP response: "@ + e@,
{
}

/// What a search for a browser says that found none.
pub proof fn missing_browser_is_told(searched: usize, path: String)
    ensures
        (FindError::NotFound { searched }).says() == "no Chrome or Chromium executable found in "@
            + text::decimal_of(searched as nat)
            + " known locations; set chrome.executablePath in the config or the BROWSERSERVE_CHROME_PATH environment variable"@,
        (FindError::BadExplicit { path }).says()
            == "configured chrome executable is missing or not executable: "@ + path@,
{
}

/// What a launch says that failed, with the last lines of the browser's stderr
/// where it ran.
pub proof fn failed_launch_says_why(
    e: String,
    status: String,
    stderr_tail: String,
    source: PipeError,
    timeout_ms: u64,
)
    ensures
        LaunchError::Pipes(e).says() == "failed to create CDP pipes: "@ + e@,
        LaunchError::FdMapping.says() == "failed to map CDP pipe fds onto the child"@,
        LaunchError::Spawn(e).says() == "failed to spawn the browser: "@ + e@,
        LaunchError::PidUnavailable.says() == "browser pid unavailable after spawn"@,
        LaunchError::Wire(e).says() == "failed to wire the CDP pipe: "@ + e@,
        (LaunchError::ChromeExited { status, stderr_tail }).says()
            == "browser exited during startup ("@ + status@ + "); stderr tail:\n"@ + stderr_tail@,
        (LaunchError::StartupPipe { source, stderr_tail }).says()
            == "CDP pipe failed during startup: "@ + source.says() + "; stderr tail:\n"@
            + stderr_tail@,
        (LaunchError::ReadyTimeout { timeout_ms, stderr_tail }).says()
            == "browser not CDP-ready within "@ + text::decimal_of(timeout_ms as nat)
            + " ms; stderr tail:\n"@ + stderr_tail@,
        launch::sandbox_remediation()
            == "the container blocks the system calls Chromium's sandbox needs. Two ways forward:\n  recommended: run the container with our seccomp profile, which keeps the sandbox ON:\n    docker run --security-opt seccomp=seccomp.json ...\n  fallback: explicitly disable the sandbox in config (chrome.noSandbox: true)\n  details: https://github.com/browser-gateway/browserserve#sandbox"@,
{
}

/// What a claim says that was not served.
pub proof fn refused_claim_says_why(max_queue: usize, waited_ms: u64, message: String)
    ensures
        (ClaimError::QueueFull { max_queue }).says() == "session queue is full ("@
            + text::decimal_of(max_queue as nat) + " waiting)"@,
        (ClaimError::QueueTimeout { waited_ms }).says() == "timed out waiting "@ + text::decimal_of(
            waited_ms as nat,
        ) + " ms for a session slot"@,
        ClaimError::Closed.says() == "pool is closed"@,
        (ClaimError::Launch { message }).says() == "session launch failed: "@ + message@,
{
}

/// What a cgroup, an extraction or a configuration says that failed.
pub proof fn other_failures_say_what_failed(path: String, source: String)
    ensures
        (CgroupError::Io { path, source }).says() == "cgroup io on "@ + path@ + ": "@ + source@,
        ExtractError::UnsafePath(path).says() == "unsafe manifest path rejected: "@
            + text::debug_text(path@),
        ExtractError::Io(source).says() == source@,
        ConfigError::Yaml(source).says() == "invalid config YAML: "@ + source@,
        (ConfigError::Read { path, source }).says() == "cannot read config file "@ + path@ + ": "@
            + source@,
        (ConfigError::BadPort { value: source }).says() == "invalid PORT value "@
            + text::debug_text(source@),
        ConfigError::Invalid(source).says() == "invalid config: "@ + source@,
{
}

/// A configuration is refused for its first fault, which is named; what is
/// missing in the environment is the documented default.
pub proof fn first_fault_is_named(
    c: RuntimeConfig,
    env: Seq<EnvVar>,
    r: Result<Loaded, ConfigError>,
)
    ensures
        c.pool.max_sessions == 0 ==> config::fault_of(c) == Some(
            "pool.maxSessions must be at least 1"@,
        ),
        c.pool.max_sessions > 0 && !config::percent_ok(c.pressure.max_cpu_percent)
            ==> config::fault_of(c) == Some("pressure.maxCpuPercent must be between 1 and 100"@),
        c.pool.max_sessions > 0 && config::percent_ok(c.pressure.max_cpu_percent)
            && !config::percent_ok(c.pressure.max_memory_percent) ==> config::fault_of(c) == Some(
            "pressure.maxMemoryPercent must be between 1 and 100"@,
        ),
        c.pool.max_sessions > 0 && config::percent_ok(c.pressure.max_cpu_percent)
            && config::percent_ok(c.pressure.max_memory_percent) && c.session.kill_grace_ms == 0
            ==> config::fault_of(c) == Some("session.killGraceMs must be greater than 0"@),
        c.pool.max_sessions > 0 && config::percent_ok(c.pressure.max_cpu_percent)
            && config::percent_ok(c.pressure.max_memory_percent) && c.session.kill_grace_ms > 0
            && c.chrome.max_frame_bytes == 0 ==> config::fault_of(c) == Some(
            "chrome.maxFrameBytes must be greater than 0"@,
        ),
        config::loads(c, env, r) ==> {
            &&& config::min_ready_of(c, env) is None ==> (r matches Err(ConfigError::Invalid(m))
                && m@ == "BROWSERSERVE_MIN_READY must be a whole number"@)
            &&& config::min_ready_of(c, env) is Some && config::port_of(env) is None ==> (r matches
                Err(ConfigError::BadPort { value }) && config::env_of(env, "PORT"@) == Some(value))
            &&& r matches Ok(loaded) ==> {
                &&& config::port_of(env) == Some(loaded.serve.port as nat)
                &&& config::env_of(env, "HOST"@) matches Some(host) ==> loaded.serve.host@ == host@
                &&& config::env_of(env, "HOST"@) is None ==> loaded.serve.host@ == "0.0.0.0"@
                &&& loaded.serve.token == config::env_of(env, "BROWSERSERVE_TOKEN"@)
                &&& config::fault_of(loaded.config) is None
                &&& loaded.config == config::overridden(c, env)
            }
            &&& config::min_ready_of(c, env) is Some && config::port_of(env) is Some
                && config::fault_of(config::overridden(c, env)) is None ==> r is Ok
        },
{
    if config::env_of(env, "PORT"@) is None {
        assert(config::port_of(env) is Some);
    }
}

/// Each isolation decision is noted with its reason.
pub proof fn isolation_is_explained(
    facts: CgroupFacts,
    e: String,
    writable: bool,
    can_kill: bool,
    migrated: bool,
    dir: Seq<char>,
)
    ensures
        facts.delegated_base is None && facts.own_cgroup is None ==> probe::cgroup_of(facts).2
            == "cgroup: /proc/self/cgroup unreadable; using killpg + rss-poll"@,
        facts.delegated_base is None && (facts.own_cgroup matches Some(content)
            && crate::linux::cgroup::own_dir_of(content@) == Some(dir)) && facts.controllers is None
            ==> probe::cgroup_of(facts).2 == "cgroup: 'memory' not delegated in "@ + dir
            + " (needs +memory in parent subtree_control); using rss-poll"@,
        probe::base_of(facts) is Ok && facts.leaf == LeafProbe::Failed(e) ==> probe::cgroup_of(
            facts,
        ).2 == "cgroup: cannot create leaf ("@ + e@ + "); using killpg + rss-poll"@,
        probe::base_of(facts) is Ok && facts.leaf == (LeafProbe::Created {
            writable,
            can_kill,
            migrated,
        }) ==> probe::cgroup_of(facts).2 == (if writable && migrated {
            "cgroup: memory.max writable and process migration works; hard cap active"@
        } else if writable {
            "cgroup: memory.max writable but process migration denied (delegation boundary); using rss-poll"@
        } else {
            "cgroup: leaf created but memory.max not writable; using rss-poll"@
        }),
        probe::profile_of(ReflinkProbe::Uncreatable(e)).1 == "profile: data_dir uncreatable ("@ + e@
            + "); plain-copy"@,
        probe::profile_of(ReflinkProbe::Supported).1
            == "profile: reflink supported on data_dir; CoW clone active"@,
        probe::profile_of(ReflinkProbe::Unsupported).1
            == "profile: reflink unsupported on data_dir; plain-copy"@,
        probe::profile_of(ReflinkProbe::Failed(e)).1 == "profile: reflink probe failed ("@ + e@
            + "); plain-copy"@,
{
}

} // verus!
