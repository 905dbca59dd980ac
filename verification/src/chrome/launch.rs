//! Browser launch: spawn with CDP pipe fds, wait for protocol readiness.

use crate::chrome::client;
use crate::chrome::flags;
use crate::chrome::flags::FlagOptions;
use crate::chrome::pipe;
use crate::chrome::pipe::PipeError;
use crate::json;
use crate::json::{Json, JsonView, Member};
use crate::text;
use vstd::prelude::*;

verus! {

/// The id of the command that asks whether the browser is ready.
pub const READY_PROBE_ID: u64 = 1;

/// The longest stderr line that is read.
pub const STDERR_MAX_LINE_BYTES: usize = 8192;

/// The most stderr lines that are kept.
pub const STDERR_MAX_LINES: usize = 200;

/// Milliseconds that an aborted browser gets to be reaped.
pub const ABORT_REAP_BUDGET_MS: u64 = 5_000;

/// Errors from launching a browser.
#[derive(Debug)]
pub enum LaunchError {
    /// Creating the CDP pipe pair failed.
    Pipes(String),
    /// Mapping the pipe fds onto the child failed.
    FdMapping,
    /// The browser process could not be spawned.
    Spawn(String),
    /// The spawned child reported no pid.
    PidUnavailable,
    /// Wrapping the runtime-side pipe ends for async I/O failed.
    Wire(String),
    /// The browser exited before becoming CDP-ready.
    ChromeExited {
        /// Exit status description.
        status: String,
        /// Most recent stderr lines at the time of failure.
        stderr_tail: String,
    },
    /// The CDP pipe failed before readiness.
    StartupPipe {
        /// The pipe failure.
        source: PipeError,
        /// Most recent stderr lines at the time of failure.
        stderr_tail: String,
    },
    /// The browser did not answer CDP within the launch timeout.
    ReadyTimeout {
        /// The configured launch timeout in milliseconds.
        timeout_ms: u64,
        /// Most recent stderr lines at the time of failure.
        stderr_tail: String,
    },
}

/// What to do about a browser that finds no usable sandbox.
pub open spec fn sandbox_remediation() -> Seq<char> {
    "the container blocks the system calls Chromium's sandbox needs. Two ways forward:\n  recommended: run the container with our seccomp profile, which keeps the sandbox ON:\n    docker run --security-opt seccomp=seccomp.json ...\n  fallback: explicitly disable the sandbox in config (chrome.noSandbox: true)\n  details: https://github.com/browser-gateway/browserserve#sandbox"@
}

impl LaunchError {
    /// The stderr tail of a readiness failure.
    pub open spec fn tail(self) -> Option<Seq<char>> {
        match self {
            LaunchError::ChromeExited { stderr_tail, .. } => Some(stderr_tail@),
            LaunchError::StartupPipe { stderr_tail, .. } => Some(stderr_tail@),
            LaunchError::ReadyTimeout { stderr_tail, .. } => Some(stderr_tail@),
            _ => None,
        }
    }

    /// What the error says.
    pub open spec fn says(self) -> Seq<char> {
        match self {
            LaunchError::Pipes(e) => "failed to create CDP pipes: "@ + e@,
            LaunchError::FdMapping => "failed to map CDP pipe fds onto the child"@,
            LaunchError::Spawn(e) => "failed to spawn the browser: "@ + e@,
            LaunchError::PidUnavailable => "browser pid unavailable after spawn"@,
            LaunchError::Wire(e) => "failed to wire the CDP pipe: "@ + e@,
            LaunchError::ChromeExited { status, stderr_tail } => "browser exited during startup ("@
                + status@ + "); stderr tail:\n"@ + stderr_tail@,
            LaunchError::StartupPipe { source, stderr_tail } =>
            "CDP pipe failed during startup: "@ + source.says() + "; stderr tail:\n"@
                + stderr_tail@,
            LaunchError::ReadyTimeout { timeout_ms, stderr_tail } =>
            "browser not CDP-ready within "@ + text::decimal_of(timeout_ms as nat)
                + " ms; stderr tail:\n"@ + stderr_tail@,
        }
    }

    /// The error as text.
    pub fn message(&self) -> (r: String)
        ensures
            r@ == self.says(),
    {
        match self {
            LaunchError::Pipes(e) => {
                let mut s = "failed to create CDP pipes: ".to_owned();
                s.append(e.as_str());
                s
            },
            LaunchError::FdMapping => "failed to map CDP pipe fds onto the child".to_owned(),
            LaunchError::Spawn(e) => {
                let mut s = "failed to spawn the browser: ".to_owned();
                s.append(e.as_str());
                s
            },
            LaunchError::PidUnavailable => "browser pid unavailable after spawn".to_owned(),
            LaunchError::Wire(e) => {
                let mut s = "failed to wire the CDP pipe: ".to_owned();
                s.append(e.as_str());
                s
            },
            LaunchError::ChromeExited { status, stderr_tail } => {
                let mut s = "browser exited during startup (".to_owned();
                s.append(status.as_str());
                s.append("); stderr tail:\n");
                s.append(stderr_tail.as_str());
                s
            },
            LaunchError::StartupPipe { source, stderr_tail } => {
                let mut s = "CDP pipe failed during startup: ".to_owned();
                s.append(source.message().as_str());
                s.append("; stderr tail:\n");
                s.append(stderr_tail.as_str());
                s
            },
            LaunchError::ReadyTimeout { timeout_ms, stderr_tail } => {
                let mut s = "browser not CDP-ready within ".to_owned();
                s.append(text::decimal(*timeout_ms as u128).as_str());
                s.append(" ms; stderr tail:\n");
                s.append(stderr_tail.as_str());
                s
            },
        }
    }

    /// The remediation hint, if one applies: the stderr tail of a readiness
    /// failure says that there is no usable sandbox.
    pub open spec fn hint(self) -> Option<Seq<char>> {
        match self.tail() {
            Some(tail) if text::occurs(tail, "No usable sandbox"@) => Some(sandbox_remediation()),
            _ => None,
        }
    }

    /// A remediation hint for known failure signatures, when one applies.
    ///
    /// Derived from the browser's stderr tail; returns `None` when the failure
    /// has no known one-line fix.
    pub fn remediation(&self) -> (r: Option<&'static str>)
        ensures
            text::opt_str(r) == self.hint(),
    {
        let tail = match self {
            LaunchError::ChromeExited { stderr_tail, .. } => stderr_tail,
            LaunchError::StartupPipe { stderr_tail, .. } => stderr_tail,
            LaunchError::ReadyTimeout { stderr_tail, .. } => stderr_tail,
            _ => {
                return None;
            },
        };
        if text::contains(tail.as_str(), "No usable sandbox") {
            return Some(
                "the container blocks the system calls Chromium's sandbox needs. Two ways forward:\n  recommended: run the container with our seccomp profile, which keeps the sandbox ON:\n    docker run --security-opt seccomp=seccomp.json ...\n  fallback: explicitly disable the sandbox in config (chrome.noSandbox: true)\n  details: https://github.com/browser-gateway/browserserve#sandbox",
            );
        }
        None
    }
}

/// Version facts the browser reported when it became ready.
#[derive(Debug)]
pub struct BrowserVersion {
    /// Product string, e.g. `Chrome/149.0.7827.155`.
    pub product: String,
    /// CDP protocol version, e.g. `1.3`.
    pub protocol_version: String,
    /// Default user agent.
    pub user_agent: String,
    /// JavaScript engine version.
    pub js_version: String,
}

impl Default for BrowserVersion {
    fn default() -> (r: BrowserVersion)
        ensures
            r.product@ == Seq::<char>::empty(),
            r.protocol_version@ == Seq::<char>::empty(),
            r.user_agent@ == Seq::<char>::empty(),
            r.js_version@ == Seq::<char>::empty(),
    {
        BrowserVersion {
            product: String::new(),
            protocol_version: String::new(),
            user_agent: String::new(),
            js_version: String::new(),
        }
    }
}

impl Clone for BrowserVersion {
    fn clone(&self) -> (r: BrowserVersion)
        ensures
            r == *self,
    {
        BrowserVersion {
            product: self.product.clone(),
            protocol_version: self.protocol_version.clone(),
            user_agent: self.user_agent.clone(),
            js_version: self.js_version.clone(),
        }
    }
}

/// A version fact in the answer to the probe, empty if it is not there.
pub open spec fn fact_of(answer: JsonView, name: Seq<char>) -> Seq<char> {
    match answer.at("result"@).at(name).chars() {
        Some(s) => s,
        None => Seq::empty(),
    }
}

fn fact(answer: &Json, name: &str) -> (r: String)
    ensures
        r@ == fact_of(answer@, name@),
{
    let found = match answer.get("result") {
        Some(result) => match result.get(name) {
            Some(v) => v.as_str(),
            None => None,
        },
        None => None,
    };
    match found {
        Some(s) => s.to_owned(),
        None => String::new(),
    }
}

/// Reads the version facts out of the answer to the probe.
pub fn parse_version(answer: &Json) -> (r: BrowserVersion)
    ensures
        r.product@ == fact_of(answer@, "product"@),
        r.protocol_version@ == fact_of(answer@, "protocolVersion"@),
        r.user_agent@ == fact_of(answer@, "userAgent"@),
        r.js_version@ == fact_of(answer@, "jsVersion"@),
{
    BrowserVersion {
        product: fact(answer, "product"),
        protocol_version: fact(answer, "protocolVersion"),
        user_agent: fact(answer, "userAgent"),
        js_version: fact(answer, "jsVersion"),
    }
}

/// Bounded ring of the browser's most recent stderr lines.
#[derive(Debug)]
pub struct StderrTail {
    lines: Vec<String>,
}

impl View for StderrTail {
    type V = Seq<Seq<char>>;

    closed spec fn view(&self) -> Seq<Seq<char>> {
        text::views(self.lines@)
    }
}

impl Default for StderrTail {
    fn default() -> (r: StderrTail)
        ensures
            r@ == Seq::<Seq<char>>::empty(),
    {
        let r = StderrTail { lines: Vec::new() };
        assert(r@ =~= Seq::<Seq<char>>::empty());
        r
    }
}

/// The last lines that are kept of all.
pub open spec fn last_lines(all: Seq<Seq<char>>) -> Seq<Seq<char>> {
    if all.len() <= STDERR_MAX_LINES {
        all
    } else {
        all.skip(all.len() - STDERR_MAX_LINES)
    }
}

impl StderrTail {
    /// Adds a line; the oldest go once there are too many.
    pub fn push(&mut self, line: String)
        ensures
            final(self)@ == last_lines(old(self)@.push(line@)),
    {
        let ghost all = self@.push(line@);
        self.lines.push(line);
        assert(self@ =~= all);
        let ghost mut dropped: int = 0;
        assert(all.skip(0) =~= all);
        while self.lines.len() > STDERR_MAX_LINES
            invariant
                0 <= dropped <= all.len(),
                self@ == all.skip(dropped),
                dropped > 0 ==> self@.len() >= STDERR_MAX_LINES,
            decreases self.lines.len(),
        {
            let ghost before = self@;
            let _ = self.lines.remove(0);
            proof {
                assert(self@ =~= before.skip(1));
                assert(all.skip(dropped).skip(1) =~= all.skip(dropped + 1));
                dropped = dropped + 1;
            }
        }
        assert(self@.len() == all.len() - dropped);
    }

    /// Returns the retained lines, oldest first.
    pub fn snapshot(&self) -> (r: Vec<String>)
        ensures
            text::views(r@) == self@,
    {
        let mut out: Vec<String> = Vec::new();
        let mut i: usize = 0;
        while i < self.lines.len()
            invariant
                i <= self.lines@.len(),
                text::views(out@) == self@.take(i as int),
            decreases self.lines.len() - i,
        {
            let ghost before = out@;
            out.push(self.lines[i].clone());
            assert(text::views(out@) =~= text::views(before).push(self@[i as int]));
            assert(text::views(out@) =~= self@.take(i + 1));
            i += 1;
        }
        assert(self@.take(i as int) =~= self@);
        out
    }

    /// The retained lines as one text.
    pub fn joined(&self) -> (r: String)
        ensures
            r@ == text::joined(self@, "\n"@),
    {
        text::join(&self.snapshot(), "\n")
    }
}

/// However many lines come in, what is kept are the last ones, in order.
pub proof fn tail_keeps_the_last_lines(all: Seq<Seq<char>>, line: Seq<char>)
    ensures
        last_lines(last_lines(all).push(line)) == last_lines(all.push(line)),
        last_lines(all).len() <= STDERR_MAX_LINES,
{
    assert(last_lines(last_lines(all).push(line)) =~= last_lines(all.push(line)));
}

/// Inputs for one browser launch.
#[derive(Debug)]
pub struct LaunchSpec<'a> {
    /// Resolved browser executable.
    pub executable: &'a str,
    /// Fresh, session-owned profile directory.
    pub user_data_dir: &'a str,
    /// Launch with `--no-sandbox`.
    pub no_sandbox: bool,
    /// Extra flags appended after the built-in set.
    pub extra_flags: &'a Vec<String>,
    /// Budget for the browser to become CDP-ready, in milliseconds.
    pub launch_timeout_ms: u64,
    /// Cap on a single CDP message.
    pub max_frame_bytes: usize,
}

/// Why a launch is aborted.
#[derive(Debug)]
pub enum LaunchCause {
    /// The child has no pid that can be used.
    NoPid,
    /// Wrapping the pipe ends failed.
    Wire(String),
    /// The browser exited.
    Exited(String),
    /// The CDP pipe failed.
    Pipe(PipeError),
    /// The launch timeout passed.
    TimedOut,
}

/// Where a launch stands.
#[derive(Debug)]
pub enum LaunchPhase {
    /// The CDP pipes are being created.
    Pipes,
    /// Their fds are being mapped onto the child.
    Mapping,
    /// The browser is being spawned.
    Spawning,
    /// The runtime-side pipe ends are being wrapped.
    Wiring(i32),
    /// The browser is being asked whether it is ready.
    Probing(i32),
    /// The browser is being killed and reaped.
    Aborting(LaunchCause),
    /// The launch has ended.
    Over,
}

/// What a launch learns.
#[derive(Debug)]
pub enum LaunchEvent {
    /// The pipes were created, or not.
    Pipes(Result<(), String>),
    /// The fds were mapped, or not.
    Mapped(bool),
    /// The browser was spawned, with its process id if it has one.
    Spawned(Result<Option<u32>, String>),
    /// The pipe ends were wrapped, or not.
    Wired(Result<(), String>),
    /// A CDP message arrived.
    Message(Json),
    /// The pipe failed.
    PipeFailed(PipeError),
    /// The browser exited.
    Exited(String),
    /// The launch timeout passed.
    TimedOut,
    /// The browser was killed and the child reaped, or its budget passed.
    Aborted,
}

/// What a launch does next.
#[derive(Debug)]
pub enum LaunchAction {
    /// Create the CDP pipes.
    CreatePipes,
    /// Map their fds onto the child's fds 3 and 4.
    MapFds,
    /// Spawn the browser as a process group leader with these arguments.
    Spawn(Vec<String>),
    /// Collect the stderr tail and wrap the runtime-side pipe ends.
    WirePipe,
    /// Write these bytes to the pipe, then receive.
    Probe(Vec<u8>),
    /// Receive a message, or learn that the browser exited or the time is up.
    Receive,
    /// SIGKILL the process group of this pid and reap the child.
    Abort(i32),
    /// SIGKILL the child, whose pid is of no use, and reap it.
    AbortChild,
    /// The browser is ready.
    Ready(i32, BrowserVersion),
    /// The launch failed.
    Fail(LaunchError),
    /// Nothing; the event does not belong here.
    Ignore,
}

/// The command that asks whether the browser is ready.
pub open spec fn probe_command() -> JsonView {
    JsonView::Object(
        seq![
            ("id"@, JsonView::UInt(READY_PROBE_ID)),
            ("method"@, JsonView::Str("Browser.getVersion"@)),
        ],
    )
}

fn probe_frame() -> (r: Vec<u8>)
    ensures
        r@ == client::wire_of(probe_command()),
{
    let mut members: Vec<Member> = Vec::new();
    members.push(json::member("id", Json::UInt(READY_PROBE_ID)));
    members.push(json::member("method", Json::string("Browser.getVersion")));
    assert(json::members_view(members@) =~= probe_command()->Object_0);
    pipe::frame_message(&Json::object(members))
}

/// Whether a message is the answer to the probe.
pub open spec fn is_answer(msg: JsonView) -> bool {
    msg.get("id"@) matches Some(v) && v.natural() == Some(READY_PROBE_ID)
}

/// The pid of a spawned child, if it has one that is in range.
pub open spec fn pid_of(id: Option<u32>) -> Option<i32> {
    match id {
        Some(n) if n <= i32::MAX => Some(n as i32),
        _ => None,
    }
}

/// What an aborted launch reports, with the stderr tail at that time.
pub open spec fn cause_matches(
    cause: LaunchCause,
    timeout_ms: u64,
    tail: Seq<Seq<char>>,
    e: LaunchError,
) -> bool {
    let text = text::joined(tail, "\n"@);
    match cause {
        LaunchCause::NoPid => e is PidUnavailable,
        LaunchCause::Wire(s) => e == LaunchError::Wire(s),
        LaunchCause::Exited(s) => e matches LaunchError::ChromeExited { status, stderr_tail }
            && status == s && stderr_tail@ == text,
        LaunchCause::Pipe(p) => e matches LaunchError::StartupPipe { source, stderr_tail } && source
            == p && stderr_tail@ == text,
        LaunchCause::TimedOut => e matches LaunchError::ReadyTimeout { timeout_ms: t, stderr_tail }
            && t == timeout_ms && stderr_tail@ == text,
    }
}

/// A browser launch, step by step.
#[derive(Debug)]
pub struct Launch {
    /// Where it stands.
    pub phase: LaunchPhase,
    /// The arguments that the browser gets.
    pub args: Vec<String>,
    /// The launch timeout in milliseconds.
    pub timeout_ms: u64,
    /// The process group, once there is one.
    pub pid: Option<i32>,
}

impl Launch {
    /// The pid is known exactly from the spawn on, if there is one.
    pub open spec fn wf(self) -> bool {
        match self.phase {
            LaunchPhase::Pipes | LaunchPhase::Mapping | LaunchPhase::Spawning => self.pid is None,
            LaunchPhase::Wiring(pid) => self.pid == Some(pid),
            LaunchPhase::Probing(pid) => self.pid == Some(pid),
            LaunchPhase::Aborting(cause) => self.pid is Some <==> !(cause is NoPid),
            LaunchPhase::Over => true,
        }
    }

    /// Begins a launch.
    pub fn begin(spec: &LaunchSpec<'_>) -> (r: (Launch, LaunchAction))
        ensures
            r.0.wf(),
            r.0.phase is Pipes,
            r.0.timeout_ms == spec.launch_timeout_ms,
            text::views(r.0.args@) == flags::flags_of(
                spec.user_data_dir@,
                spec.no_sandbox,
                text::views(spec.extra_flags@),
            ),
            r.1 is CreatePipes,
    {
        let args = flags::build_flags(
            &FlagOptions {
                user_data_dir: spec.user_data_dir,
                no_sandbox: spec.no_sandbox,
                extra: spec.extra_flags,
            },
        );
        (
            Launch {
                phase: LaunchPhase::Pipes,
                args,
                timeout_ms: spec.launch_timeout_ms,
                pid: None,
            },
            LaunchAction::CreatePipes,
        )
    }

    /// Whether the event is one that this phase waits for.
    pub open spec fn expects(self, event: LaunchEvent) -> bool {
        match self.phase {
            LaunchPhase::Pipes => event is Pipes,
            LaunchPhase::Mapping => event is Mapped,
            LaunchPhase::Spawning => event is Spawned,
            LaunchPhase::Wiring(_) => event is Wired,
            LaunchPhase::Probing(_) => event is Message || event is PipeFailed || event is Exited
                || event is TimedOut,
            LaunchPhase::Aborting(_) => event is Aborted,
            LaunchPhase::Over => false,
        }
    }

    /// Something happened; `tail` is the browser's stderr so far. On any
    /// failure after the spawn the browser is killed and the direct child reaped
    /// before the error is returned: by its process group, or by the child alone
    /// if it has no pid that can be used.
    pub fn step(&mut self, event: LaunchEvent, tail: &StderrTail) -> (r: LaunchAction)
        requires
            old(self).wf(),
        ensures
            final(self).wf(),
            final(self).timeout_ms == old(self).timeout_ms,
            old(self).phase is Pipes ==> final(self).args == old(self).args,
            !old(self).expects(event) ==> r is Ignore && *final(self) == *old(self),
            old(self).expects(event) ==> match event {
                LaunchEvent::Pipes(Ok(_)) => r is MapFds && final(self).phase is Mapping,
                LaunchEvent::Pipes(Err(e)) => r == LaunchAction::Fail(LaunchError::Pipes(e))
                    && final(self).phase is Over,
                LaunchEvent::Mapped(true) => r == LaunchAction::Spawn(old(self).args) && final(
                    self).phase is Spawning,
                LaunchEvent::Mapped(false) => r == LaunchAction::Fail(LaunchError::FdMapping)
                    && final(self).phase is Over,
                LaunchEvent::Spawned(Err(e)) => r == LaunchAction::Fail(LaunchError::Spawn(e))
                    && final(self).phase is Over,
                LaunchEvent::Spawned(Ok(id)) => match pid_of(id) {
                    None => r is AbortChild && final(self).phase == LaunchPhase::Aborting(
                        LaunchCause::NoPid,
                    ),
                    Some(pid) => r is WirePipe && final(self).phase == LaunchPhase::Wiring(pid),
                },
                LaunchEvent::Wired(Ok(_)) => {
                    &&& r matches LaunchAction::Probe(bytes) && bytes@ == client::wire_of(
                        probe_command(),
                    )
                    &&& final(self).phase == LaunchPhase::Probing(old(self).pid->0)
                },
                LaunchEvent::Wired(Err(e)) => r == LaunchAction::Abort(old(self).pid->0) && final(
                    self).phase == LaunchPhase::Aborting(LaunchCause::Wire(e)),
                LaunchEvent::Message(msg) => if is_answer(msg@) {
                    &&& r matches LaunchAction::Ready(pid, v) && pid == old(self).pid->0
                        && v.product@ == fact_of(msg@, "product"@) && v.protocol_version@
                        == fact_of(msg@, "protocolVersion"@) && v.user_agent@ == fact_of(
                        msg@,
                        "userAgent"@,
                    ) && v.js_version@ == fact_of(msg@, "jsVersion"@)
                    &&& final(self).phase is Over
                } else {
                    r is Receive && final(self).phase == old(self).phase
                },
                LaunchEvent::PipeFailed(e) => r == LaunchAction::Abort(old(self).pid->0) && final(
                    self).phase == LaunchPhase::Aborting(LaunchCause::Pipe(e)),
                LaunchEvent::Exited(s) => r == LaunchAction::Abort(old(self).pid->0) && final(
                    self).phase == LaunchPhase::Aborting(LaunchCause::Exited(s)),
                LaunchEvent::TimedOut => r == LaunchAction::Abort(old(self).pid->0) && final(
                    self).phase == LaunchPhase::Aborting(LaunchCause::TimedOut),
                LaunchEvent::Aborted => {
                    &&& r matches LaunchAction::Fail(e) && cause_matches(
                        old(self).phase->Aborting_0,
                        old(self).timeout_ms,
                        tail@,
                        e,
                    )
                    &&& final(self).phase is Over
                },
            },
            r is Fail ==> event is Aborted || event is Pipes || event is Mapped || (event matches
                LaunchEvent::Spawned(outcome) && outcome is Err),
            final(self).phase is Aborting && !(old(self).phase is Aborting) ==> r is AbortChild
                || r == LaunchAction::Abort(final(self).pid->0),
    {
        let mut phase = LaunchPhase::Over;
        std::mem::swap(&mut phase, &mut self.phase);
        match (phase, event) {
            (LaunchPhase::Pipes, LaunchEvent::Pipes(Ok(_))) => {
                self.phase = LaunchPhase::Mapping;
                LaunchAction::MapFds
            },
            (LaunchPhase::Pipes, LaunchEvent::Pipes(Err(e))) => LaunchAction::Fail(
                LaunchError::Pipes(e),
            ),
            (LaunchPhase::Mapping, LaunchEvent::Mapped(ok)) => {
                if ok {
                    self.phase = LaunchPhase::Spawning;
                    let mut args: Vec<String> = Vec::new();
                    std::mem::swap(&mut args, &mut self.args);
                    LaunchAction::Spawn(args)
                } else {
                    LaunchAction::Fail(LaunchError::FdMapping)
                }
            },
            (LaunchPhase::Spawning, LaunchEvent::Spawned(Err(e))) => LaunchAction::Fail(
                LaunchError::Spawn(e),
            ),
            (LaunchPhase::Spawning, LaunchEvent::Spawned(Ok(id))) => {
                let n: u32 = match id {
                    Some(n) => n,
                    None => {
                        self.phase = LaunchPhase::Aborting(LaunchCause::NoPid);
                        return LaunchAction::AbortChild;
                    },
                };
                if n > i32::MAX as u32 {
                    self.phase = LaunchPhase::Aborting(LaunchCause::NoPid);
                    return LaunchAction::AbortChild;
                }
                let pid: i32 = n as i32;
                self.pid = Some(pid);
                self.phase = LaunchPhase::Wiring(pid);
                LaunchAction::WirePipe
            },
            (LaunchPhase::Wiring(pid), LaunchEvent::Wired(Ok(_))) => {
                self.phase = LaunchPhase::Probing(pid);
                LaunchAction::Probe(probe_frame())
            },
            (LaunchPhase::Wiring(pid), LaunchEvent::Wired(Err(e))) => {
                self.phase = LaunchPhase::Aborting(LaunchCause::Wire(e));
                LaunchAction::Abort(pid)
            },
            (LaunchPhase::Probing(pid), LaunchEvent::Message(msg)) => {
                let answer = match msg.get("id") {
                    Some(v) => match v.as_u64() {
                        Some(n) => n == READY_PROBE_ID,
                        None => false,
                    },
                    None => false,
                };
                if answer {
                    LaunchAction::Ready(pid, parse_version(&msg))
                } else {
                    self.phase = LaunchPhase::Probing(pid);
                    LaunchAction::Receive
                }
            },
            (LaunchPhase::Probing(pid), LaunchEvent::PipeFailed(e)) => {
                self.phase = LaunchPhase::Aborting(LaunchCause::Pipe(e));
                LaunchAction::Abort(pid)
            },
            (LaunchPhase::Probing(pid), LaunchEvent::Exited(s)) => {
                self.phase = LaunchPhase::Aborting(LaunchCause::Exited(s));
                LaunchAction::Abort(pid)
            },
            (LaunchPhase::Probing(pid), LaunchEvent::TimedOut) => {
                self.phase = LaunchPhase::Aborting(LaunchCause::TimedOut);
                LaunchAction::Abort(pid)
            },
            (LaunchPhase::Aborting(cause), LaunchEvent::Aborted) => {
                LaunchAction::Fail(
                    match cause {
                        LaunchCause::NoPid => LaunchError::PidUnavailable,
                        LaunchCause::Wire(e) => LaunchError::Wire(e),
                        LaunchCause::Exited(status) => LaunchError::ChromeExited {
                            status,
                            stderr_tail: tail.joined(),
                        },
                        LaunchCause::Pipe(source) => LaunchError::StartupPipe {
                            source,
                            stderr_tail: tail.joined(),
                        },
                        LaunchCause::TimedOut => LaunchError::ReadyTimeout {
                            timeout_ms: self.timeout_ms,
                            stderr_tail: tail.joined(),
                        },
                    },
                )
            },
            (other, _) => {
                self.phase = other;
                LaunchAction::Ignore
            },
        }
    }
}

} // verus!
