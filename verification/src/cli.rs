//! The `check` and `doctor` commands: what they find out and what they print.

use crate::chrome::find::FindError;
use crate::chrome::kill::TeardownReport;
use crate::chrome::launch::{BrowserVersion, LaunchError};
use crate::config::Transport;
use crate::linux::tiers::Tiers;
use crate::platform::Platform;
use crate::text;
use vstd::prelude::*;

verus! {

/// File descriptors that a session server should have at least.
pub const FD_FLOOR: u64 = 4_096;

/// Mebibytes of shared memory that a browser should have at least.
pub const SHM_FLOOR_MIB: u128 = 512;

/// The bytes in a mebibyte.
pub const MIB: u128 = 1_048_576;

/// Whether browsers can be talked to over the configured transport.
pub fn check_transport(transport: Transport) -> (r: Result<(), String>)
    ensures
        match transport {
            Transport::Pipe => r is Ok,
            Transport::Port => r matches Err(e) && e@
                == "chrome.transport: port is not available yet; use pipe"@,
        },
{
    match transport {
        Transport::Pipe => Ok(()),
        Transport::Port => Err(
            "chrome.transport: port is not available yet; use pipe".to_owned(),
        ),
    }
}

fn line(label: &str, value: &str) -> (r: String)
    ensures
        r@ == label@ + value@,
{
    let mut s = label.to_owned();
    s.append(value);
    s
}

fn add_line(lines: &mut Vec<String>, label: &str, value: &str)
    ensures
        text::views(final(lines)@) == text::views(old(lines)@).push(label@ + value@),
{
    let s = line(label, value);
    lines.push(s);
    assert(text::views(lines@) =~= text::views(old(lines)@).push(label@ + value@));
}

fn add_text(lines: &mut Vec<String>, said: &str)
    ensures
        text::views(final(lines)@) == text::views(old(lines)@).push(said@),
{
    lines.push(said.to_owned());
    assert(text::views(lines@) =~= text::views(old(lines)@).push(said@));
}

/// What `doctor` finds out about the host.
#[derive(Debug)]
pub struct HostReport {
    /// The browser, or why there is none.
    pub browser: Result<String, FindError>,
    /// What the browser prints for `--version`, if it runs.
    pub version: Option<String>,
    /// The soft limit on file descriptors.
    pub fd_limit: Option<u64>,
    /// The data directory.
    pub data_dir: String,
    /// Whether it is writable, or why not.
    pub writable: Result<(), String>,
    /// The platform.
    pub platform: Platform,
    /// Available blocks of `/dev/shm` and their size, on Linux.
    pub shm: Option<(u64, u64)>,
    /// The isolation tiers.
    pub tiers: Tiers,
}

/// What `doctor` prints of the browser.
pub open spec fn browser_lines(host: HostReport) -> Seq<Seq<char>> {
    match host.browser {
        Ok(path) => seq![
            "browser        "@ + path@,
            match host.version {
                Some(out) => "version        "@ + text::trimmed(out@),
                None => "version        could not run --version"@,
            },
        ],
        Err(e) => seq!["browser        MISSING: "@ + e.says()],
    }
}

/// What `doctor` prints of the limit on file descriptors.
pub open spec fn fd_lines(fd_limit: Option<u64>) -> Seq<Seq<char>> {
    match fd_limit {
        Some(soft) => {
            let first = seq!["fd limit       "@ + text::decimal_of(soft as nat)];
            if soft < FD_FLOOR {
                first.push("               warning: below 4096; each session holds several fds"@)
            } else {
                first
            }
        },
        None => seq!["fd limit       unknown"@],
    }
}

/// What `doctor` prints of the data directory.
pub open spec fn data_dir_lines(data_dir: Seq<char>, writable: Result<(), String>) -> Seq<
    Seq<char>,
> {
    match writable {
        Ok(_) => seq!["data dir       "@ + (data_dir + " writable"@)],
        Err(e) => seq!["data dir       "@ + (data_dir + " NOT writable: "@ + e@)],
    }
}

/// What `doctor` prints of the shared memory.
pub open spec fn shm_lines(shm: Option<(u64, u64)>) -> Seq<Seq<char>> {
    match shm {
        Some((blocks, size)) => {
            let mib = (blocks as int * size as int) / (MIB as int);
            let first = seq!["/dev/shm       "@ + (text::decimal_of(mib as nat) + " MiB available"@)];
            if mib < SHM_FLOOR_MIB {
                first.push(
                    "               warning: run the container with --shm-size=1g or larger"@,
                )
            } else {
                first
            }
        },
        None => seq!["/dev/shm       unknown"@],
    }
}

/// What `doctor` prints of the platform: the shared memory on Linux, a remark
/// elsewhere.
pub open spec fn platform_lines(host: HostReport) -> Seq<Seq<char>> {
    match host.platform {
        Platform::Linux => shm_lines(host.shm),
        Platform::MacOs => seq![
            "platform       macOS: development only; production is the Linux image"@,
        ],
    }
}

/// What `doctor` prints of the isolation tiers.
pub open spec fn tier_lines(tiers: Tiers) -> Seq<Seq<char>> {
    seq!["isolation      "@ + tiers.summarized()] + text::views(tiers.notes@).map_values(
        |n: Seq<char>| "               "@ + n,
    )
}

/// Whether the host passes: it has a browser and a writable data directory.
pub open spec fn is_fit(host: HostReport) -> bool {
    host.browser is Ok && host.writable is Ok
}

/// Everything that `doctor` prints.
pub open spec fn doctor_lines(host: HostReport) -> Seq<Seq<char>> {
    (browser_lines(host) + fd_lines(host.fd_limit) + data_dir_lines(host.data_dir@, host.writable)
        + platform_lines(host) + tier_lines(host.tiers)).push(
        if is_fit(host) {
            "doctor         PASS"@
        } else {
            "doctor         FAIL"@
        },
    )
}

fn add_browser(lines: &mut Vec<String>, host: &HostReport)
    ensures
        text::views(final(lines)@) == text::views(old(lines)@) + browser_lines(*host),
{
    match &host.browser {
        Ok(path) => {
            add_line(lines, "browser        ", path.as_str());
            match &host.version {
                Some(out) => {
                    add_line(lines, "version        ", text::trim(out.as_str()).as_str());
                },
                None => {
                    add_text(lines, "version        could not run --version");
                },
            }
        },
        Err(e) => {
            add_line(lines, "browser        MISSING: ", e.message().as_str());
        },
    }
    assert(text::views(lines@) =~= text::views(old(lines)@) + browser_lines(*host));
}

fn add_fd_limit(lines: &mut Vec<String>, fd_limit: Option<u64>)
    ensures
        text::views(final(lines)@) == text::views(old(lines)@) + fd_lines(fd_limit),
{
    match fd_limit {
        Some(soft) => {
            add_line(lines, "fd limit       ", text::decimal(soft as u128).as_str());
            if soft < FD_FLOOR {
                add_text(
                    lines,
                    "               warning: below 4096; each session holds several fds",
                );
            }
        },
        None => {
            add_text(lines, "fd limit       unknown");
        },
    }
    assert(text::views(lines@) =~= text::views(old(lines)@) + fd_lines(fd_limit));
}

fn add_data_dir(lines: &mut Vec<String>, data_dir: &str, writable: &Result<(), String>)
    ensures
        text::views(final(lines)@) == text::views(old(lines)@) + data_dir_lines(
            data_dir@,
            *writable,
        ),
{
    match writable {
        Ok(_) => {
            add_line(lines, "data dir       ", line(data_dir, " writable").as_str());
        },
        Err(e) => {
            let said = line(line(data_dir, " NOT writable: ").as_str(), e.as_str());
            add_line(lines, "data dir       ", said.as_str());
        },
    }
    assert(text::views(lines@) =~= text::views(old(lines)@) + data_dir_lines(data_dir@, *writable));
}

fn add_shm(lines: &mut Vec<String>, shm: Option<(u64, u64)>)
    ensures
        text::views(final(lines)@) == text::views(old(lines)@) + shm_lines(shm),
{
    match shm {
        Some((blocks, size)) => {
            proof {
                assert(blocks as int * size as int <= u64::MAX as int * u64::MAX as int)
                    by (nonlinear_arith)
                    requires
                        0 <= blocks <= u64::MAX,
                        0 <= size <= u64::MAX,
                ;
            }
            let mib: u128 = (blocks as u128 * size as u128) / MIB;
            add_line(
                lines,
                "/dev/shm       ",
                line(text::decimal(mib).as_str(), " MiB available").as_str(),
            );
            if mib < SHM_FLOOR_MIB {
                add_text(
                    lines,
                    "               warning: run the container with --shm-size=1g or larger",
                );
            }
        },
        None => {
            add_text(lines, "/dev/shm       unknown");
        },
    }
    assert(text::views(lines@) =~= text::views(old(lines)@) + shm_lines(shm));
}

fn add_platform(lines: &mut Vec<String>, host: &HostReport)
    ensures
        text::views(final(lines)@) == text::views(old(lines)@) + platform_lines(*host),
{
    match host.platform {
        Platform::Linux => {
            add_shm(lines, host.shm);
        },
        Platform::MacOs => {
            add_text(
                lines,
                "platform       macOS: development only; production is the Linux image",
            );
            assert(text::views(lines@) =~= text::views(old(lines)@) + platform_lines(*host));
        },
    }
}

fn add_tiers(lines: &mut Vec<String>, tiers: &Tiers)
    ensures
        text::views(final(lines)@) == text::views(old(lines)@) + tier_lines(*tiers),
{
    add_line(lines, "isolation      ", tiers.summary().as_str());
    let ghost before = text::views(old(lines)@);
    let ghost wanted = tier_lines(*tiers);
    assert(text::views(lines@) =~= before + wanted.take(1));
    let mut i: usize = 0;
    while i < tiers.notes.len()
        invariant
            i <= tiers.notes@.len(),
            wanted == tier_lines(*tiers),
            text::views(lines@) == before + wanted.take(i + 1),
        decreases tiers.notes.len() - i,
    {
        add_line(lines, "               ", tiers.notes[i].as_str());
        assert(wanted[i + 1] == "               "@ + text::views(tiers.notes@)[i as int]);
        assert(text::views(lines@) =~= before + wanted.take(i + 2));
        i += 1;
    }
    assert(wanted.take(i + 1) =~= wanted);
}

/// What `doctor` prints, and whether the host passes.
pub fn doctor(host: &HostReport) -> (r: (Vec<String>, bool))
    ensures
        text::views(r.0@) == doctor_lines(*host),
        r.1 == is_fit(*host),
{
    let mut lines: Vec<String> = Vec::new();
    assert(text::views(lines@) =~= Seq::<Seq<char>>::empty());
    add_browser(&mut lines, host);
    assert(text::views(lines@) =~= browser_lines(*host));
    add_fd_limit(&mut lines, host.fd_limit);
    add_data_dir(&mut lines, host.data_dir.as_str(), &host.writable);
    add_platform(&mut lines, host);
    add_tiers(&mut lines, &host.tiers);
    let ok = host.browser.is_ok() && host.writable.is_ok();
    add_text(
        &mut lines,
        if ok {
            "doctor         PASS"
        } else {
            "doctor         FAIL"
        },
    );
    (lines, ok)
}

/// What happens in a `check`.
#[derive(Debug)]
pub enum CheckEvent {
    /// The browser was looked for.
    BrowserFound(Result<String, FindError>),
    /// The session's directories were made: the user data directory, or why
    /// not.
    Provisioned(Result<String, String>),
    /// The browser was launched.
    Launched(Result<Launched, LaunchError>),
    /// The browser was torn down.
    TornDown(TeardownReport),
    /// The session's directories were removed, or why not.
    Removed(Result<(), String>),
}

/// A browser that was launched.
#[derive(Debug)]
pub struct Launched {
    /// Its process id.
    pub pid: i32,
    /// Its facts.
    pub version: BrowserVersion,
    /// How long it took to be ready, in milliseconds.
    pub ready_ms: u128,
}

/// What a `check` does next.
#[derive(Debug)]
pub enum CheckAction {
    /// Look for the browser.
    FindBrowser,
    /// Make the session's directories.
    Provision,
    /// Launch the browser.
    Launch,
    /// Tear the browser down.
    TearDown,
    /// Remove the session's directories.
    Remove,
    /// Remove the session's directories, and end with this error.
    RemoveAndFail(String),
    /// End; the check passed, or not.
    Finish(bool),
    /// End with this error.
    Fail(String),
}

/// Where a `check` stands.
#[derive(Debug, Clone, Copy, PartialEq, Eq, Structural)]
pub enum CheckPhase {
    /// It looks for the browser.
    Finding,
    /// It makes the directories.
    Provisioning,
    /// It launches the browser.
    Launching,
    /// It tears the browser down.
    TearingDown,
    /// It removes the directories; the browser was reaped, or not.
    Removing(bool),
    /// It is over.
    Over,
}

/// One browser that is launched, verified and torn down.
#[derive(Debug)]
pub struct Check {
    /// Where it stands.
    pub phase: CheckPhase,
}

/// What an action says, over views.
pub enum CheckActionView {
    /// Make the session's directories.
    Provision,
    /// Launch the browser.
    Launch,
    /// Tear the browser down.
    TearDown,
    /// Remove the session's directories.
    Remove,
    /// Remove the session's directories, and end with this error.
    RemoveAndFail(Seq<char>),
    /// End; the check passed, or not.
    Finish(bool),
    /// End with this error.
    Fail(Seq<char>),
    /// Look for the browser.
    FindBrowser,
}

impl View for CheckAction {
    type V = CheckActionView;

    open spec fn view(&self) -> CheckActionView {
        match *self {
            CheckAction::FindBrowser => CheckActionView::FindBrowser,
            CheckAction::Provision => CheckActionView::Provision,
            CheckAction::Launch => CheckActionView::Launch,
            CheckAction::TearDown => CheckActionView::TearDown,
            CheckAction::Remove => CheckActionView::Remove,
            CheckAction::RemoveAndFail(m) => CheckActionView::RemoveAndFail(m@),
            CheckAction::Finish(ok) => CheckActionView::Finish(ok),
            CheckAction::Fail(m) => CheckActionView::Fail(m@),
        }
    }
}

/// What a failed launch says.
pub open spec fn launch_report(e: LaunchError) -> Seq<char> {
    let first = "launch failed: "@ + e.says();
    match e.hint() {
        Some(hint) => first + "\n\nhint: "@ + hint,
        None => first,
    }
}

/// The word for a flag.
pub open spec fn flag_word(b: bool) -> Seq<char> {
    if b {
        "true"@
    } else {
        "false"@
    }
}

fn flag(b: bool) -> (r: &'static str)
    ensures
        r@ == flag_word(b),
{
    if b {
        "true"
    } else {
        "false"
    }
}

/// What a teardown says.
pub open spec fn teardown_report(report: TeardownReport) -> Seq<char> {
    "graceful="@ + flag_word(report.graceful) + " sigkill="@ + flag_word(report.escalated_sigkill)
        + " reaped="@ + flag_word(report.reaped) + " exit="@ + match report.exit_status {
        Some(status) => status@,
        None => "unknown"@,
    }
}

/// What is printed, done and where the check stands then; nothing, if the event
/// does not belong to where it stands.
pub open spec fn check_next(phase: CheckPhase, event: CheckEvent) -> Option<
    (Seq<Seq<char>>, CheckActionView, CheckPhase),
> {
    let quiet = Seq::<Seq<char>>::empty();
    match (phase, event) {
        (CheckPhase::Finding, CheckEvent::BrowserFound(Ok(path))) => Some(
            (
                seq!["executable     "@ + path@],
                CheckActionView::Provision,
                CheckPhase::Provisioning,
            ),
        ),
        (CheckPhase::Finding, CheckEvent::BrowserFound(Err(e))) => Some(
            (quiet, CheckActionView::Fail(e.says()), CheckPhase::Over),
        ),
        (CheckPhase::Provisioning, CheckEvent::Provisioned(Ok(dir))) => Some(
            (seq!["user data dir  "@ + dir@], CheckActionView::Launch, CheckPhase::Launching),
        ),
        (CheckPhase::Provisioning, CheckEvent::Provisioned(Err(e))) => Some(
            (quiet, CheckActionView::Fail("provision session dir: "@ + e@), CheckPhase::Over),
        ),
        (CheckPhase::Launching, CheckEvent::Launched(Ok(b))) => Some(
            (
                seq![
                    "pid            "@ + text::signed_decimal_of(b.pid as int),
                    "product        "@ + b.version.product@,
                    "protocol       "@ + b.version.protocol_version@,
                    "cdp ready in   "@ + (text::decimal_of(b.ready_ms as nat) + " ms"@),
                ],
                CheckActionView::TearDown,
                CheckPhase::TearingDown,
            ),
        ),
        (CheckPhase::Launching, CheckEvent::Launched(Err(e))) => Some(
            (quiet, CheckActionView::RemoveAndFail(launch_report(e)), CheckPhase::Over),
        ),
        (CheckPhase::TearingDown, CheckEvent::TornDown(report)) => Some(
            (
                seq!["teardown       "@ + teardown_report(report)],
                CheckActionView::Remove,
                CheckPhase::Removing(report.reaped),
            ),
        ),
        (CheckPhase::Removing(reaped), CheckEvent::Removed(Ok(_))) => Some(
            (
                seq![
                    "session dir    removed"@,
                    if reaped {
                        "check          PASS"@
                    } else {
                        "check          FAIL: browser was not reaped"@
                    },
                ],
                CheckActionView::Finish(reaped),
                CheckPhase::Over,
            ),
        ),
        (CheckPhase::Removing(_), CheckEvent::Removed(Err(e))) => Some(
            (quiet, CheckActionView::Fail("session dir teardown: "@ + e@), CheckPhase::Over),
        ),
        _ => None,
    }
}

impl Check {
    /// Starts a check.
    pub fn begin() -> (r: (Check, CheckAction))
        ensures
            r.0.phase is Finding,
            r.1 is FindBrowser,
    {
        (Check { phase: CheckPhase::Finding }, CheckAction::FindBrowser)
    }

    /// What the check prints and does next. An event that does not belong to
    /// where it stands changes nothing and calls for nothing.
    pub fn step(&mut self, event: CheckEvent) -> (r: Option<(Vec<String>, CheckAction)>)
        ensures
            match check_next(old(self).phase, event) {
                Some((lines, action, phase)) => (r matches Some(did) && text::views(did.0@) == lines
                    && did.1@ == action) && final(self).phase == phase,
                None => r is None && final(self).phase == old(self).phase,
            },
    {
        let mut lines: Vec<String> = Vec::new();
        assert(text::views(lines@) =~= Seq::<Seq<char>>::empty());
        let ghost expected = check_next(self.phase, event);
        let (action, phase) = match (self.phase, event) {
            (CheckPhase::Finding, CheckEvent::BrowserFound(Ok(path))) => {
                add_line(&mut lines, "executable     ", path.as_str());
                (CheckAction::Provision, CheckPhase::Provisioning)
            },
            (CheckPhase::Finding, CheckEvent::BrowserFound(Err(e))) => (
                CheckAction::Fail(e.message()),
                CheckPhase::Over,
            ),
            (CheckPhase::Provisioning, CheckEvent::Provisioned(Ok(dir))) => {
                add_line(&mut lines, "user data dir  ", dir.as_str());
                (CheckAction::Launch, CheckPhase::Launching)
            },
            (CheckPhase::Provisioning, CheckEvent::Provisioned(Err(e))) => (
                CheckAction::Fail(line("provision session dir: ", e.as_str())),
                CheckPhase::Over,
            ),
            (CheckPhase::Launching, CheckEvent::Launched(Ok(b))) => {
                add_line(&mut lines, "pid            ", text::signed_decimal(b.pid as i64).as_str());
                add_line(&mut lines, "product        ", b.version.product.as_str());
                add_line(&mut lines, "protocol       ", b.version.protocol_version.as_str());
                add_line(
                    &mut lines,
                    "cdp ready in   ",
                    line(text::decimal(b.ready_ms).as_str(), " ms").as_str(),
                );
                (CheckAction::TearDown, CheckPhase::TearingDown)
            },
            (CheckPhase::Launching, CheckEvent::Launched(Err(e))) => {
                let mut message = line("launch failed: ", e.message().as_str());
                if let Some(hint) = e.remediation() {
                    message.append("\n\nhint: ");
                    message.append(hint);
                }
                (CheckAction::RemoveAndFail(message), CheckPhase::Over)
            },
            (CheckPhase::TearingDown, CheckEvent::TornDown(report)) => {
                let mut said = line("graceful=", flag(report.graceful));
                said.append(" sigkill=");
                said.append(flag(report.escalated_sigkill));
                said.append(" reaped=");
                said.append(flag(report.reaped));
                said.append(" exit=");
                match &report.exit_status {
                    Some(status) => said.append(status.as_str()),
                    None => said.append("unknown"),
                }
                add_line(&mut lines, "teardown       ", said.as_str());
                (CheckAction::Remove, CheckPhase::Removing(report.reaped))
            },
            (CheckPhase::Removing(reaped), CheckEvent::Removed(Ok(_))) => {
                add_text(&mut lines, "session dir    removed");
                add_text(
                    &mut lines,
                    if reaped {
                        "check          PASS"
                    } else {
                        "check          FAIL: browser was not reaped"
                    },
                );
                (CheckAction::Finish(reaped), CheckPhase::Over)
            },
            (CheckPhase::Removing(_), CheckEvent::Removed(Err(e))) => (
                CheckAction::Fail(line("session dir teardown: ", e.as_str())),
                CheckPhase::Over,
            ),
            _ => {
                return None;
            },
        };
        proof {
            let (said, _, _) = expected->0;
            assert(text::views(lines@) =~= said);
        }
        self.phase = phase;
        Some((lines, action))
    }
}

/// A check passes only by removing what a browser left that was reaped, and
/// gets there only by tearing down a browser that was reaped.
pub proof fn check_passes_only_when_reaped(phase: CheckPhase, event: CheckEvent)
    ensures
        check_next(phase, event) matches Some((_, action, _)) && action == CheckActionView::Finish(
            true,
        ) ==> phase == CheckPhase::Removing(true),
        check_next(phase, event) matches Some((_, _, to)) && to == CheckPhase::Removing(true) ==> (
        event matches CheckEvent::TornDown(report) && report.reaped),
{
}

} // verus!
