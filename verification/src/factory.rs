//! The pool's session factory: tier-aware Chrome launches.
//!
//! The factory knows what every launch of this host has in common and decides
//! each step of preparing the profile template, provisioning a session and
//! isolating it; its owner performs the steps.

use crate::capacity::SessionFootprint;
use crate::chrome::launch::{BrowserVersion, LaunchError, LaunchSpec};
use crate::config::RuntimeConfig;
use crate::linux::cgroup::{Cgroup, FileWrite};
use crate::linux::tiers::{MemCapTier, Tiers};
use crate::paths;
use crate::profile::TreeCopy;
use crate::session_dirs;
use crate::session_dirs::SessionDirs;
use crate::template;
use crate::text;
use vstd::prelude::*;

verus! {

/// Milliseconds between two looks at a session's memory.
pub const RSS_POLL_INTERVAL_MS: u64 = 3_000;

/// Whether a character stays in a browser key.
pub open spec fn key_char(c: char) -> bool {
    ('0' <= c && c <= '9') || ('a' <= c && c <= 'z') || ('A' <= c && c <= 'Z') || c == '.' || c
        == '-'
}

/// The lower-case form of an ASCII letter.
pub open spec fn lower(c: char) -> char {
    if 'A' <= c && c <= 'Z' {
        (c as u32 + 32) as char
    } else {
        c
    }
}

/// A product string as a directory name: slashes become hyphens, what is
/// neither an ASCII letter or digit nor a dot or hyphen goes, and letters are
/// lower case.
pub open spec fn cleaned(product: Seq<char>) -> Seq<char>
    decreases product.len(),
{
    if product.len() == 0 {
        Seq::empty()
    } else {
        let before = cleaned(product.drop_last());
        let c = product.last();
        if c == '/' {
            before.push('-')
        } else if key_char(c) {
            before.push(lower(c))
        } else {
            before
        }
    }
}

/// The key of a browser build.
pub open spec fn key_of(product: Seq<char>) -> Seq<char> {
    let name = cleaned(product);
    if name.len() == 0 {
        "chrome-unknown"@
    } else {
        name
    }
}

fn lower_char(c: char) -> (r: char)
    ensures
        r == lower(c),
{
    if 'A' <= c && c <= 'Z' {
        match char::from_u32(c as u32 + 32) {
            Some(l) => {
                proof {
                    vstd::utf8::char_u32_cast(l, (c as u32 + 32) as u32);
                }
                l
            },
            None => c,
        }
    } else {
        c
    }
}

/// The key of a browser build, from the version it reports.
pub fn browser_key(version: &BrowserVersion) -> (r: String)
    ensures
        r@ == key_of(version.product@),
{
    let cs = text::chars_of(version.product.as_str());
    let mut out = String::new();
    let mut i: usize = 0;
    assert(cs@.take(0) =~= Seq::empty());
    while i < cs.len()
        invariant
            i <= cs@.len(),
            out@ == cleaned(cs@.take(i as int)),
        decreases cs.len() - i,
    {
        let c: char = cs[i];
        proof {
            assert(cs@.take(i + 1).drop_last() =~= cs@.take(i as int));
            assert(cs@.take(i + 1).last() == c);
        }
        if c == '/' {
            out.push('-');
        } else if ('0' <= c && c <= '9') || ('a' <= c && c <= 'z') || ('A' <= c && c <= 'Z') || c
            == '.' || c == '-' {
            out.push(lower_char(c));
        }
        i += 1;
    }
    assert(cs@.take(i as int) =~= cs@);
    if out.as_str().unicode_len() == 0 {
        "chrome-unknown".to_owned()
    } else {
        out
    }
}

/// A key names one directory entry: it has characters, and no separator.
pub proof fn key_is_a_name(product: Seq<char>)
    ensures
        key_of(product).len() > 0,
        !key_of(product).contains('/'),
{
    reveal_strlit("chrome-unknown");
    cleaned_has_no_slash(product);
}

proof fn cleaned_has_no_slash(product: Seq<char>)
    ensures
        !cleaned(product).contains('/'),
    decreases product.len(),
{
    if product.len() > 0 {
        cleaned_has_no_slash(product.drop_last());
        let before = cleaned(product.drop_last());
        let all = cleaned(product);
        assert forall|i: int| 0 <= i < all.len() implies all[i] != '/' by {
            if i < before.len() {
                assert(all[i] == before[i]);
                assert(before.contains(before[i]));
            }
        }
    }
}

/// The base cgroup of sessions: a pre-delegated directory, else the leaf
/// `browserserve` below the own cgroup, if that could be created.
pub fn prepare_cgroup_base(delegated: Option<&str>, own: Option<&str>, created: bool) -> (r: Option<
    String,
>)
    ensures
        text::opt_view(r) == (match delegated {
            Some(dir) => Some(dir@),
            None => match own {
                Some(base) if created => Some(paths::join_of(base@, "browserserve"@)),
                _ => None,
            },
        }),
{
    match delegated {
        Some(dir) => Some(dir.to_owned()),
        None => match own {
            Some(base) => if created {
                Some(paths::join(base, "browserserve"))
            } else {
                None
            },
            None => None,
        },
    }
}

/// Launches and destroys sessions with the host's best isolation tier.
#[derive(Debug)]
pub struct ChromeFactory {
    /// The validated browser executable.
    pub executable: String,
    /// Launch with `--no-sandbox`.
    pub no_sandbox: bool,
    /// Extra flags appended after the built-in set.
    pub extra_flags: Vec<String>,
    /// Budget for a browser to become CDP-ready, in milliseconds.
    pub launch_timeout_ms: u64,
    /// Cap on a single CDP message.
    pub max_frame_bytes: usize,
    /// Milliseconds between SIGTERM and SIGKILL.
    pub kill_grace_ms: u64,
    /// Memory cap of a session in bytes; zero means none.
    pub memory_max_bytes: u64,
    /// Where per-session state lives.
    pub data_dir: String,
    /// The detected isolation tiers.
    pub tiers: Tiers,
    /// The version reported by the most recent launch.
    pub version: Option<BrowserVersion>,
    /// The sealed profile template.
    pub template_dir: Option<String>,
    /// What the warmed template browser used.
    pub footprint: Option<SessionFootprint>,
    /// The base cgroup of sessions.
    pub cgroup_base: Option<String>,
}

/// Bytes in `mb` mebibytes, at most `u64::MAX`.
pub open spec fn mebibytes(mb: u64) -> nat {
    if mb * 1_048_576 > u64::MAX {
        u64::MAX as nat
    } else {
        (mb * 1_048_576) as nat
    }
}

impl ChromeFactory {
    /// Builds a factory from resolved config, a validated executable, the
    /// detected isolation tiers and the base cgroup, which only a hard memory
    /// cap uses.
    pub fn new(
        config: &RuntimeConfig,
        executable: String,
        tiers: Tiers,
        cgroup_base: Option<String>,
    ) -> (r: ChromeFactory)
        ensures
            r.executable == executable,
            r.no_sandbox == config.chrome.no_sandbox,
            text::views(r.extra_flags@) == text::views(config.chrome.extra_flags@),
            r.launch_timeout_ms == config.chrome.launch_timeout_ms,
            r.max_frame_bytes == config.chrome.max_frame_bytes,
            r.kill_grace_ms == config.session.kill_grace_ms,
            r.memory_max_bytes == mebibytes(config.session.memory_max_mb),
            r.data_dir@ == config.data_dir@,
            r.tiers == tiers,
            r.version is None,
            r.template_dir is None,
            r.footprint is None,
            r.cgroup_base == (if tiers.memcap is Cgroup {
                cgroup_base
            } else {
                None
            }),
    {
        let hard_cap = match tiers.memcap {
            MemCapTier::Cgroup => true,
            _ => false,
        };
        let mut extra_flags: Vec<String> = Vec::new();
        let ghost all = text::views(config.chrome.extra_flags@);
        let mut i: usize = 0;
        while i < config.chrome.extra_flags.len()
            invariant
                i <= config.chrome.extra_flags@.len(),
                all == text::views(config.chrome.extra_flags@),
                text::views(extra_flags@) == all.take(i as int),
            decreases config.chrome.extra_flags.len() - i,
        {
            let ghost before = extra_flags@;
            extra_flags.push(config.chrome.extra_flags[i].clone());
            assert(text::views(extra_flags@) =~= text::views(before).push(all[i as int]));
            assert(text::views(extra_flags@) =~= all.take(i + 1));
            i += 1;
        }
        assert(all.take(i as int) =~= all);
        ChromeFactory {
            executable,
            no_sandbox: config.chrome.no_sandbox,
            extra_flags,
            launch_timeout_ms: config.chrome.launch_timeout_ms,
            max_frame_bytes: config.chrome.max_frame_bytes,
            kill_grace_ms: config.session.kill_grace_ms,
            memory_max_bytes: match config.session.memory_max_mb.checked_mul(1_048_576) {
                Some(bytes) => bytes,
                None => u64::MAX,
            },
            data_dir: config.data_dir.clone(),
            tiers,
            version: None,
            template_dir: None,
            footprint: None,
            cgroup_base: if hard_cap {
                cgroup_base
            } else {
                None
            },
        }
    }

    /// The browser version reported by the most recent launch, if any yet.
    pub fn cached_version(&self) -> (r: Option<BrowserVersion>)
        ensures
            r == self.version,
    {
        match &self.version {
            Some(v) => Some(v.clone()),
            None => None,
        }
    }

    /// Records a browser version.
    pub fn note_version(&mut self, version: &BrowserVersion)
        ensures
            *final(self) == (ChromeFactory { version: Some(*version), ..*old(self) }),
    {
        self.version = Some(version.clone());
    }

    /// The measured process-tree footprint of the warmed template browser, if
    /// this host could measure one.
    pub fn template_footprint(&self) -> (r: Option<SessionFootprint>)
        ensures
            r == self.footprint,
    {
        self.footprint
    }

    /// What a launch on this profile directory needs.
    pub fn launch_spec<'a>(&'a self, user_data_dir: &'a str) -> (r: LaunchSpec<'a>)
        ensures
            r.executable@ == self.executable@,
            r.user_data_dir@ == user_data_dir@,
            r.no_sandbox == self.no_sandbox,
            *r.extra_flags == self.extra_flags,
            r.launch_timeout_ms == self.launch_timeout_ms,
            r.max_frame_bytes == self.max_frame_bytes,
    {
        LaunchSpec {
            executable: self.executable.as_str(),
            user_data_dir,
            no_sandbox: self.no_sandbox,
            extra_flags: &self.extra_flags,
            launch_timeout_ms: self.launch_timeout_ms,
            max_frame_bytes: self.max_frame_bytes,
        }
    }

    /// How a session gets its directories: a clone of the template if there is
    /// one, an empty tree otherwise or if the clone fails.
    pub fn provision_dirs(&self, id: &str, event: ProvisionEvent) -> (r: ProvisionAction)
        ensures
            match event {
                ProvisionEvent::Start => match self.template_dir {
                    Some(dir) => r matches ProvisionAction::Clone(copy, dirs) && copy.from@ == dir@
                        && copy.to@ == dirs.user_data_dir@ && copy.reflink == (
                    self.tiers.profile is Reflink) && dirs.belong_to(self.data_dir@, id@),
                    None => r matches ProvisionAction::Make(dirs) && dirs.belong_to(
                        self.data_dir@,
                        id@,
                    ),
                },
                ProvisionEvent::Cloned(true) => r matches ProvisionAction::Use(dirs)
                    && dirs.belong_to(self.data_dir@, id@),
                ProvisionEvent::Cloned(false) => r matches ProvisionAction::Make(dirs)
                    && dirs.belong_to(self.data_dir@, id@),
                ProvisionEvent::Made(Ok(_)) => r matches ProvisionAction::Use(dirs)
                    && dirs.belong_to(self.data_dir@, id@),
                ProvisionEvent::Made(Err(e)) => r matches ProvisionAction::Fail(m) && m@
                    == "session dir provisioning failed: "@ + e@,
            },
    {
        let dirs = SessionDirs::provision_plain(self.data_dir.as_str(), id);
        match event {
            ProvisionEvent::Start => match &self.template_dir {
                Some(dir) => {
                    let copy = template::clone_template(
                        dir.as_str(),
                        dirs.user_data_dir.as_str(),
                        self.tiers.profile,
                    );
                    ProvisionAction::Clone(copy, dirs)
                },
                None => ProvisionAction::Make(dirs),
            },
            ProvisionEvent::Cloned(ok) => if ok {
                ProvisionAction::Use(dirs)
            } else {
                ProvisionAction::Make(dirs)
            },
            ProvisionEvent::Made(Ok(_)) => ProvisionAction::Use(dirs),
            ProvisionEvent::Made(Err(e)) => {
                let mut m = "session dir provisioning failed: ".to_owned();
                m.append(e.as_str());
                ProvisionAction::Fail(m)
            },
        }
    }

    /// The id of a new session, unless the system has no randomness for it.
    pub fn new_session(&self) -> (r: Option<String>)
        ensures
            r matches Some(id) ==> session_dirs::id_shaped(id@),
    {
        session_dirs::new_session_id()
    }

    /// What is written to isolate a launched browser in a cgroup leaf of its
    /// own, if there is a base for it: the memory cap unless there is none, and
    /// the move of the process.
    pub fn apply_cgroup(&self, pid: i32) -> (r: Option<CgroupPlan>)
        ensures
            r is Some <==> self.cgroup_base is Some,
            r matches Some(plan) ==> plan.isolates(*self, pid),
    {
        let base = match &self.cgroup_base {
            Some(base) => base,
            None => {
                return None;
            },
        };
        let mut name = "session-".to_owned();
        name.append(text::signed_decimal(pid as i64).as_str());
        let leaf = Cgroup::create(base.as_str(), name.as_str());
        let memory = if self.memory_max_bytes > 0 {
            Some(leaf.set_memory_max(self.memory_max_bytes))
        } else {
            None
        };
        let attach = leaf.attach(pid);
        Some(CgroupPlan { leaf, memory, attach })
    }

    /// What follows the launch of a session's browser: isolation of the process
    /// if it launched, whose version is noted; otherwise the removal of its
    /// directories and the error.
    pub fn launched(&mut self, outcome: Result<(i32, BrowserVersion), LaunchError>) -> (r: CreateStep)
        ensures
            match outcome {
                Ok((pid, version)) => {
                    &&& *final(self) == (ChromeFactory { version: Some(version), ..*old(self) })
                    &&& r matches CreateStep::Isolate(plan) && (plan is Some <==> old(
                        self).cgroup_base is Some) && (plan matches Some(p) ==> p.isolates(
                        *old(self),
                        pid,
                    ))
                },
                Err(e) => {
                    &&& *final(self) == *old(self)
                    &&& r matches CreateStep::RemoveAndFail(m) && m@ == failure_of(e)
                },
            },
    {
        match outcome {
            Ok((pid, version)) => {
                self.note_version(&version);
                CreateStep::Isolate(self.apply_cgroup(pid))
            },
            Err(e) => CreateStep::RemoveAndFail(launch_failure(&e)),
        }
    }

    /// The soft memory cap to watch a session by, if one applies: there is a
    /// cap, no cgroup enforces it, and the tier says that it is polled.
    pub fn soft_cap(&self, has_cgroup: bool) -> (r: Option<u64>)
        ensures
            r == (if self.memory_max_bytes > 0 && !has_cgroup && self.tiers.memcap is RssPoll {
                Some(self.memory_max_bytes)
            } else {
                None
            }),
    {
        let polled = match self.tiers.memcap {
            MemCapTier::RssPoll => true,
            _ => false,
        };
        if self.memory_max_bytes == 0 || has_cgroup || !polled {
            None
        } else {
            Some(self.memory_max_bytes)
        }
    }
}

/// What is written to isolate a browser in a cgroup leaf.
#[derive(Debug)]
pub struct CgroupPlan {
    /// The leaf, whose directory is created first.
    pub leaf: Cgroup,
    /// The memory cap, if there is one.
    pub memory: Option<FileWrite>,
    /// The move of the process.
    pub attach: FileWrite,
}

impl CgroupPlan {
    /// Whether the plan isolates this process by the factory's rules: a leaf of
    /// its own below the base, the memory cap unless there is none, and the
    /// move of the process.
    pub open spec fn isolates(self, factory: ChromeFactory, pid: i32) -> bool {
        &&& factory.cgroup_base is Some
        &&& self.leaf.dir@ == paths::join_of(
            factory.cgroup_base->0@,
            "session-"@ + text::signed_decimal_of(pid as int),
        )
        &&& self.memory is Some <==> factory.memory_max_bytes > 0
        &&& self.memory matches Some(w) ==> w.path@ == paths::join_of(
            self.leaf.dir@,
            "memory.max"@,
        ) && w.value@ == text::decimal_of(factory.memory_max_bytes as nat)
        &&& self.attach.path@ == paths::join_of(self.leaf.dir@, "cgroup.procs"@)
        &&& self.attach.value@ == text::signed_decimal_of(pid as int)
    }
}

/// What a provisioning learns.
#[derive(Debug)]
pub enum ProvisionEvent {
    /// Nothing yet.
    Start,
    /// Whether the template was cloned.
    Cloned(bool),
    /// Whether the empty tree was made.
    Made(Result<(), String>),
}

/// What a provisioning does next.
#[derive(Debug)]
pub enum ProvisionAction {
    /// Clone the template into the session's directories.
    Clone(TreeCopy, SessionDirs),
    /// Make the session's directories, empty.
    Make(SessionDirs),
    /// The session's directories are there.
    Use(SessionDirs),
    /// They are not.
    Fail(String),
}

/// What a look at a session's memory leads to.
#[derive(Debug, Clone, Copy, PartialEq, Eq, Structural)]
pub enum SoftCap {
    /// The cap is exceeded: kill the process group and stop looking.
    Kill,
    /// Look again later.
    Keep,
    /// The process is gone: stop looking.
    Stop,
}

/// What a look at a session's memory leads to.
pub fn soft_cap_step(rss: Option<u64>, cap: u64) -> (r: SoftCap)
    ensures
        r == (match rss {
            Some(n) => if n > cap {
                SoftCap::Kill
            } else {
                SoftCap::Keep
            },
            None => SoftCap::Stop,
        }),
{
    match rss {
        Some(n) => if n > cap {
            SoftCap::Kill
        } else {
            SoftCap::Keep
        },
        None => SoftCap::Stop,
    }
}

/// What follows the launch of a session's browser.
#[derive(Debug)]
pub enum CreateStep {
    /// The browser is ready; isolate it in a cgroup leaf if there is one.
    Isolate(Option<CgroupPlan>),
    /// Remove the session's directories and report this.
    RemoveAndFail(String),
}

/// What a failed session launch says: the error, and a hint where one applies.
pub open spec fn failure_of(e: LaunchError) -> Seq<char> {
    match e.hint() {
        Some(hint) => e.says() + "\nhint: "@ + hint,
        None => e.says(),
    }
}

/// What a failed session launch says.
pub fn launch_failure(e: &LaunchError) -> (r: String)
    ensures
        r@ == failure_of(*e),
{
    let mut message = e.message();
    if let Some(hint) = e.remediation() {
        message.append("\nhint: ");
        message.append(hint);
    }
    message
}

/// The steps of a session's destruction.
#[derive(Debug, Clone, Copy, PartialEq, Eq, Structural)]
pub enum DestroyStep {
    /// Stop watching its memory.
    StopMonitor,
    /// Kill its cgroup subtree and remove the leaf.
    KillCgroup,
    /// Tear the browser down; this reaps the direct child and is the universal
    /// fallback.
    Teardown,
    /// Remove its directories.
    RemoveDirs,
}

/// The steps of a session's destruction, in order.
pub fn destroy_steps(has_monitor: bool, has_cgroup: bool) -> (r: Vec<DestroyStep>)
    ensures
        r@ == (if has_monitor {
            seq![DestroyStep::StopMonitor]
        } else {
            Seq::empty()
        }) + (if has_cgroup {
            seq![DestroyStep::KillCgroup]
        } else {
            Seq::empty()
        }) + seq![DestroyStep::Teardown, DestroyStep::RemoveDirs],
{
    let mut steps: Vec<DestroyStep> = Vec::new();
    if has_monitor {
        steps.push(DestroyStep::StopMonitor);
    }
    if has_cgroup {
        steps.push(DestroyStep::KillCgroup);
    }
    steps.push(DestroyStep::Teardown);
    steps.push(DestroyStep::RemoveDirs);
    steps
}

/// Where the building of the profile template stands.
#[derive(Debug, Clone, Copy, PartialEq, Eq, Structural)]
pub enum TemplatePhase {
    /// The scratch directories are being made.
    Scratch,
    /// The browser is being launched on them.
    Launching,
    /// The browser is being torn down.
    Closing,
    /// The profile is being stripped of per-instance state.
    Stripping,
    /// It is being moved to the template's place.
    Moving,
    /// The scratch directories are being removed.
    Cleaning,
    /// Done.
    Over,
}

/// What a launched browser is measured to be.
#[derive(Debug)]
pub struct Measured {
    /// The version it reported.
    pub version: BrowserVersion,
    /// Resident bytes of its process tree, if they could be read.
    pub rss: Option<u64>,
    /// Threads of its process tree, if they could be read.
    pub threads: Option<u64>,
}

/// What the building of a template learns.
#[derive(Debug)]
pub enum TemplateEvent {
    /// Whether the scratch directories were made.
    Scratch(bool),
    /// The launched browser, if it launched.
    Launched(Option<Measured>),
    /// The browser is gone.
    Closed,
    /// Whether the stripping ran.
    Stripped(bool),
    /// Whether the profile was moved.
    Moved(bool),
    /// The scratch directories are gone, or cannot be removed.
    Cleaned,
}

/// What the building of a template does next.
#[derive(Debug)]
pub enum TemplateAction {
    /// Make the scratch directories.
    MakeScratch,
    /// Launch a browser on them and measure it.
    Launch,
    /// Tear the browser down.
    Close,
    /// Remove the old template and these paths of the scratch profile.
    Strip {
        /// Where the template goes.
        template: String,
        /// What is removed.
        remove: Vec<String>,
    },
    /// Move the scratch profile to the template's place.
    Move {
        /// The scratch profile.
        from: String,
        /// The template's place.
        to: String,
    },
    /// Remove the scratch directories.
    Clean,
    /// Nothing more; on any failure sessions launch on empty directories.
    Done,
}

/// The footprint that a measurement shows, if it shows any.
pub open spec fn footprint_of(rss: Option<u64>, threads: Option<u64>) -> Option<SessionFootprint> {
    let bytes = match rss {
        Some(n) => n,
        None => 0,
    };
    let count = match threads {
        Some(n) => n,
        None => 0,
    };
    if bytes > 0 || count > 0 {
        Some(SessionFootprint { bytes, threads: count })
    } else {
        None
    }
}

/// The footprint that a measurement shows, if it shows any.
pub fn footprint(rss: Option<u64>, threads: Option<u64>) -> (r: Option<SessionFootprint>)
    ensures
        r == footprint_of(rss, threads),
{
    let bytes: u64 = match rss {
        Some(n) => n,
        None => 0,
    };
    let count: u64 = match threads {
        Some(n) => n,
        None => 0,
    };
    if bytes > 0 || count > 0 {
        Some(SessionFootprint { bytes, threads: count })
    } else {
        None
    }
}

/// Builds the warmed, sealed profile template once, so later sessions clone it
/// instead of paying Chrome's first-run cost. Best-effort: on any failure the
/// factory keeps launching on empty dirs.
#[derive(Debug)]
pub struct TemplateBuild {
    /// Where it stands.
    pub phase: TemplatePhase,
    /// The scratch directories.
    pub scratch: SessionDirs,
    /// Where the template goes, once the browser build is known.
    pub template: String,
}

impl TemplateBuild {
    /// Begins building, unless the factory has a template.
    pub fn begin(factory: &ChromeFactory, id: &str) -> (r: (TemplateBuild, TemplateAction))
        ensures
            r.0.scratch.belong_to(factory.data_dir@, id@),
            factory.template_dir is Some ==> r.0.phase is Over && r.1 is Done,
            factory.template_dir is None ==> r.0.phase is Scratch && r.1 is MakeScratch,
    {
        let scratch = SessionDirs::provision_plain(factory.data_dir.as_str(), id);
        if factory.template_dir.is_some() {
            (
                TemplateBuild { phase: TemplatePhase::Over, scratch, template: String::new() },
                TemplateAction::Done,
            )
        } else {
            (
                TemplateBuild { phase: TemplatePhase::Scratch, scratch, template: String::new() },
                TemplateAction::MakeScratch,
            )
        }
    }

    /// Whether the event is one that this phase waits for.
    pub open spec fn expects(self, event: TemplateEvent) -> bool {
        match self.phase {
            TemplatePhase::Scratch => event is Scratch,
            TemplatePhase::Launching => event is Launched,
            TemplatePhase::Closing => event is Closed,
            TemplatePhase::Stripping => event is Stripped,
            TemplatePhase::Moving => event is Moved,
            TemplatePhase::Cleaning => event is Cleaned,
            TemplatePhase::Over => false,
        }
    }

    /// Something happened. The factory learns the version and the footprint of
    /// the launched browser, and the template once it is in its place.
    pub fn step(&mut self, factory: &mut ChromeFactory, event: TemplateEvent) -> (r: TemplateAction)
        ensures
            final(self).scratch == old(self).scratch,
            !old(self).expects(event) ==> r is Done && *final(self) == *old(self) && *final(factory)
                == *old(factory),
            old(self).expects(event) ==> match event {
                TemplateEvent::Scratch(ok) => {
                    &&& *final(factory) == *old(factory)
                    &&& ok ==> r is Launch && final(self).phase is Launching
                    &&& !ok ==> r is Done && final(self).phase is Over
                },
                TemplateEvent::Launched(None) => {
                    &&& *final(factory) == *old(factory)
                    &&& r is Clean
                    &&& final(self).phase is Cleaning
                },
                TemplateEvent::Launched(Some(m)) => {
                    &&& r is Close
                    &&& final(self).phase is Closing
                    &&& final(self).template@ == paths::join_of(
                        template::templates_in(old(factory).data_dir@),
                        key_of(m.version.product@),
                    )
                    &&& *final(factory) == (ChromeFactory {
                        version: Some(m.version),
                        footprint: match footprint_of(m.rss, m.threads) {
                            Some(f) => Some(f),
                            None => old(factory).footprint,
                        },
                        ..*old(factory)
                    })
                },
                TemplateEvent::Closed => {
                    &&& *final(factory) == *old(factory)
                    &&& r matches TemplateAction::Strip { template, remove } && template@ == old(
                        self).template@ && text::views(remove@) == template::stripped(
                        old(self).scratch.user_data_dir@,
                    )
                    &&& final(self).phase is Stripping
                    &&& final(self).template == old(self).template
                },
                TemplateEvent::Stripped(true) => {
                    &&& *final(factory) == *old(factory)
                    &&& r matches TemplateAction::Move { from, to } && from@ == old(
                        self).scratch.user_data_dir@ && to@ == old(self).template@
                    &&& final(self).phase is Moving
                    &&& final(self).template == old(self).template
                },
                TemplateEvent::Stripped(false) => {
                    &&& *final(factory) == *old(factory)
                    &&& r is Clean
                    &&& final(self).phase is Cleaning
                },
                TemplateEvent::Moved(true) => {
                    &&& *final(factory) == (ChromeFactory {
                        template_dir: Some(old(self).template),
                        ..*old(factory)
                    })
                    &&& r is Clean
                    &&& final(self).phase is Cleaning
                },
                TemplateEvent::Moved(false) => {
                    &&& *final(factory) == *old(factory)
                    &&& r is Clean
                    &&& final(self).phase is Cleaning
                },
                TemplateEvent::Cleaned => {
                    &&& *final(factory) == *old(factory)
                    &&& r is Done
                    &&& final(self).phase is Over
                },
            },
    {
        match (self.phase, event) {
            (TemplatePhase::Scratch, TemplateEvent::Scratch(ok)) => {
                if ok {
                    self.phase = TemplatePhase::Launching;
                    TemplateAction::Launch
                } else {
                    self.phase = TemplatePhase::Over;
                    TemplateAction::Done
                }
            },
            (TemplatePhase::Launching, TemplateEvent::Launched(None)) => {
                self.phase = TemplatePhase::Cleaning;
                TemplateAction::Clean
            },
            (TemplatePhase::Launching, TemplateEvent::Launched(Some(m))) => {
                let key = browser_key(&m.version);
                self.template = template::template_path(factory.data_dir.as_str(), key.as_str());
                factory.note_version(&m.version);
                if let Some(f) = footprint(m.rss, m.threads) {
                    factory.footprint = Some(f);
                }
                self.phase = TemplatePhase::Closing;
                TemplateAction::Close
            },
            (TemplatePhase::Closing, TemplateEvent::Closed) => {
                self.phase = TemplatePhase::Stripping;
                TemplateAction::Strip {
                    template: self.template.clone(),
                    remove: template::strip_for_seal(self.scratch.user_data_dir.as_str()),
                }
            },
            (TemplatePhase::Stripping, TemplateEvent::Stripped(ok)) => {
                if ok {
                    self.phase = TemplatePhase::Moving;
                    TemplateAction::Move {
                        from: self.scratch.user_data_dir.clone(),
                        to: self.template.clone(),
                    }
                } else {
                    self.phase = TemplatePhase::Cleaning;
                    TemplateAction::Clean
                }
            },
            (TemplatePhase::Moving, TemplateEvent::Moved(ok)) => {
                if ok {
                    factory.template_dir = Some(self.template.clone());
                }
                self.phase = TemplatePhase::Cleaning;
                TemplateAction::Clean
            },
            (TemplatePhase::Cleaning, TemplateEvent::Cleaned) => {
                self.phase = TemplatePhase::Over;
                TemplateAction::Done
            },
            _ => TemplateAction::Done,
        }
    }
}

} // verus!
