//! The WS session endpoint: auth, admission, claim, bridge, destroy.

use crate::config::{PressureConfig, SessionConfig};
use crate::pool::ClaimError;
use crate::pressure;
use crate::pressure::Excess;
use crate::profile::cdp::OriginState;
use crate::profile::cookie::Cookie;
use crate::profile::manifest::ManifestEntry;
use crate::profile::payload::ProfilePayload;
use crate::server::auth;
use crate::server::http;
use crate::server::http::{LoadReport, Param, Reply};
use crate::server::profiles::{ProfileStore, Slot};
use crate::text;
use vstd::prelude::*;

verus! {

/// How long a browser gets to flush its storage and exit, in milliseconds.
pub const CLOSE_BUDGET_MS: u64 = 3_000;

/// The short reason of a claim failure.
pub open spec fn claim_reason(e: ClaimError) -> Seq<char> {
    match e {
        ClaimError::QueueFull { .. } => "queue_full"@,
        ClaimError::QueueTimeout { .. } => "queue_timeout"@,
        ClaimError::Closed => "draining"@,
        ClaimError::Launch { .. } => "launch_failed"@,
    }
}

/// Maps a claim failure to its HTTP status and short reason. Every variant is a
/// transient capacity/lifecycle condition the client should retry, so all map to
/// 503 (never 500): a browser that fails to launch (e.g. the container's
/// `pids.max` is exhausted) is the server being at capacity, not a server bug.
pub fn claim_status(e: &ClaimError) -> (r: (u16, &'static str))
    ensures
        r.0 == http::SERVICE_UNAVAILABLE,
        r.1@ == claim_reason(*e),
{
    let reason = match e {
        ClaimError::QueueFull { .. } => "queue_full",
        ClaimError::QueueTimeout { .. } => "queue_timeout",
        ClaimError::Closed => "draining",
        ClaimError::Launch { .. } => "launch_failed",
    };
    (http::SERVICE_UNAVAILABLE, reason)
}

/// What a client is answered whose claim failed.
pub fn claim_failed(e: &ClaimError) -> (r: Reply)
    ensures
        r.status == http::SERVICE_UNAVAILABLE,
        r.body@ == http::rejection(claim_reason(*e), e.says()),
{
    let (status, reason) = claim_status(e);
    http::reject(status, reason, e.message().as_str())
}

/// What a client is answered whose seeded browser did not launch.
pub fn seed_failed(message: &str) -> (r: Reply)
    ensures
        r.status == http::SERVICE_UNAVAILABLE,
        r.body@ == http::rejection("launch_failed"@, message@),
{
    http::reject(http::SERVICE_UNAVAILABLE, "launch_failed", message)
}

/// What a client is answered whose browser cannot be talked to.
pub fn no_transport() -> (r: Reply)
    ensures
        r.status == http::INTERNAL_SERVER_ERROR,
        r.body@ == http::rejection("internal"@, "claimed browser had no transport"@),
{
    http::reject(http::INTERNAL_SERVER_ERROR, "internal", "claimed browser had no transport")
}

/// What a connection request leads to.
pub enum WsStep {
    /// It is answered at once, without a session.
    Reply(Reply),
    /// It gets a fresh browser that is seeded with a profile. This bypasses the
    /// warm pool (a warm browser is already launched, so its user-data-dir
    /// cannot be seeded before start).
    Seeded {
        /// The token of the profile.
        token: String,
        /// The profile.
        payload: ProfilePayload,
        /// Whether the profile is left as it is when the session ends.
        read_only: bool,
    },
    /// It claims a session from the pool.
    Claim,
}

/// Whether a `readOnly` parameter says yes.
pub open spec fn says_yes(value: Option<Seq<char>>) -> bool {
    value == Some("1"@) || value == Some("true"@) || value == Some("yes"@)
}

fn is_yes(value: Option<&str>) -> (r: bool)
    ensures
        r == says_yes(text::opt_str(value)),
{
    match value {
        Some(v) => text::same(v, "1") || text::same(v, "true") || text::same(v, "yes"),
        None => false,
    }
}

/// How a connection request is dealt with.
pub enum Verdict {
    /// The credentials are not the configured ones.
    Unauthorized,
    /// The host is too busy.
    Pressure(Excess),
    /// The request names this profile.
    Profile(Seq<char>),
    /// The request wants any browser.
    Plain,
}

/// How a connection request is dealt with: credentials come first, then the
/// load of the host, then the profile that it asks for.
pub open spec fn verdict(
    token: Option<Seq<char>>,
    query: Seq<Param>,
    authorization: Option<Seq<char>>,
    report: LoadReport,
    limits: PressureConfig,
) -> Verdict {
    if !auth::may_pass(token, http::param_of(query, "token"@), authorization) {
        Verdict::Unauthorized
    } else if !(pressure::excess_of(report.load, limits) is Nothing) {
        Verdict::Pressure(pressure::excess_of(report.load, limits))
    } else {
        match http::param_of(query, "profileToken"@) {
            Some(t) => Verdict::Profile(t),
            None => Verdict::Plain,
        }
    }
}

/// What a client is told of a host that is too busy.
pub open spec fn busy(excess: Excess, report: LoadReport) -> Seq<char> {
    match excess {
        Excess::Cpu => "cpu at "@ + report.cpu_rounded@ + "%"@,
        _ => "memory at "@ + report.memory_rounded@ + "%"@,
    }
}

fn too_busy(what: &str, rounded: &String) -> (r: Reply)
    ensures
        r.status == http::SERVICE_UNAVAILABLE,
        r.body@ == http::rejection("pressure"@, what@ + rounded@ + "%"@),
{
    let mut detail = what.to_owned();
    detail.append(rounded.as_str());
    detail.append("%");
    http::reject(http::SERVICE_UNAVAILABLE, "pressure", detail.as_str())
}

/// Whether the `k`th parameter is the first of its name, and this is the name.
pub open spec fn first_named(query: Seq<Param>, k: int, name: Seq<char>) -> bool {
    &&& 0 <= k < query.len()
    &&& query[k].name@ == name
    &&& forall|j: int| 0 <= j < k ==> (#[trigger] query[j]).name@ != name
}

/// A parameter has the value that stands with the first of its name.
pub proof fn param_is_the_first_of_its_name(query: Seq<Param>, k: int, name: Seq<char>)
    requires
        first_named(query, k, name),
    ensures
        http::param_of(query, name) == Some(query[k].value@),
    decreases k,
{
    if k > 0 {
        let rest = query.skip(1);
        assert(query[0].name@ != name);
        assert forall|j: int| 0 <= j < k - 1 implies (#[trigger] rest[j]).name@ != name by {
            assert(rest[j] == query[j + 1]);
        }
        param_is_the_first_of_its_name(rest, k - 1, name);
    }
}

/// A parameter that no part of the query names has no value.
pub proof fn param_that_is_not_named_is_absent(query: Seq<Param>, name: Seq<char>)
    requires
        forall|j: int| 0 <= j < query.len() ==> (#[trigger] query[j]).name@ != name,
    ensures
        http::param_of(query, name) is None,
    decreases query.len(),
{
    if query.len() > 0 {
        let rest = query.skip(1);
        assert(query[0].name@ != name);
        assert forall|j: int| 0 <= j < rest.len() implies (#[trigger] rest[j]).name@ != name by {
            assert(rest[j] == query[j + 1]);
        }
        param_that_is_not_named_is_absent(rest, name);
    }
}

proof fn first_of_name(query: Seq<Param>, name: Seq<char>, n: int) -> (k: int)
    requires
        0 <= n <= query.len(),
    ensures
        k < n ==> first_named(query, k, name),
        k == n ==> forall|j: int| 0 <= j < n ==> (#[trigger] query[j]).name@ != name,
        k <= n,
    decreases n,
{
    if n == 0 {
        0
    } else {
        let k = first_of_name(query, name, n - 1);
        if k < n - 1 || query[n - 1].name@ == name {
            k
        } else {
            n
        }
    }
}

proof fn param_and_query(query: Seq<Param>, name: Seq<char>)
    ensures
        http::param_of(query, name) is None ==> forall|j: int|
            0 <= j < query.len() ==> (#[trigger] query[j]).name@ != name,
        http::param_of(query, name) matches Some(v) ==> exists|k: int|
            first_named(query, k, name) && (#[trigger] query[k]).value@ == v,
        forall|k: int|
            first_named(query, k, name) ==> http::param_of(query, name) == Some(
                (#[trigger] query[k]).value@,
            ),
{
    let n = query.len() as int;
    let k = first_of_name(query, name, n);
    if k < n {
        param_is_the_first_of_its_name(query, k, name);
        assert(first_named(query, k, name) && query[k].value@ == query[k].value@);
    } else {
        param_that_is_not_named_is_absent(query, name);
    }
    assert forall|k: int| first_named(query, k, name) implies http::param_of(query, name) == Some(
        (#[trigger] query[k]).value@,
    ) by {
        param_is_the_first_of_its_name(query, k, name);
    }
}

/// `WS /`: one connection, one isolated browser. Decides what a connection
/// request leads to; a profile that it names is claimed for it.
pub fn ws_handler(
    token: Option<&str>,
    query: &Vec<Param>,
    authorization: Option<&str>,
    report: &LoadReport,
    limits: PressureConfig,
    profiles: &mut ProfileStore,
    now: u128,
) -> (r: WsStep)
    requires
        old(profiles).wf(),
    ensures
        final(profiles).wf(),
        match verdict(text::opt_str(token), query@, text::opt_str(authorization), *report, limits) {
            Verdict::Unauthorized => {
                &&& final(profiles)@ == old(profiles)@
                &&& r matches WsStep::Reply(reply) && reply.status == http::UNAUTHORIZED
                    && reply.body@ == http::unauthorized_body()
            },
            Verdict::Pressure(excess) => {
                &&& final(profiles)@ == old(profiles)@
                &&& r matches WsStep::Reply(reply) && reply.status == http::SERVICE_UNAVAILABLE
                    && reply.body@ == http::rejection("pressure"@, busy(excess, *report))
            },
            Verdict::Profile(t) => {
                let (found, store) = old(profiles)@.claimed(t, now);
                &&& final(profiles)@ == store
                &&& match found {
                    Some(p) => r matches WsStep::Seeded { token: tok, payload, read_only }
                        && tok@ == t && payload == p && read_only == says_yes(
                        http::param_of(query@, "readOnly"@),
                    ),
                    None => r matches WsStep::Reply(reply) && reply.status == http::NOT_FOUND
                        && reply.body@ == http::rejection(
                        "unknown_profile_token"@,
                        "no pending profile for this token"@,
                    ),
                }
            },
            Verdict::Plain => final(profiles)@ == old(profiles)@ && r is Claim,
        },
        r matches WsStep::Seeded { token: named, payload, read_only } ==> {
            &&& read_only <==> exists|k: int|
                first_named(query@, k, "readOnly"@) && ((#[trigger] query@[k]).value@ == "1"@
                    || query@[k].value@ == "true"@ || query@[k].value@ == "yes"@)
            &&& exists|k: int|
                first_named(query@, k, "profileToken"@) && (#[trigger] query@[k]).value@ == named@
            &&& old(profiles)@.held.contains_key(named@) && old(profiles)@.held[named@].slot
                == Slot::Pending(payload)
        },
        r is Claim ==> forall|k: int|
            0 <= k < query@.len() ==> (#[trigger] query@[k]).name@ != "profileToken"@,
{
    proof {
        param_and_query(query@, "readOnly"@);
        param_and_query(query@, "profileToken"@);
    }
    if !http::check_auth(token, query, authorization) {
        return WsStep::Reply(http::unauthorized());
    }
    match pressure::excess(report.load, limits) {
        Excess::Cpu => {
            return WsStep::Reply(too_busy("cpu at ", &report.cpu_rounded));
        },
        Excess::Memory => {
            return WsStep::Reply(too_busy("memory at ", &report.memory_rounded));
        },
        Excess::Nothing => {},
    }
    match http::param(query, "profileToken") {
        Some(t) => match profiles.claim(t, now) {
            Some(payload) => WsStep::Seeded {
                token: t.to_owned(),
                payload,
                read_only: is_yes(http::param(query, "readOnly")),
            },
            None => WsStep::Reply(
                http::reject(
                    http::NOT_FOUND,
                    "unknown_profile_token",
                    "no pending profile for this token",
                ),
            ),
        },
        None => WsStep::Claim,
    }
}

/// How long a session may last in milliseconds, unless it is unlimited.
pub fn lifetime(session: SessionConfig) -> (r: Option<u64>)
    ensures
        r == (if session.max_session_ms == 0 {
            None::<u64>
        } else {
            Some(session.max_session_ms)
        }),
{
    if session.max_session_ms == 0 {
        None
    } else {
        Some(session.max_session_ms)
    }
}

/// What happens in a profile session.
pub enum ProfileEvent {
    /// The target was attached under this session id, or that failed.
    Attached(Option<String>),
    /// The cookies were applied, or that failed.
    CookiesApplied,
    /// The storage was applied, or that failed.
    StorageApplied,
    /// The client's connection ended. The pipe is back if the client's side
    /// ended first; not if the browser's did, or if the session was cancelled
    /// or ran out of time.
    Served {
        /// Whether the pipe is back.
        reclaimed: bool,
    },
    /// The cookies were captured, or that failed.
    CookiesCaptured(Option<Vec<Cookie>>),
    /// The browser closed its pipe, or did not within its budget.
    Closed,
    /// The browser and its directories are gone.
    Destroyed,
    /// The browser and its directories are gone; this is what was on its disk.
    NativeCaptured {
        /// Native-layer files.
        indexeddb: Vec<ManifestEntry>,
        /// localStorage, per origin.
        local_storage: Vec<OriginState>,
    },
}

/// What a profile session does next.
pub enum ProfileAction {
    /// Attach to a page target.
    Attach,
    /// Apply the profile's cookies.
    ApplyCookies,
    /// Apply the profile's storage over this session.
    ApplyStorage(String),
    /// Bridge the client until one side ends.
    Serve,
    /// Capture the cookies over the pipe while the browser is alive.
    CaptureCookies,
    /// Ask the browser to close (it flushes its storage to disk before it
    /// exits), and wait until it has closed the pipe, within this many
    /// milliseconds.
    CloseBrowser(u64),
    /// Destroy the browser and its directories.
    Destroy,
    /// Destroy the browser, read its native stores, and remove its directories.
    DestroyCapturingNative,
    /// Deposit the captured profile.
    Deposit(ProfilePayload),
    /// The session is over.
    Done,
}

/// Where a profile session stands.
pub enum ProfilePhase {
    /// It attaches to a page target.
    Attaching,
    /// It applies the cookies.
    ApplyingCookies(String),
    /// It applies the storage.
    ApplyingStorage,
    /// The client is bridged.
    Serving,
    /// It captures the cookies.
    Capturing,
    /// It waits for the browser to close.
    Closing(Vec<Cookie>),
    /// It destroys the browser without a capture.
    Destroying,
    /// It destroys the browser and reads what it leaves; the cookies are there
    /// if they were captured.
    Reading(Option<Vec<Cookie>>),
    /// It is over.
    Over,
}

/// One profile session on its own fresh browser: it is seeded, served, and
/// captured.
pub struct ProfileSession {
    /// Where it stands.
    pub phase: ProfilePhase,
    /// Whether the profile is left as it is.
    pub read_only: bool,
}

/// How many steps are left at most.
pub open spec fn steps_left(phase: ProfilePhase) -> nat {
    match phase {
        ProfilePhase::Attaching => 7,
        ProfilePhase::ApplyingCookies(_) => 6,
        ProfilePhase::ApplyingStorage => 5,
        ProfilePhase::Serving => 4,
        ProfilePhase::Capturing => 3,
        ProfilePhase::Closing(_) => 2,
        ProfilePhase::Destroying => 1,
        ProfilePhase::Reading(_) => 1,
        ProfilePhase::Over => 0,
    }
}

/// The action and the phase that follow an event; nothing, if the event does
/// not belong to the phase.
pub open spec fn session_step(phase: ProfilePhase, read_only: bool, event: ProfileEvent) -> Option<
    (ProfileAction, ProfilePhase),
> {
    match (phase, event) {
        (ProfilePhase::Attaching, ProfileEvent::Attached(Some(sid))) => Some(
            (ProfileAction::ApplyCookies, ProfilePhase::ApplyingCookies(sid)),
        ),
        (ProfilePhase::Attaching, ProfileEvent::Attached(None)) => Some(
            (ProfileAction::Serve, ProfilePhase::Serving),
        ),
        (ProfilePhase::ApplyingCookies(sid), ProfileEvent::CookiesApplied) => Some(
            (ProfileAction::ApplyStorage(sid), ProfilePhase::ApplyingStorage),
        ),
        (ProfilePhase::ApplyingStorage, ProfileEvent::StorageApplied) => Some(
            (ProfileAction::Serve, ProfilePhase::Serving),
        ),
        (ProfilePhase::Serving, ProfileEvent::Served { reclaimed }) => if read_only {
            Some((ProfileAction::Destroy, ProfilePhase::Destroying))
        } else if reclaimed {
            Some((ProfileAction::CaptureCookies, ProfilePhase::Capturing))
        } else {
            Some((ProfileAction::DestroyCapturingNative, ProfilePhase::Reading(None)))
        },
        (ProfilePhase::Closing(cookies), ProfileEvent::Closed) => Some(
            (ProfileAction::DestroyCapturingNative, ProfilePhase::Reading(Some(cookies))),
        ),
        (ProfilePhase::Destroying, ProfileEvent::Destroyed) => Some(
            (ProfileAction::Done, ProfilePhase::Over),
        ),
        (
            ProfilePhase::Reading(Some(cookies)),
            ProfileEvent::NativeCaptured { indexeddb, local_storage },
        ) => Some(
            (
                ProfileAction::Deposit(ProfilePayload { cookies, local_storage, indexeddb }),
                ProfilePhase::Over,
            ),
        ),
        (ProfilePhase::Reading(None), ProfileEvent::NativeCaptured { .. }) => Some(
            (ProfileAction::Done, ProfilePhase::Over),
        ),
        _ => None,
    }
}

/// Whether the session acts on an event where it stands.
pub open spec fn belongs(phase: ProfilePhase, read_only: bool, event: ProfileEvent) -> bool {
    ||| phase is Capturing && event is CookiesCaptured
    ||| session_step(phase, read_only, event) is Some
}

impl ProfileSession {
    /// Starts a profile session whose browser has a pipe, or does not.
    pub fn begin(has_pipe: bool, read_only: bool) -> (r: (ProfileSession, ProfileAction))
        ensures
            r.0.read_only == read_only,
            has_pipe ==> r.0.phase is Attaching && r.1 is Attach,
            !has_pipe ==> r.0.phase is Destroying && r.1 is Destroy,
    {
        if has_pipe {
            (ProfileSession { phase: ProfilePhase::Attaching, read_only }, ProfileAction::Attach)
        } else {
            (ProfileSession { phase: ProfilePhase::Destroying, read_only }, ProfileAction::Destroy)
        }
    }

    /// What the session does next. An event that does not belong to where it
    /// stands changes nothing and calls for nothing.
    pub fn step(&mut self, event: ProfileEvent) -> (r: Option<ProfileAction>)
        ensures
            final(self).read_only == old(self).read_only,
            match r {
                Some(action) => moves(
                    old(self).read_only,
                    old(self).phase,
                    event,
                    action,
                    final(self).phase,
                ),
                None => final(self).phase == old(self).phase && !belongs(
                    old(self).phase,
                    old(self).read_only,
                    event,
                ),
            },
            r is Some ==> steps_left(final(self).phase) < steps_left(old(self).phase),
    {
        let mut phase = ProfilePhase::Over;
        std::mem::swap(&mut self.phase, &mut phase);
        match (phase, event) {
            (ProfilePhase::Attaching, ProfileEvent::Attached(Some(sid))) => {
                self.phase = ProfilePhase::ApplyingCookies(sid);
                Some(ProfileAction::ApplyCookies)
            },
            (ProfilePhase::Attaching, ProfileEvent::Attached(None)) => {
                self.phase = ProfilePhase::Serving;
                Some(ProfileAction::Serve)
            },
            (ProfilePhase::ApplyingCookies(sid), ProfileEvent::CookiesApplied) => {
                self.phase = ProfilePhase::ApplyingStorage;
                Some(ProfileAction::ApplyStorage(sid))
            },
            (ProfilePhase::ApplyingStorage, ProfileEvent::StorageApplied) => {
                self.phase = ProfilePhase::Serving;
                Some(ProfileAction::Serve)
            },
            (ProfilePhase::Serving, ProfileEvent::Served { reclaimed }) => {
                if self.read_only {
                    self.phase = ProfilePhase::Destroying;
                    Some(ProfileAction::Destroy)
                } else if reclaimed {
                    self.phase = ProfilePhase::Capturing;
                    Some(ProfileAction::CaptureCookies)
                } else {
                    self.phase = ProfilePhase::Reading(None);
                    Some(ProfileAction::DestroyCapturingNative)
                }
            },
            (ProfilePhase::Capturing, ProfileEvent::CookiesCaptured(found)) => {
                self.phase = ProfilePhase::Closing(
                    match found {
                        Some(cookies) => cookies,
                        None => Vec::new(),
                    },
                );
                Some(ProfileAction::CloseBrowser(CLOSE_BUDGET_MS))
            },
            (ProfilePhase::Closing(cookies), ProfileEvent::Closed) => {
                self.phase = ProfilePhase::Reading(Some(cookies));
                Some(ProfileAction::DestroyCapturingNative)
            },
            (ProfilePhase::Destroying, ProfileEvent::Destroyed) => {
                self.phase = ProfilePhase::Over;
                Some(ProfileAction::Done)
            },
            (
                ProfilePhase::Reading(Some(cookies)),
                ProfileEvent::NativeCaptured { indexeddb, local_storage },
            ) => {
                self.phase = ProfilePhase::Over;
                Some(ProfileAction::Deposit(ProfilePayload { cookies, local_storage, indexeddb }))
            },
            (ProfilePhase::Reading(None), ProfileEvent::NativeCaptured { .. }) => {
                self.phase = ProfilePhase::Over;
                Some(ProfileAction::Done)
            },
            (other, _) => {
                self.phase = other;
                None
            },
        }
    }
}

/// Whether a session may go from one phase to another on an event, with this
/// action.
pub open spec fn moves(
    read_only: bool,
    from: ProfilePhase,
    event: ProfileEvent,
    action: ProfileAction,
    to: ProfilePhase,
) -> bool {
    match (from, event) {
        (ProfilePhase::Capturing, ProfileEvent::CookiesCaptured(found)) => {
            &&& action == ProfileAction::CloseBrowser(CLOSE_BUDGET_MS)
            &&& to matches ProfilePhase::Closing(kept) && match found {
                Some(cookies) => kept == cookies,
                None => kept@.len() == 0,
            }
        },
        _ => session_step(from, read_only, event) == Some((action, to)),
    }
}

/// One step of a session.
pub struct Move {
    /// What happened.
    pub event: ProfileEvent,
    /// What the session did.
    pub action: ProfileAction,
    /// Where it stood then.
    pub to: ProfilePhase,
}

/// Where a session stands after these steps.
pub open spec fn phase_after(from: ProfilePhase, steps: Seq<Move>) -> ProfilePhase {
    if steps.len() == 0 {
        from
    } else {
        steps.last().to
    }
}

/// Whether these are steps of a session.
pub open spec fn is_run(read_only: bool, from: ProfilePhase, steps: Seq<Move>) -> bool
    decreases steps.len(),
{
    steps.len() > 0 ==> {
        let before = steps.drop_last();
        let last = steps.last();
        is_run(read_only, from, before) && moves(
            read_only,
            phase_after(from, before),
            last.event,
            last.action,
            last.to,
        )
    }
}

/// Whether the action destroys the browser.
pub open spec fn destroys(action: ProfileAction) -> bool {
    action is Destroy || action is DestroyCapturingNative
}

/// How many steps destroy the browser.
pub open spec fn destroyed(steps: Seq<Move>) -> nat
    decreases steps.len(),
{
    if steps.len() == 0 {
        0
    } else {
        destroyed(steps.drop_last()) + if destroys(steps.last().action) {
            1nat
        } else {
            0
        }
    }
}

/// Whether the browser has been destroyed, or is about to be.
pub open spec fn past_destroy(phase: ProfilePhase) -> bool {
    phase is Destroying || phase is Reading || phase is Over
}

/// A session's browser is destroyed exactly once before the session is over,
/// whatever happens in it.
pub proof fn browser_is_destroyed_once(read_only: bool, steps: Seq<Move>)
    requires
        is_run(read_only, ProfilePhase::Attaching, steps),
    ensures
        destroyed(steps) == (if past_destroy(phase_after(ProfilePhase::Attaching, steps)) {
            1nat
        } else {
            0
        }),
    decreases steps.len(),
{
    if steps.len() > 0 {
        browser_is_destroyed_once(read_only, steps.drop_last());
    }
}

/// A profile is deposited only by a session that is not read-only and whose
/// client ended first, so that the browser was alive to be captured; a browser
/// that died mid-session never overwrites the stored profile with nothing.
pub proof fn deposit_needs_capture(read_only: bool, steps: Seq<Move>, i: int)
    requires
        is_run(read_only, ProfilePhase::Attaching, steps),
        0 <= i < steps.len(),
        steps[i].action is Deposit,
    ensures
        !read_only,
        exists|j: int|
            0 <= j < i && (#[trigger] steps[j]).event == (ProfileEvent::Served { reclaimed: true }),
{
    let before = steps.take(i);
    prefix_is_run(read_only, steps, i + 1);
    prefix_is_run(read_only, steps, i);
    let upto = steps.take(i + 1);
    assert(upto.drop_last() =~= before);
    assert(upto.last() == steps[i]);
    capture_follows_serving(read_only, before);
    let j = choose|j: int|
        0 <= j < before.len() && (#[trigger] before[j]).event == (ProfileEvent::Served {
            reclaimed: true,
        });
    assert(steps[j] == before[j]);
}

proof fn prefix_is_run(read_only: bool, steps: Seq<Move>, n: int)
    requires
        is_run(read_only, ProfilePhase::Attaching, steps),
        0 <= n <= steps.len(),
    ensures
        is_run(read_only, ProfilePhase::Attaching, steps.take(n)),
    decreases steps.len(),
{
    if n == steps.len() {
        assert(steps.take(n) =~= steps);
    } else {
        prefix_is_run(read_only, steps.drop_last(), n);
        assert(steps.drop_last().take(n) =~= steps.take(n));
    }
}

/// Whether the session captures, or has captured, the cookies.
spec fn captures(phase: ProfilePhase) -> bool {
    phase is Capturing || phase is Closing || (phase matches ProfilePhase::Reading(c) && c is Some)
}

proof fn capture_follows_serving(read_only: bool, steps: Seq<Move>)
    requires
        is_run(read_only, ProfilePhase::Attaching, steps),
        captures(phase_after(ProfilePhase::Attaching, steps)),
    ensures
        !read_only,
        exists|j: int|
            0 <= j < steps.len() && (#[trigger] steps[j]).event == (ProfileEvent::Served {
                reclaimed: true,
            }),
    decreases steps.len(),
{
    let before = steps.drop_last();
    if captures(phase_after(ProfilePhase::Attaching, before)) {
        capture_follows_serving(read_only, before);
        let j = choose|j: int|
            0 <= j < before.len() && (#[trigger] before[j]).event == (ProfileEvent::Served {
                reclaimed: true,
            });
        assert(steps[j] == before[j]);
    } else {
        assert(steps[steps.len() - 1].event == (ProfileEvent::Served { reclaimed: true }));
    }
}

} // verus!
