//! The network front door: HTTP probes, CDP discovery, and the WS endpoint.

pub mod auth;
pub mod handoffs;
pub mod http;
pub mod profiles;
pub mod ws;

use crate::capacity::{compute, HostLimits, SessionFootprint};
use crate::chrome::find::FindError;
use crate::config::{Loaded, PoolConfig, ServeSettings};
use crate::pool::{PoolOptions, PoolStats, PoolView};
use crate::text;
use vstd::prelude::*;

verus! {

/// How long a probe request may take, in milliseconds.
pub const HTTP_TIMEOUT_MS: u64 = 10_000;

/// How long cancelled sessions get to end, in milliseconds.
pub const FORCE_ABORT_BUDGET_MS: u64 = 5_000;

/// The session ceiling and where it comes from: the configuration, if it has
/// one, else what the host allows.
pub open spec fn ceiling_of(
    pool: PoolConfig,
    limits: HostLimits,
    footprint: Option<SessionFootprint>,
) -> (int, Seq<char>) {
    if pool.max_sessions_set {
        (pool.max_sessions as int, "config"@)
    } else {
        let tightest = crate::capacity::tightest(limits, footprint);
        (crate::capacity::clamped(tightest.0), tightest.1)
    }
}

/// The session ceiling and where it comes from: `config`, or the auto-capacity
/// constraint that bound (`memory`, `pids`, `cpu`).
pub fn session_ceiling(
    pool: PoolConfig,
    limits: HostLimits,
    footprint: Option<SessionFootprint>,
) -> (r: (u32, &'static str))
    ensures
        (r.0 as int, r.1@) == ceiling_of(pool, limits, footprint),
{
    if pool.max_sessions_set {
        (pool.max_sessions, "config")
    } else {
        let cap = compute(limits, footprint);
        (cap.max_sessions, cap.bound_by)
    }
}

/// The sizing knobs of a pool with this ceiling.
pub open spec fn options_of(pool: PoolConfig, max_sessions: int) -> PoolOptions {
    PoolOptions {
        min_ready: pool.min_ready as usize,
        max_sessions: max_sessions as usize,
        max_queue: pool.max_queue as usize,
        queue_timeout: (pool.queue_timeout_ms * 1_000_000) as u128,
        warm_idle: (pool.warm_idle_ms * 1_000_000) as u128,
        warm_max_age: (pool.warm_max_age_ms * 1_000_000) as u128,
    }
}

/// The sizing knobs of a pool with this ceiling.
pub fn pool_options(pool: PoolConfig, max_sessions: u32) -> (r: PoolOptions)
    ensures
        r == options_of(pool, max_sessions as int),
{
    PoolOptions {
        min_ready: pool.min_ready as usize,
        max_sessions: max_sessions as usize,
        max_queue: pool.max_queue as usize,
        queue_timeout: pool.queue_timeout_ms as u128 * 1_000_000,
        warm_idle: pool.warm_idle_ms as u128 * 1_000_000,
        warm_max_age: pool.warm_max_age_ms as u128 * 1_000_000,
    }
}

/// The sizing knobs of a pool whose ceiling is not known yet: it has no slots
/// and keeps no stock, and claims wait in its line.
pub open spec fn unopened(pool: PoolConfig) -> PoolOptions {
    PoolOptions { min_ready: 0, ..options_of(pool, 0) }
}

/// The sizing knobs of a pool whose ceiling is not known yet.
pub fn unopened_options(pool: PoolConfig) -> (r: PoolOptions)
    ensures
        r == unopened(pool),
{
    PoolOptions { min_ready: 0, ..pool_options(pool, 0) }
}

/// Until its ceiling is known a pool serves nobody: it is not ready, it says
/// that nothing runs, and it refuses a claim for want of room in its line only.
/// Then it can be opened with the ceiling.
pub proof fn unopened_pool_takes_claims_in<S>(
    pool: PoolConfig,
    v: PoolView<S>,
    stats: PoolStats,
    max_sessions: int,
)
    requires
        v.wf(),
        v.options == unopened(pool),
        v.surplus == 0,
        v.shows(stats),
        0 <= max_sessions <= usize::MAX / 8,
    ensures
        stats.running == 0,
        !http::is_ready(stats),
        !v.closed ==> (v.claim_of().0 is Err <==> v.queued() >= pool.max_queue as usize),
        v.can_resize(options_of(pool, max_sessions)),
{
}

/// Where the server listens.
pub open spec fn address_of(serve: ServeSettings) -> Seq<char> {
    serve.host@ + ":"@ + text::decimal_of(serve.port as nat)
}

/// Where the server listens.
pub fn bind_address(serve: &ServeSettings) -> (r: String)
    ensures
        r@ == address_of(*serve),
{
    let mut s = serve.host.clone();
    s.append(":");
    s.append(text::decimal(serve.port as u128).as_str());
    s
}

/// What happens to a server.
pub enum ServeEvent {
    /// The browser was looked for.
    BrowserFound(Result<String, FindError>),
    /// Leftover session trees were swept; how many, or why not.
    Swept(Result<usize, String>),
    /// The isolation tiers and the host's limits are known.
    Probed(HostLimits),
    /// The address was bound, or not.
    Bound(Result<(), String>),
    /// The profile template is ready, or could not be made; this is what its
    /// browser used.
    Warmed(Option<SessionFootprint>),
    /// The first browser that was launched on demand is running; this is what
    /// it uses.
    Measured(SessionFootprint),
    /// SIGTERM or ctrl-c.
    ShutdownSignal,
    /// The listener ended.
    ServerEnded(Result<(), String>),
    /// All sessions ended.
    Drained,
    /// The time for draining is up.
    DrainDeadline,
    /// The cancelled sessions ended, or did not within their budget.
    SessionsCancelled,
    /// Session trees were swept at the end.
    FinallySwept,
}

/// What a server does next.
pub enum ServeAction {
    /// Look for the browser.
    FindBrowser,
    /// Remove leftover session trees.
    SweepStale,
    /// Find out about the host.
    ProbeHost,
    /// Bind this address.
    Bind(String),
    /// Start to serve, with this pool, which is not open; launch a browser to
    /// warm the profile template meanwhile.
    ServeAndWarm(PoolOptions),
    /// Start to serve, with this pool; its ceiling has this source.
    ServeWithPool(PoolOptions, &'static str),
    /// Open the pool with these options; its ceiling has this source.
    OpenPool(PoolOptions, &'static str),
    /// Give the pool the size that these options say; its ceiling has this
    /// source.
    ResizePool(PoolOptions, &'static str),
    /// Refuse new sessions, and stop listening.
    ClosePool,
    /// Wait for the sessions to end, this many milliseconds at most.
    WaitDrain(u64),
    /// Cancel the remaining sessions, and wait this many milliseconds at most.
    CancelSessions(u64),
    /// Remove what session trees are left.
    SweepFinally,
    /// The server ended well.
    Done,
    /// The server ended with this error.
    Fail(String),
}

/// Where a server stands.
#[derive(Debug, Clone, Copy)]
pub enum ServePhase {
    /// It looks for the browser.
    Finding,
    /// It sweeps.
    Sweeping,
    /// It probes the host.
    Probing,
    /// It binds its address.
    Binding(HostLimits),
    /// It serves, and warms the template.
    Warming(HostLimits),
    /// It serves; as long as no browser has been measured on which the ceiling
    /// depends, these are the host's limits.
    Serving(Option<HostLimits>),
    /// It refuses new sessions.
    Stopping,
    /// It waits for the sessions to end.
    Draining,
    /// It waits for cancelled sessions.
    Cancelling,
    /// It sweeps for the last time.
    Cleaning,
    /// It has ended.
    Over,
}

/// A server from its start to its end: intake stops first, live sessions get
/// the drain time, stragglers are cancelled.
pub struct Serve {
    /// Where it stands.
    pub phase: ServePhase,
    /// Where it listens.
    pub bind: String,
    /// How its pool is sized.
    pub pool: PoolConfig,
    /// How long it drains, in milliseconds.
    pub drain_timeout_ms: u64,
}

/// What an action says, over views.
pub enum ActionView {
    /// Look for the browser.
    FindBrowser,
    /// Remove leftover session trees.
    SweepStale,
    /// Find out about the host.
    ProbeHost,
    /// Bind this address.
    Bind(Seq<char>),
    /// Start to serve, with this pool, which is not open; launch a browser to
    /// warm the profile template meanwhile.
    ServeAndWarm(PoolOptions),
    /// Start to serve, with this pool; its ceiling has this source.
    ServeWithPool(PoolOptions, Seq<char>),
    /// Open the pool with these options; its ceiling has this source.
    OpenPool(PoolOptions, Seq<char>),
    /// Give the pool the size that these options say; its ceiling has this
    /// source.
    ResizePool(PoolOptions, Seq<char>),
    /// Refuse new sessions, and stop listening.
    ClosePool,
    /// Wait for the sessions to end.
    WaitDrain(u64),
    /// Cancel the remaining sessions.
    CancelSessions(u64),
    /// Remove what session trees are left.
    SweepFinally,
    /// The server ended well.
    Done,
    /// The server ended with this error.
    Fail(Seq<char>),
}

impl View for ServeAction {
    type V = ActionView;

    open spec fn view(&self) -> ActionView {
        match *self {
            ServeAction::FindBrowser => ActionView::FindBrowser,
            ServeAction::SweepStale => ActionView::SweepStale,
            ServeAction::ProbeHost => ActionView::ProbeHost,
            ServeAction::Bind(address) => ActionView::Bind(address@),
            ServeAction::ServeAndWarm(options) => ActionView::ServeAndWarm(options),
            ServeAction::ServeWithPool(options, source) => ActionView::ServeWithPool(
                options,
                source@,
            ),
            ServeAction::OpenPool(options, source) => ActionView::OpenPool(options, source@),
            ServeAction::ResizePool(options, source) => ActionView::ResizePool(options, source@),
            ServeAction::ClosePool => ActionView::ClosePool,
            ServeAction::WaitDrain(ms) => ActionView::WaitDrain(ms),
            ServeAction::CancelSessions(ms) => ActionView::CancelSessions(ms),
            ServeAction::SweepFinally => ActionView::SweepFinally,
            ServeAction::Done => ActionView::Done,
            ServeAction::Fail(message) => ActionView::Fail(message@),
        }
    }
}

/// What a server is made of, over views.
pub struct ServeView {
    /// Where it listens.
    pub bind: Seq<char>,
    /// How its pool is sized.
    pub pool: PoolConfig,
    /// How long it drains, in milliseconds.
    pub drain_timeout_ms: u64,
}

impl ServeView {
    /// The pool that it opens.
    pub open spec fn pool_with(
        self,
        limits: HostLimits,
        footprint: Option<SessionFootprint>,
    ) -> (PoolOptions, Seq<char>) {
        let (max_sessions, source) = ceiling_of(self.pool, limits, footprint);
        (options_of(self.pool, max_sessions), source)
    }

    /// The limits that wait for the first browser to be measured, where none was
    /// at the start: a configured ceiling depends on none.
    pub open spec fn unmeasured(self, limits: HostLimits) -> Option<HostLimits> {
        if self.pool.max_sessions_set {
            None
        } else {
            Some(limits)
        }
    }

    /// The action and the phase that follow an event; nothing, if the event
    /// does not belong to the phase.
    pub open spec fn next(self, phase: ServePhase, event: ServeEvent) -> Option<
        (ActionView, ServePhase),
    > {
        match (phase, event) {
            (ServePhase::Finding, ServeEvent::BrowserFound(Ok(_))) => Some(
                (ActionView::SweepStale, ServePhase::Sweeping),
            ),
            (ServePhase::Finding, ServeEvent::BrowserFound(Err(e))) => Some(
                (ActionView::Fail(e.says()), ServePhase::Over),
            ),
            (ServePhase::Sweeping, ServeEvent::Swept(Ok(_))) => Some(
                (ActionView::ProbeHost, ServePhase::Probing),
            ),
            (ServePhase::Sweeping, ServeEvent::Swept(Err(e))) => Some(
                (ActionView::Fail("stale session sweep failed: "@ + e@), ServePhase::Over),
            ),
            (ServePhase::Probing, ServeEvent::Probed(limits)) => Some(
                (ActionView::Bind(self.bind), ServePhase::Binding(limits)),
            ),
            (ServePhase::Binding(limits), ServeEvent::Bound(Ok(_))) => if self.pool.min_ready > 0 {
                Some((ActionView::ServeAndWarm(unopened(self.pool)), ServePhase::Warming(limits)))
            } else {
                let (options, source) = self.pool_with(limits, None);
                Some(
                    (
                        ActionView::ServeWithPool(options, source),
                        ServePhase::Serving(self.unmeasured(limits)),
                    ),
                )
            },
            (ServePhase::Binding(_), ServeEvent::Bound(Err(e))) => Some(
                (ActionView::Fail("cannot bind "@ + self.bind + ": "@ + e@), ServePhase::Over),
            ),
            (ServePhase::Warming(limits), ServeEvent::Warmed(footprint)) => {
                let (options, source) = self.pool_with(limits, footprint);
                Some((ActionView::OpenPool(options, source), ServePhase::Serving(None)))
            },
            (ServePhase::Serving(Some(limits)), ServeEvent::Measured(footprint)) => {
                let (options, source) = self.pool_with(limits, Some(footprint));
                Some((ActionView::ResizePool(options, source), ServePhase::Serving(None)))
            },
            (ServePhase::Warming(_), ServeEvent::ShutdownSignal) => Some(
                (ActionView::ClosePool, ServePhase::Stopping),
            ),
            (ServePhase::Serving(_), ServeEvent::ShutdownSignal) => Some(
                (ActionView::ClosePool, ServePhase::Stopping),
            ),
            (ServePhase::Warming(_), ServeEvent::ServerEnded(Err(e))) => Some(
                (ActionView::Fail("server error: "@ + e@), ServePhase::Over),
            ),
            (ServePhase::Serving(_), ServeEvent::ServerEnded(Err(e))) => Some(
                (ActionView::Fail("server error: "@ + e@), ServePhase::Over),
            ),
            (ServePhase::Stopping, ServeEvent::ServerEnded(Err(e))) => Some(
                (ActionView::Fail("server error: "@ + e@), ServePhase::Over),
            ),
            (ServePhase::Stopping, ServeEvent::ServerEnded(Ok(_))) => Some(
                (ActionView::WaitDrain(self.drain_timeout_ms), ServePhase::Draining),
            ),
            (ServePhase::Draining, ServeEvent::Drained) => Some(
                (ActionView::SweepFinally, ServePhase::Cleaning),
            ),
            (ServePhase::Draining, ServeEvent::DrainDeadline) => Some(
                (ActionView::CancelSessions(FORCE_ABORT_BUDGET_MS), ServePhase::Cancelling),
            ),
            (ServePhase::Cancelling, ServeEvent::SessionsCancelled) => Some(
                (ActionView::SweepFinally, ServePhase::Cleaning),
            ),
            (ServePhase::Cleaning, ServeEvent::FinallySwept) => Some(
                (ActionView::Done, ServePhase::Over),
            ),
            _ => None,
        }
    }
}

impl View for Serve {
    type V = ServeView;

    open spec fn view(&self) -> ServeView {
        ServeView {
            bind: self.bind@,
            pool: self.pool,
            drain_timeout_ms: self.drain_timeout_ms,
        }
    }
}

fn failed(what: &str, e: &str) -> (r: ServeAction)
    ensures
        r@ == ActionView::Fail(what@ + e@),
{
    let mut message = what.to_owned();
    message.append(e);
    ServeAction::Fail(message)
}

impl Serve {
    /// Starts a server.
    pub fn begin(loaded: &Loaded) -> (r: (Serve, ServeAction))
        ensures
            r.0.phase is Finding,
            r.0@.bind == address_of(loaded.serve),
            r.0@.pool == loaded.config.pool,
            r.0@.drain_timeout_ms == loaded.config.drain_timeout_ms,
            r.1 is FindBrowser,
    {
        (
            Serve {
                phase: ServePhase::Finding,
                bind: bind_address(&loaded.serve),
                pool: loaded.config.pool,
                drain_timeout_ms: loaded.config.drain_timeout_ms,
            },
            ServeAction::FindBrowser,
        )
    }

    /// What the server does next. An event that does not belong to where it
    /// stands changes nothing and calls for nothing.
    pub fn step(&mut self, event: ServeEvent) -> (r: Option<ServeAction>)
        ensures
            final(self)@ == old(self)@,
            match old(self)@.next(old(self).phase, event) {
                Some((action, phase)) => (r matches Some(a) && a@ == action) && final(self).phase
                    == phase,
                None => r is None && final(self).phase == old(self).phase,
            },
    {
        let (action, phase) = match (self.phase, event) {
            (ServePhase::Finding, ServeEvent::BrowserFound(Ok(_))) => (
                ServeAction::SweepStale,
                ServePhase::Sweeping,
            ),
            (ServePhase::Finding, ServeEvent::BrowserFound(Err(e))) => (
                ServeAction::Fail(e.message()),
                ServePhase::Over,
            ),
            (ServePhase::Sweeping, ServeEvent::Swept(Ok(_))) => (
                ServeAction::ProbeHost,
                ServePhase::Probing,
            ),
            (ServePhase::Sweeping, ServeEvent::Swept(Err(e))) => (
                failed("stale session sweep failed: ", e.as_str()),
                ServePhase::Over,
            ),
            (ServePhase::Probing, ServeEvent::Probed(limits)) => (
                ServeAction::Bind(self.bind.clone()),
                ServePhase::Binding(limits),
            ),
            (ServePhase::Binding(limits), ServeEvent::Bound(Ok(_))) => if self.pool.min_ready > 0 {
                (
                    ServeAction::ServeAndWarm(unopened_options(self.pool)),
                    ServePhase::Warming(limits),
                )
            } else {
                let (max_sessions, source) = session_ceiling(self.pool, limits, None);
                let unmeasured = if self.pool.max_sessions_set {
                    None
                } else {
                    Some(limits)
                };
                (
                    ServeAction::ServeWithPool(pool_options(self.pool, max_sessions), source),
                    ServePhase::Serving(unmeasured),
                )
            },
            (ServePhase::Binding(_), ServeEvent::Bound(Err(e))) => {
                let mut what = "cannot bind ".to_owned();
                what.append(self.bind.as_str());
                what.append(": ");
                (failed(what.as_str(), e.as_str()), ServePhase::Over)
            },
            (ServePhase::Warming(limits), ServeEvent::Warmed(footprint)) => {
                let (max_sessions, source) = session_ceiling(self.pool, limits, footprint);
                (
                    ServeAction::OpenPool(pool_options(self.pool, max_sessions), source),
                    ServePhase::Serving(None),
                )
            },
            (ServePhase::Serving(Some(limits)), ServeEvent::Measured(footprint)) => {
                let (max_sessions, source) = session_ceiling(self.pool, limits, Some(footprint));
                (
                    ServeAction::ResizePool(pool_options(self.pool, max_sessions), source),
                    ServePhase::Serving(None),
                )
            },
            (ServePhase::Warming(_), ServeEvent::ShutdownSignal) => (
                ServeAction::ClosePool,
                ServePhase::Stopping,
            ),
            (ServePhase::Serving(_), ServeEvent::ShutdownSignal) => (
                ServeAction::ClosePool,
                ServePhase::Stopping,
            ),
            (ServePhase::Warming(_), ServeEvent::ServerEnded(Err(e))) => (
                failed("server error: ", e.as_str()),
                ServePhase::Over,
            ),
            (ServePhase::Serving(_), ServeEvent::ServerEnded(Err(e))) => (
                failed("server error: ", e.as_str()),
                ServePhase::Over,
            ),
            (ServePhase::Stopping, ServeEvent::ServerEnded(Err(e))) => (
                failed("server error: ", e.as_str()),
                ServePhase::Over,
            ),
            (ServePhase::Stopping, ServeEvent::ServerEnded(Ok(_))) => (
                ServeAction::WaitDrain(self.drain_timeout_ms),
                ServePhase::Draining,
            ),
            (ServePhase::Draining, ServeEvent::Drained) => (
                ServeAction::SweepFinally,
                ServePhase::Cleaning,
            ),
            (ServePhase::Draining, ServeEvent::DrainDeadline) => (
                ServeAction::CancelSessions(FORCE_ABORT_BUDGET_MS),
                ServePhase::Cancelling,
            ),
            (ServePhase::Cancelling, ServeEvent::SessionsCancelled) => (
                ServeAction::SweepFinally,
                ServePhase::Cleaning,
            ),
            (ServePhase::Cleaning, ServeEvent::FinallySwept) => (
                ServeAction::Done,
                ServePhase::Over,
            ),
            _ => {
                return None;
            },
        };
        self.phase = phase;
        Some(action)
    }
}

/// One step of a server.
pub struct ServeMove {
    /// What happened.
    pub event: ServeEvent,
    /// What the server did.
    pub action: ActionView,
    /// Where it stood then.
    pub to: ServePhase,
}

/// Where a server stands after these steps from its start.
pub open spec fn stands_at(steps: Seq<ServeMove>) -> ServePhase {
    if steps.len() == 0 {
        ServePhase::Finding
    } else {
        steps.last().to
    }
}

/// Whether these are steps of the server from its start.
pub open spec fn is_course(server: ServeView, steps: Seq<ServeMove>) -> bool
    decreases steps.len(),
{
    steps.len() > 0 ==> {
        let before = steps.drop_last();
        let last = steps.last();
        is_course(server, before) && server.next(stands_at(before), last.event) == Some(
            (last.action, last.to),
        )
    }
}

/// Whether the event says that the address was bound.
pub open spec fn says_bound(event: ServeEvent) -> bool {
    event matches ServeEvent::Bound(outcome) && outcome is Ok
}

/// Whether the server has bound its address in one of these steps.
pub open spec fn has_bound(steps: Seq<ServeMove>) -> bool {
    exists|j: int| 0 <= j < steps.len() && says_bound((#[trigger] steps[j]).event)
}

/// Whether the server has refused new sessions in one of these steps.
pub open spec fn has_closed(steps: Seq<ServeMove>) -> bool {
    exists|j: int| 0 <= j < steps.len() && (#[trigger] steps[j]).action is ClosePool
}

proof fn course_facts(server: ServeView, steps: Seq<ServeMove>)
    requires
        is_course(server, steps),
    ensures
        ({
            let phase = stands_at(steps);
            &&& phase is Warming || phase is Serving || phase is Stopping || phase is Draining
                || phase is Cancelling || phase is Cleaning ==> has_bound(steps)
            &&& phase is Stopping || phase is Draining || phase is Cancelling || phase is Cleaning
                ==> has_closed(steps)
        }),
    decreases steps.len(),
{
    if steps.len() > 0 {
        let before = steps.drop_last();
        let last = steps.last();
        course_facts(server, before);
        assert(steps[steps.len() - 1] == last);
        assert(has_bound(before) ==> has_bound(steps)) by {
            if has_bound(before) {
                let j = choose|j: int|
                    0 <= j < before.len() && says_bound((#[trigger] before[j]).event);
                assert(steps[j] == before[j]);
            }
        }
        assert(has_closed(before) ==> has_closed(steps)) by {
            if has_closed(before) {
                let j = choose|j: int| 0 <= j < before.len() && (#[trigger] before[j]).action is
                    ClosePool;
                assert(steps[j] == before[j]);
            }
        }
        if last.to is Warming || (last.to is Serving && stands_at(before) is Binding) {
            assert(says_bound(last.event));
        }
    }
}

proof fn prefix_is_course(server: ServeView, steps: Seq<ServeMove>, n: int)
    requires
        is_course(server, steps),
        0 <= n <= steps.len(),
    ensures
        is_course(server, steps.take(n)),
    decreases steps.len(),
{
    if n == steps.len() {
        assert(steps.take(n) =~= steps);
    } else {
        prefix_is_course(server, steps.drop_last(), n);
        assert(steps.drop_last().take(n) =~= steps.take(n));
    }
}

/// The step `i` of a course, and where the server stood before it.
proof fn step_of(server: ServeView, steps: Seq<ServeMove>, i: int)
    requires
        is_course(server, steps),
        0 <= i < steps.len(),
    ensures
        is_course(server, steps.take(i)),
        server.next(stands_at(steps.take(i)), steps[i].event) == Some(
            (steps[i].action, steps[i].to),
        ),
{
    prefix_is_course(server, steps, i + 1);
    prefix_is_course(server, steps, i);
    assert(steps.take(i + 1).drop_last() =~= steps.take(i));
    assert(steps.take(i + 1).last() == steps[i]);
}

/// The server is reachable before any browser is launched; and where no browser
/// is kept ready, none is launched at its start at all.
pub proof fn startup_never_blocks_on_a_browser(server: ServeView, steps: Seq<ServeMove>, i: int)
    requires
        is_course(server, steps),
        0 <= i < steps.len(),
        steps[i].action is ServeAndWarm || steps[i].action is OpenPool
            || steps[i].action is ServeWithPool,
    ensures
        has_bound(steps.take(i + 1)),
        server.pool.min_ready == 0 ==> steps[i].action is ServeWithPool,
{
    step_of(server, steps, i);
    prefix_is_course(server, steps, i + 1);
    assert(steps.take(i + 1).last() == steps[i]);
    course_facts(server, steps.take(i + 1));
    if server.pool.min_ready == 0 {
        never_warms(server, steps.take(i));
    }
}

proof fn never_warms(server: ServeView, steps: Seq<ServeMove>)
    requires
        is_course(server, steps),
        server.pool.min_ready == 0,
    ensures
        !(stands_at(steps) is Warming),
    decreases steps.len(),
{
    if steps.len() > 0 {
        never_warms(server, steps.drop_last());
    }
}

/// Where the server has heard of the host's limits in these steps.
pub open spec fn probed_in(steps: Seq<ServeMove>, limits: HostLimits) -> bool {
    exists|j: int| 0 <= j < steps.len() && (#[trigger] steps[j]).event == ServeEvent::Probed(limits)
}

/// Without a configured ceiling the ceiling comes from the host and a launched
/// browser. A server that launched one at its start opens its pool with what
/// was measured then. One that keeps no browser ready starts with what the host
/// alone allows; the first browser that is launched on demand and measured
/// resizes its pool, and nothing measured later does.
pub proof fn ceiling_follows_the_first_browser(
    server: ServeView,
    steps: Seq<ServeMove>,
    footprint: SessionFootprint,
)
    requires
        is_course(server, steps),
        stands_at(steps) is Serving,
        !server.pool.max_sessions_set,
    ensures
        server.pool.min_ready == 0 && !has_measured(steps) ==> exists|limits: HostLimits|
            #[trigger] probed_in(steps, limits) && server.next(
                stands_at(steps),
                ServeEvent::Measured(footprint),
            ) == Some(
                (
                    ActionView::ResizePool(
                        server.pool_with(limits, Some(footprint)).0,
                        server.pool_with(limits, Some(footprint)).1,
                    ),
                    ServePhase::Serving(None),
                ),
            ),
        server.pool.min_ready > 0 || has_measured(steps) ==> server.next(
            stands_at(steps),
            ServeEvent::Measured(footprint),
        ) is None,
{
    measuring_facts(server, steps);
}

/// Whether a browser was measured on demand in one of these steps.
pub open spec fn has_measured(steps: Seq<ServeMove>) -> bool {
    exists|j: int| 0 <= j < steps.len() && (#[trigger] steps[j]).action is ResizePool
}

proof fn measuring_facts(server: ServeView, steps: Seq<ServeMove>)
    requires
        is_course(server, steps),
        !server.pool.max_sessions_set,
    ensures
        match stands_at(steps) {
            ServePhase::Binding(limits) => probed_in(steps, limits) && !has_measured(steps),
            ServePhase::Warming(limits) => server.pool.min_ready > 0 && !has_measured(steps),
            ServePhase::Serving(Some(limits)) => probed_in(steps, limits) && server.pool.min_ready
                == 0 && !has_measured(steps),
            ServePhase::Serving(None) => server.pool.min_ready > 0 || has_measured(steps),
            ServePhase::Finding | ServePhase::Sweeping | ServePhase::Probing => !has_measured(steps),
            _ => true,
        },
    decreases steps.len(),
{
    if steps.len() > 0 {
        let before = steps.drop_last();
        let last = steps.last();
        measuring_facts(server, before);
        assert(steps[steps.len() - 1] == last);
        assert forall|limits: HostLimits| #[trigger] probed_in(before, limits) implies probed_in(
            steps,
            limits,
        ) by {
            let j = choose|j: int|
                0 <= j < before.len() && (#[trigger] before[j]).event == ServeEvent::Probed(limits);
            assert(steps[j] == before[j]);
        }
        assert(has_measured(steps) <==> has_measured(before) || last.action is ResizePool) by {
            if has_measured(before) {
                let j = choose|j: int| 0 <= j < before.len() && (#[trigger] before[j]).action is
                    ResizePool;
                assert(steps[j] == before[j]);
            }
            if has_measured(steps) {
                let j = choose|j: int| 0 <= j < steps.len() && (#[trigger] steps[j]).action is
                    ResizePool;
                if j < before.len() {
                    assert(before[j] == steps[j]);
                }
            }
        }
        if let ServeEvent::Probed(limits) = last.event {
            assert(steps[steps.len() - 1].event == ServeEvent::Probed(limits));
            assert(probed_in(steps, limits));
        }
    }
}

/// Intake stops first: the server waits for its sessions, cancels them or
/// sweeps their trees only after it has refused new ones; and it cancels them
/// only when the time for draining is up.
pub proof fn intake_stops_first(server: ServeView, steps: Seq<ServeMove>, i: int)
    requires
        is_course(server, steps),
        0 <= i < steps.len(),
        steps[i].action is WaitDrain || steps[i].action is CancelSessions
            || steps[i].action is SweepFinally,
    ensures
        has_closed(steps.take(i)),
        steps[i].action is CancelSessions ==> steps[i].event is DrainDeadline,
{
    step_of(server, steps, i);
    course_facts(server, steps.take(i));
}

} // verus!
