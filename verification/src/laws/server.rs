//! What requests come to: who passes, what is answered, what is kept.

use crate::capacity::{HostLimits, SessionFootprint};
use crate::config::{PoolConfig, PressureConfig};
use crate::json::JsonView;
use crate::linux::tiers::Tiers;
use crate::pool::{ClaimError, PoolStats};
use crate::pressure;
use crate::pressure::{Excess, Load};
use crate::profile::cdp::OriginState;
use crate::profile::cookie::Cookie;
use crate::profile::manifest::ManifestEntry;
use crate::profile::payload::ProfilePayload;
use crate::server;
use crate::server::auth;
use crate::server::http;
use crate::server::http::{Discovery, LoadReport, Param, Reply};
use crate::server::profiles;
use crate::server::profiles::{Held, Slot, StoreView};
use crate::server::ws;
use crate::server::ws::{ProfileAction, ProfileEvent, ProfilePhase, Verdict};
use crate::text;
use vstd::prelude::*;

verus! {

/// Without a configured token everybody passes. With one, a request passes
/// exactly with that token: the one in its query if there is one, otherwise the
/// one behind `Bearer ` in its header, whatever white space is around it.
pub proof fn only_the_configured_token_passes(
    expected: Seq<char>,
    token: Seq<char>,
    query: Option<Seq<char>>,
    header: Option<Seq<char>>,
)
    ensures
        auth::may_pass(None, query, header),
        auth::may_pass(Some(expected), Some(token), header) <==> token == expected,
        auth::may_pass(Some(expected), None, Some("Bearer "@ + token)) <==> text::trimmed(token)
            == expected,
        auth::may_pass(Some(expected), None, header) ==> (header matches Some(h)
            && text::has_prefix(h, "Bearer "@) && text::trimmed(h.skip(7)) == expected),
        !auth::may_pass(Some(expected), None, None),
{
    reveal_strlit("Bearer ");
    let p = "Bearer "@;
    crate::laws::text::prefix_and_rest_make_the_text(p, token, token);
}

/// The load exceeds a threshold exactly if it is above it; the CPU is looked at
/// first.
pub proof fn load_is_refused_above_its_threshold(load: Load, limits: PressureConfig)
    ensures
        pressure::excess_of(load, limits) is Cpu <==> limits.max_cpu_percent.less(load.cpu),
        pressure::excess_of(load, limits) is Memory <==> !limits.max_cpu_percent.less(load.cpu)
            && limits.max_memory_percent.less(load.memory),
        pressure::excess_of(load, limits) is Nothing <==> !limits.max_cpu_percent.less(load.cpu)
            && !limits.max_memory_percent.less(load.memory),
{
}

/// No reading is above one hundred percent, and one below is kept.
pub proof fn readings_are_percentages(n: u32)
    ensures
        pressure::limited(n) <= 10_000,
        n <= 10_000 ==> pressure::limited(n) == n,
        n > 10_000 ==> pressure::limited(n) == 10_000,
{
}

/// An instance is ready exactly if it takes claims and could serve one now.
pub proof fn readiness_means_a_session_now(stats: PoolStats)
    ensures
        http::is_ready(stats) ==> stats.accepting,
        http::is_ready(stats) && stats.warm == 0 ==> stats.running < stats.max_sessions,
        stats.accepting && stats.warm > 0 ==> http::is_ready(stats),
        stats.accepting && stats.running < stats.max_sessions ==> http::is_ready(stats),
{
}

/// The reason against a new session: draining first, then a full house with a
/// full line, then the load; none if nothing speaks against it.
pub proof fn reasons_come_in_order(stats: PoolStats, load: Load, limits: PressureConfig)
    ensures
        ({
            let reason = http::reason_of(stats, load, limits);
            let full = stats.running >= stats.max_sessions && stats.queued >= stats.max_queue;
            &&& !stats.accepting ==> reason == "draining"@
            &&& stats.accepting && full ==> reason == "full"@
            &&& stats.accepting && !full && limits.max_cpu_percent.less(load.cpu) ==> reason
                == "cpu"@
            &&& stats.accepting && !full && !limits.max_cpu_percent.less(load.cpu)
                && limits.max_memory_percent.less(load.memory) ==> reason == "memory"@
            &&& stats.accepting && !full && !limits.max_cpu_percent.less(load.cpu)
                && !limits.max_memory_percent.less(load.memory) ==> reason.len() == 0
        }),
{
    reveal_strlit("");
}

/// What `/pressure` says: the counters, whether a session is available, the
/// load, the reason against it, and where the ceiling comes from.
pub proof fn pressure_tells_the_counters(
    stats: PoolStats,
    report: LoadReport,
    limits: PressureConfig,
    source: Seq<char>,
    tiers: Tiers,
    date_ms: u64,
)
    ensures
        ({
            let m = http::pressure_body(stats, report, limits, source, tiers, date_ms)->Object_0;
            &&& m.len() == 12
            &&& m[0] == ("running"@, JsonView::UInt(stats.running as u64))
            &&& m[1] == ("queued"@, JsonView::UInt(stats.queued as u64))
            &&& m[2] == ("warm"@, JsonView::UInt(stats.warm as u64))
            &&& m[3] == (
                "isAvailable"@,
                JsonView::Bool(http::reason_of(stats, report.load, limits).len() == 0),
            )
            &&& m[4] == ("maxConcurrent"@, JsonView::UInt(stats.max_sessions as u64))
            &&& m[5] == ("maxQueued"@, JsonView::UInt(stats.max_queue as u64))
            &&& m[6] == ("cpu"@, JsonView::Real(report.cpu_number@))
            &&& m[7] == ("memory"@, JsonView::Real(report.memory_number@))
            &&& m[8] == (
                "reason"@,
                JsonView::Str(http::reason_of(stats, report.load, limits)),
            )
            &&& m[9] == ("capacitySource"@, JsonView::Str(source))
            &&& m[10] == ("isolation"@, http::tiers_json(tiers))
            &&& m[11] == ("date"@, JsonView::UInt(date_ms))
        }),
{
}

/// What the isolation tiers are told as: each tier by its key, and every note.
pub proof fn tiers_are_told_by_key(tiers: Tiers)
    ensures
        ({
            let m = http::tiers_json(tiers)->Object_0;
            &&& m.len() == 4
            &&& m[0] == ("kill"@, JsonView::Str(tiers.kill.keyed()))
            &&& m[1] == ("memcap"@, JsonView::Str(tiers.memcap.keyed()))
            &&& m[2] == ("profile"@, JsonView::Str(tiers.profile.keyed()))
            &&& m[3].0 == "notes"@ && m[3].1 is Array && m[3].1->Array_0.len()
                == tiers.notes@.len()
            &&& forall|i: int|
                0 <= i < tiers.notes@.len() ==> #[trigger] m[3].1->Array_0[i] == JsonView::Str(
                    tiers.notes@[i]@,
                )
        }),
{
}

/// Clients connect to the configured address, or else to the host they asked
/// over a plain socket, with exactly one slash behind it, and with the token
/// if there is one.
pub proof fn connect_address_is_the_public_one(
    address: Seq<char>,
    slashes: nat,
    host: Option<Seq<char>>,
    token: Seq<char>,
)
    requires
        address.len() > 0 ==> address.last() != '/',
    ensures
        ({
            let given = address + Seq::new(slashes, |i: int| '/');
            &&& http::ws_url_of(Some(given), host, None) == address + "/"@
            &&& http::ws_url_of(Some(given), host, Some(token)) == address + "/"@ + "?token="@
                + token
            &&& address.len() > 0 ==> http::ws_url_of(None, Some(given), None) == "ws://"@ + address
                + "/"@
            &&& http::ws_url_of(None, None, None) == "ws://localhost:9222/"@
        }),
{
    reveal_strlit("ws://");
    reveal_strlit("localhost:9222");
    reveal_strlit("ws://localhost:9222/");
    reveal_strlit("/");
    let tail = Seq::new(slashes, |i: int| '/');
    crate::laws::text::dropping_at_the_end_drops_all(address, slashes, '/');
    if address.len() > 0 {
        let whole = "ws://"@ + address;
        assert(whole.last() == address.last());
        crate::laws::text::dropping_at_the_end_drops_all(whole, slashes, '/');
        assert("ws://"@ + (address + tail) =~= whole + tail);
    }
    let local = "ws://"@ + "localhost:9222"@;
    assert(local.last() == '2');
    crate::laws::text::dropping_at_the_end_drops_all(local, 0, '/');
    assert(local + Seq::new(0, |i: int| '/') =~= local);
    assert(local + "/"@ =~= "ws://localhost:9222/"@);
}

/// Discovery tells the facts of the browser that was launched, nothing of them
/// before the first one, how to connect, and this server's version and ceiling.
pub proof fn discovery_tells_how_to_connect(d: Discovery, host: Option<Seq<char>>)
    ensures
        ({
            let m = http::version_body(d, host)->Object_0;
            &&& m.len() == 7
            &&& m[0].0 == "Browser"@ && m[1].0 == "Protocol-Version"@ && m[2].0 == "User-Agent"@
                && m[3].0 == "V8-Version"@
            &&& d.version matches Some(v) ==> m[0].1 == JsonView::Str(v.product@) && m[1].1
                == JsonView::Str(v.protocol_version@) && m[2].1 == JsonView::Str(v.user_agent@)
                && m[3].1 == JsonView::Str(v.js_version@)
            &&& d.version is None ==> forall|i: int|
                0 <= i < 4 ==> (#[trigger] m[i]).1 == JsonView::Str(Seq::empty())
            &&& m[4] == (
                "webSocketDebuggerUrl"@,
                JsonView::Str(
                    http::ws_url_of(
                        text::opt_view(d.external_address),
                        host,
                        text::opt_view(d.token),
                    ),
                ),
            )
            &&& m[5] == ("Browserserve-Version"@, JsonView::Str(d.server_version@))
            &&& m[6] == ("Browserserve-MaxConcurrent"@, JsonView::UInt(d.max_concurrent as u64))
        }),
{
}

/// The statuses of answers, and what a request that is turned away is told.
pub proof fn refusals_say_why(reason: Seq<char>, detail: Seq<char>, token: Seq<char>)
    ensures
        http::OK == 200 && http::UNAUTHORIZED == 401 && http::NOT_FOUND == 404
            && http::INTERNAL_SERVER_ERROR == 500 && http::SERVICE_UNAVAILABLE == 503,
        http::rejection(reason, detail) == JsonView::Object(
            seq![("error"@, JsonView::Str(reason)), ("detail"@, JsonView::Str(detail))],
        ),
        http::unauthorized_body() == JsonView::Object(
            seq![("error"@, JsonView::Str("unauthorized"@))],
        ),
        http::dropped_off_body(Some(token)) == JsonView::Object(
            seq![
                ("profileToken"@, JsonView::Str(token)),
                ("expiresInSec"@, JsonView::UInt((profiles::PROFILE_TTL / 1_000_000_000) as u64)),
            ],
        ),
        http::dropped_off_body(None) == JsonView::Object(
            seq![
                ("error"@, JsonView::Str("profile_store_full"@)),
                ("detail"@, JsonView::Str("too many pending profiles"@)),
            ],
        ),
        profiles::PROFILE_TTL == 120 * 1_000_000_000,
        profiles::MAX_PENDING == 256,
        profiles::MAX_PROFILE_BYTES == 64 * 1024 * 1024,
        profiles::TOKEN_BYTES == 32,
        server::HTTP_TIMEOUT_MS == 10_000,
        server::FORCE_ABORT_BUDGET_MS == 5_000,
        ws::CLOSE_BUDGET_MS == 3_000,
{
}

/// A claim that failed is told by its reason: one for each kind of failure.
pub proof fn claim_failures_have_their_reasons(max_queue: usize, waited_ms: u64, message: String)
    ensures
        ws::claim_reason(ClaimError::QueueFull { max_queue }) == "queue_full"@,
        ws::claim_reason(ClaimError::QueueTimeout { waited_ms }) == "queue_timeout"@,
        ws::claim_reason(ClaimError::Closed) == "draining"@,
        ws::claim_reason(ClaimError::Launch { message }) == "launch_failed"@,
        (ClaimError::QueueFull { max_queue }).says() == "session queue is full ("@
            + text::decimal_of(max_queue as nat) + " waiting)"@,
        (ClaimError::QueueTimeout { waited_ms }).says() == "timed out waiting "@
            + text::decimal_of(waited_ms as nat) + " ms for a session slot"@,
        ClaimError::Closed.says() == "pool is closed"@,
        (ClaimError::Launch { message }).says() == "session launch failed: "@ + message@,
{
}

/// A shared profile is asked for by `readOnly` with `1`, `true` or `yes`, and by
/// nothing else.
pub proof fn read_only_is_said_in_three_ways(value: Option<Seq<char>>)
    ensures
        ws::says_yes(Some(seq!['1'])),
        ws::says_yes(Some(seq!['t', 'r', 'u', 'e'])),
        ws::says_yes(Some(seq!['y', 'e', 's'])),
        ws::says_yes(value) ==> value == Some(seq!['1']) || value == Some(seq!['t', 'r', 'u', 'e'])
            || value == Some(seq!['y', 'e', 's']),
{
    reveal_strlit("1");
    reveal_strlit("true");
    reveal_strlit("yes");
    assert("1"@ =~= seq!['1']);
    assert("true"@ =~= seq!['t', 'r', 'u', 'e']);
    assert("yes"@ =~= seq!['y', 'e', 's']);
}

/// A connection is looked at in order: credentials, then the load, then the
/// profile that it names; without a profile it gets any browser.
pub proof fn connections_are_judged_in_order(
    token: Option<Seq<char>>,
    query: Seq<Param>,
    authorization: Option<Seq<char>>,
    report: LoadReport,
    limits: PressureConfig,
)
    ensures
        ({
            let v = ws::verdict(token, query, authorization, report, limits);
            let pass = auth::may_pass(token, http::param_of(query, "token"@), authorization);
            let busy = limits.max_cpu_percent.less(report.load.cpu)
                || limits.max_memory_percent.less(report.load.memory);
            &&& v is Unauthorized <==> !pass
            &&& v is Pressure <==> pass && busy
            &&& v matches Verdict::Pressure(e) ==> (e is Cpu <==> limits.max_cpu_percent.less(
                report.load.cpu,
            )) && !(e is Nothing)
            &&& v matches Verdict::Profile(t) ==> http::param_of(query, "profileToken"@) == Some(t)
            &&& v is Plain <==> pass && !busy && http::param_of(query, "profileToken"@) is None
        }),
        ws::busy(Excess::Cpu, report) == "cpu at "@ + report.cpu_rounded@ + "%"@,
        ws::busy(Excess::Memory, report) == "memory at "@ + report.memory_rounded@ + "%"@,
{
}

/// A profile session seeds before it serves: the target is attached, then the
/// cookies, then the storage over the attached session. What cannot be attached
/// is served unseeded.
pub proof fn profile_is_seeded_before_serving(sid: String, read_only: bool)
    ensures
        ws::session_step(
            ProfilePhase::Attaching,
            read_only,
            ProfileEvent::Attached(Some(sid)),
        ) == Some((ProfileAction::ApplyCookies, ProfilePhase::ApplyingCookies(sid))),
        ws::session_step(
            ProfilePhase::ApplyingCookies(sid),
            read_only,
            ProfileEvent::CookiesApplied,
        ) == Some((ProfileAction::ApplyStorage(sid), ProfilePhase::ApplyingStorage)),
        ws::session_step(
            ProfilePhase::ApplyingStorage,
            read_only,
            ProfileEvent::StorageApplied,
        ) == Some((ProfileAction::Serve, ProfilePhase::Serving)),
        ws::session_step(
            ProfilePhase::Attaching,
            read_only,
            ProfileEvent::Attached(None),
        ) == Some((ProfileAction::Serve, ProfilePhase::Serving)),
{
}

/// When a session ends: a shared profile's browser is destroyed without a
/// capture; otherwise the cookies are captured if the browser is still there,
/// it is closed so that it writes its storage, and only then destroyed and
/// read. What was captured is deposited: those cookies, with the storage and
/// the files that were read. Without cookies nothing is deposited.
pub proof fn captured_profile_is_deposited(
    cookies: Vec<Cookie>,
    indexeddb: Vec<ManifestEntry>,
    local_storage: Vec<OriginState>,
    reclaimed: bool,
    action: ProfileAction,
    to: ProfilePhase,
)
    ensures
        ws::session_step(ProfilePhase::Serving, true, ProfileEvent::Served { reclaimed }) == Some(
            (ProfileAction::Destroy, ProfilePhase::Destroying),
        ),
        ws::session_step(
            ProfilePhase::Serving,
            false,
            ProfileEvent::Served { reclaimed: true },
        ) == Some((ProfileAction::CaptureCookies, ProfilePhase::Capturing)),
        ws::session_step(
            ProfilePhase::Serving,
            false,
            ProfileEvent::Served { reclaimed: false },
        ) == Some((ProfileAction::DestroyCapturingNative, ProfilePhase::Reading(None))),
        ws::moves(
            false,
            ProfilePhase::Capturing,
            ProfileEvent::CookiesCaptured(Some(cookies)),
            action,
            to,
        ) ==> action == ProfileAction::CloseBrowser(3_000) && to == ProfilePhase::Closing(cookies),
        ws::moves(
            false,
            ProfilePhase::Capturing,
            ProfileEvent::CookiesCaptured(None),
            action,
            to,
        ) ==> action == ProfileAction::CloseBrowser(3_000) && (to matches ProfilePhase::Closing(c)
            && c@.len() == 0),
        ws::session_step(ProfilePhase::Closing(cookies), false, ProfileEvent::Closed) == Some(
            (ProfileAction::DestroyCapturingNative, ProfilePhase::Reading(Some(cookies))),
        ),
        ({
            let step = ws::session_step(
                ProfilePhase::Reading(Some(cookies)),
                false,
                ProfileEvent::NativeCaptured { indexeddb, local_storage },
            );
            &&& step matches Some((ProfileAction::Deposit(p), ProfilePhase::Over)) && p.cookies
                == cookies && p.local_storage == local_storage && p.indexeddb == indexeddb
        }),
        ws::session_step(
            ProfilePhase::Reading(None),
            false,
            ProfileEvent::NativeCaptured { indexeddb, local_storage },
        ) == Some((ProfileAction::Done, ProfilePhase::Over)),
        ws::session_step(ProfilePhase::Destroying, true, ProfileEvent::Destroyed) == Some(
            (ProfileAction::Done, ProfilePhase::Over),
        ),
{
}

/// Sweeping keeps exactly what is younger than the time to live, as it is.
pub proof fn sweeping_keeps_the_young(s: StoreView, token: Seq<char>, now: u128)
    ensures
        s.swept(now).ttl == s.ttl && s.swept(now).max_pending == s.max_pending,
        s.held.contains_key(token) && s.held[token].at <= now ==> (s.swept(now).held.contains_key(
            token,
        ) <==> now < s.held[token].at + s.ttl),
        s.swept(now).held.contains_key(token) ==> s.held.contains_key(token) && s.swept(
            now,
        ).held[token] == s.held[token],
        !s.held.contains_key(token) ==> !s.swept(now).held.contains_key(token),
{
}

/// A profile that is dropped off is kept under its token, pending, since then;
/// unless the store is full of what has not expired, or there is no token.
pub proof fn dropped_off_profile_is_kept(
    s: StoreView,
    token: Seq<char>,
    payload: ProfilePayload,
    now: u128,
)
    ensures
        ({
            let (r, w) = s.dropped_off(Some(token), payload, now);
            let room = s.swept(now).held.dom().len() < s.max_pending;
            &&& room ==> r == Some(token) && w.held.contains_key(token) && w.held[token] == (Held {
                slot: Slot::Pending(payload),
                at: now,
            })
            &&& !room ==> r is None && w == s.swept(now)
            &&& forall|t: Seq<char>|
                t != token ==> (#[trigger] w.held.contains_key(t) <==> s.swept(
                    now,
                ).held.contains_key(t)) && (w.held.contains_key(t) ==> w.held[t] == s.held[t])
        }),
        s.dropped_off(None, payload, now).0 is None,
        s.dropped_off(None, payload, now).1 == s.swept(now),
{
}

/// Claiming hands the pending profile out and marks it as out, since then;
/// depositing puts the result in its place, since then; picking up hands that
/// out and removes it.
pub proof fn hand_off_goes_its_way(
    s: StoreView,
    token: Seq<char>,
    p: ProfilePayload,
    at: u128,
    now: u128,
)
    requires
        at <= now < at + s.ttl,
        s.held.contains_key(token),
        s.held[token].at == at,
    ensures
        s.held[token].slot == Slot::Pending(p) ==> s.claimed(token, now).0 == Some(p) && s.claimed(
            token,
            now,
        ).1.held[token] == (Held { slot: Slot::InFlight, at: now }),
        !(s.held[token].slot is Pending) ==> s.claimed(token, now).0 is None,
        s.held[token].slot is InFlight ==> s.deposited(token, p, now).held[token] == (Held {
            slot: Slot::Ready(p),
            at: now,
        }),
        !(s.held[token].slot is InFlight) ==> s.deposited(token, p, now) == s,
        s.held[token].slot == Slot::Ready(p) ==> s.picked_up(token, now).0 == Some(p)
            && !s.picked_up(token, now).1.held.contains_key(token),
        !(s.held[token].slot is Ready) ==> s.picked_up(token, now).0 is None && s.picked_up(
            token,
            now,
        ).1.held[token] == s.held[token],
{
}

/// A configured ceiling is the ceiling; otherwise it comes from the host and
/// what a browser uses.
pub proof fn configured_ceiling_wins(
    pool: PoolConfig,
    limits: HostLimits,
    footprint: Option<SessionFootprint>,
)
    ensures
        pool.max_sessions_set ==> server::ceiling_of(pool, limits, footprint) == (
            pool.max_sessions as int,
            "config"@,
        ),
        !pool.max_sessions_set ==> server::ceiling_of(pool, limits, footprint) == (
            crate::capacity::clamped(crate::capacity::tightest(limits, footprint).0),
            crate::capacity::tightest(limits, footprint).1,
        ),
{
}

/// The pool is sized as configured: counts as they are, times in nanoseconds.
pub proof fn pool_is_sized_as_configured(pool: PoolConfig, max_sessions: int)
    requires
        0 <= max_sessions <= u32::MAX,
    ensures
        ({
            let o = server::options_of(pool, max_sessions);
            &&& o.min_ready == pool.min_ready as usize
            &&& o.max_sessions == max_sessions as usize
            &&& o.max_queue == pool.max_queue as usize
            &&& o.queue_timeout == pool.queue_timeout_ms * 1_000_000
            &&& o.warm_idle == pool.warm_idle_ms * 1_000_000
            &&& o.warm_max_age == pool.warm_max_age_ms * 1_000_000
        }),
        server::unopened(pool).max_sessions == 0 && server::unopened(pool).min_ready == 0
            && server::unopened(pool).max_queue == pool.max_queue as usize
            && server::unopened(pool).queue_timeout == pool.queue_timeout_ms * 1_000_000,
{
}

/// A dropped-off profile is answered with its token and how long it is kept; one
/// that found no room is refused as busy, and says so. The store is as the
/// drop-off left it.
pub proof fn drop_off_is_answered(
    token: Option<Seq<char>>,
    left: StoreView,
    reply: Reply,
    after: StoreView,
)
    requires
        http::stored((token, left), reply, after),
    ensures
        after == left,
        token matches Some(t) ==> reply.status == 200 && reply.body@ == JsonView::Object(
            seq![("profileToken"@, JsonView::Str(t)), ("expiresInSec"@, JsonView::UInt(120))],
        ),
        token is None ==> reply.status == 503 && reply.body@ == JsonView::Object(
            seq![
                ("error"@, JsonView::Str("profile_store_full"@)),
                ("detail"@, JsonView::Str("too many pending profiles"@)),
            ],
        ),
{
}

} // verus!
