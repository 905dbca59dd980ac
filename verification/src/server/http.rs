//! Probe and discovery handlers.

use crate::chrome::launch::BrowserVersion;
use crate::config::PressureConfig;
use crate::json;
use crate::json::{Json, JsonView, Member};
use crate::linux::tiers::Tiers;
use crate::pool::{Admission, ClaimError, PoolStats, PoolView};
use crate::pressure;
use crate::pressure::{Excess, Load};
use crate::profile::payload::ProfilePayload;
use crate::server::auth;
use crate::server::profiles;
use crate::server::profiles::{ProfileStore, StoreView, PROFILE_TTL};
use crate::text;
use vstd::prelude::*;

verus! {

/// The request was served.
pub const OK: u16 = 200;

/// The request carries no valid credentials.
pub const UNAUTHORIZED: u16 = 401;

/// There is nothing of that name.
pub const NOT_FOUND: u16 = 404;

/// The server is at fault.
pub const INTERNAL_SERVER_ERROR: u16 = 500;

/// The server cannot serve the request now; the client should try again.
pub const SERVICE_UNAVAILABLE: u16 = 503;

/// An HTTP answer.
#[derive(Debug)]
pub struct Reply {
    /// The status code.
    pub status: u16,
    /// The JSON body.
    pub body: Json,
}

/// One query parameter.
#[derive(Debug)]
pub struct Param {
    /// Its name.
    pub name: String,
    /// Its value.
    pub value: String,
}

/// The value of the first parameter of this name.
pub open spec fn param_of(query: Seq<Param>, name: Seq<char>) -> Option<Seq<char>>
    decreases query.len(),
{
    if query.len() == 0 {
        None
    } else if query[0].name@ == name {
        Some(query[0].value@)
    } else {
        param_of(query.skip(1), name)
    }
}

/// The value of a query parameter, if it is given.
pub fn param<'a>(query: &'a Vec<Param>, name: &str) -> (r: Option<&'a str>)
    ensures
        text::opt_str(r) == param_of(query@, name@),
{
    let mut i: usize = 0;
    assert(query@.skip(0) =~= query@);
    while i < query.len()
        invariant
            i <= query@.len(),
            param_of(query@.skip(i as int), name@) == param_of(query@, name@),
        decreases query.len() - i,
    {
        assert(query@.skip(i as int)[0] == query@[i as int]);
        assert(query@.skip(i as int).skip(1) =~= query@.skip(i + 1));
        if text::same(query[i].name.as_str(), name) {
            return Some(query[i].value.as_str());
        }
        i += 1;
    }
    None
}

/// What an unauthorized request is answered.
pub open spec fn unauthorized_body() -> JsonView {
    JsonView::Object(seq![("error"@, JsonView::Str("unauthorized"@))])
}

/// What an unauthorized request is answered.
pub fn unauthorized() -> (r: Reply)
    ensures
        r.status == UNAUTHORIZED,
        r.body@ == unauthorized_body(),
{
    let mut members: Vec<Member> = Vec::new();
    members.push(json::member("error", Json::string("unauthorized")));
    assert(json::members_view(members@) =~= unauthorized_body()->Object_0);
    Reply { status: UNAUTHORIZED, body: Json::object(members) }
}

/// Whether a request's credentials are the configured ones.
pub fn check_auth(
    token: Option<&str>,
    query: &Vec<Param>,
    authorization_header: Option<&str>,
) -> (r: bool)
    ensures
        r == auth::may_pass(
            text::opt_str(token),
            param_of(query@, "token"@),
            text::opt_str(authorization_header),
        ),
{
    auth::authorized(token, param(query, "token"), authorization_header)
}

/// `GET /live`: the process is up.
pub fn live() -> (r: &'static str)
    ensures
        r@ == "ok"@,
{
    "ok"
}

/// Whether a session could be served right now: the pool accepts claims, and
/// there is a warm session or room for one.
pub open spec fn is_ready(stats: PoolStats) -> bool {
    stats.accepting && (stats.warm > 0 || stats.running < stats.max_sessions)
}

/// `GET /ready`: a session could be served right now.
pub fn ready(stats: PoolStats) -> (r: Reply)
    ensures
        r.status == (if is_ready(stats) {
            OK
        } else {
            SERVICE_UNAVAILABLE
        }),
        r.body@ == JsonView::Object(
            seq![
                ("ready"@, JsonView::Bool(is_ready(stats))),
                ("warm"@, JsonView::UInt(stats.warm as u64)),
            ],
        ),
{
    let ready = stats.accepting && (stats.warm > 0 || stats.running < stats.max_sessions);
    let mut members: Vec<Member> = Vec::new();
    members.push(json::member("ready", Json::Bool(ready)));
    members.push(json::member("warm", Json::UInt(stats.warm as u64)));
    assert(json::members_view(members@) =~= seq![
        ("ready"@, JsonView::Bool(is_ready(stats))),
        ("warm"@, JsonView::UInt(stats.warm as u64)),
    ]);
    Reply {
        status: if ready {
            OK
        } else {
            SERVICE_UNAVAILABLE
        },
        body: Json::object(members),
    }
}

/// Why no session is available, or nothing if one is.
pub open spec fn reason_of(stats: PoolStats, load: Load, limits: PressureConfig) -> Seq<char> {
    if !stats.accepting {
        "draining"@
    } else if stats.running >= stats.max_sessions && stats.queued >= stats.max_queue {
        "full"@
    } else {
        match pressure::excess_of(load, limits) {
            Excess::Cpu => "cpu"@,
            Excess::Memory => "memory"@,
            Excess::Nothing => ""@,
        }
    }
}

/// Why no session is available, or nothing if one is.
pub fn pressure_reason(stats: PoolStats, load: Load, limits: PressureConfig) -> (r: &'static str)
    ensures
        r@ == reason_of(stats, load, limits),
{
    if !stats.accepting {
        "draining"
    } else if stats.running >= stats.max_sessions && stats.queued >= stats.max_queue {
        "full"
    } else {
        match pressure::excess(load, limits) {
            Excess::Cpu => "cpu",
            Excess::Memory => "memory",
            Excess::Nothing => "",
        }
    }
}

/// The isolation tiers as JSON.
pub open spec fn tiers_json(tiers: Tiers) -> JsonView {
    JsonView::Object(
        seq![
            ("kill"@, JsonView::Str(tiers.kill.keyed())),
            ("memcap"@, JsonView::Str(tiers.memcap.keyed())),
            ("profile"@, JsonView::Str(tiers.profile.keyed())),
            (
                "notes"@,
                JsonView::Array(
                    text::views(tiers.notes@).map_values(|n: Seq<char>| JsonView::Str(n)),
                ),
            ),
        ],
    )
}

fn isolation(tiers: &Tiers) -> (r: Json)
    ensures
        r@ == tiers_json(*tiers),
{
    let mut notes: Vec<Json> = Vec::new();
    let ghost all = text::views(tiers.notes@);
    let mut i: usize = 0;
    while i < tiers.notes.len()
        invariant
            i <= tiers.notes@.len(),
            all == text::views(tiers.notes@),
            notes@.len() == i,
            forall|k: int| 0 <= k < i ==> (#[trigger] notes@[k])@ == JsonView::Str(all[k]),
        decreases tiers.notes.len() - i,
    {
        notes.push(Json::string(tiers.notes[i].as_str()));
        i += 1;
    }
    assert(json::items_view(notes@) =~= all.map_values(|n: Seq<char>| JsonView::Str(n)));
    let mut members: Vec<Member> = Vec::new();
    members.push(json::member("kill", Json::string(tiers.kill.key())));
    members.push(json::member("memcap", Json::string(tiers.memcap.key())));
    members.push(json::member("profile", Json::string(tiers.profile.key())));
    members.push(json::member("notes", Json::array(notes)));
    assert(json::members_view(members@) =~= tiers_json(*tiers)->Object_0);
    Json::object(members)
}

/// The load readings as they are reported: what the rules compare, and the
/// texts of the same numbers.
#[derive(Debug)]
pub struct LoadReport {
    /// The readings.
    pub load: Load,
    /// CPU usage as a JSON number.
    pub cpu_number: String,
    /// Memory usage as a JSON number.
    pub memory_number: String,
    /// CPU usage without decimals.
    pub cpu_rounded: String,
    /// Memory usage without decimals.
    pub memory_rounded: String,
}

/// What `GET /pressure` is answered.
pub open spec fn pressure_body(
    stats: PoolStats,
    report: LoadReport,
    limits: PressureConfig,
    capacity_source: Seq<char>,
    tiers: Tiers,
    date_ms: u64,
) -> JsonView {
    let reason = reason_of(stats, report.load, limits);
    JsonView::Object(
        seq![
            ("running"@, JsonView::UInt(stats.running as u64)),
            ("queued"@, JsonView::UInt(stats.queued as u64)),
            ("warm"@, JsonView::UInt(stats.warm as u64)),
            ("isAvailable"@, JsonView::Bool(reason.len() == 0)),
            ("maxConcurrent"@, JsonView::UInt(stats.max_sessions as u64)),
            ("maxQueued"@, JsonView::UInt(stats.max_queue as u64)),
            ("cpu"@, JsonView::Real(report.cpu_number@)),
            ("memory"@, JsonView::Real(report.memory_number@)),
            ("reason"@, JsonView::Str(reason)),
            ("capacitySource"@, JsonView::Str(capacity_source)),
            ("isolation"@, tiers_json(tiers)),
            ("date"@, JsonView::UInt(date_ms)),
        ],
    )
}

/// `GET /pressure`: load and capacity in the industry-standard shape.
pub fn pressure(
    stats: PoolStats,
    report: &LoadReport,
    limits: PressureConfig,
    capacity_source: &str,
    tiers: &Tiers,
    date_ms: u64,
) -> (r: Reply)
    ensures
        r.status == OK,
        r.body@ == pressure_body(stats, *report, limits, capacity_source@, *tiers, date_ms),
{
    let reason = pressure_reason(stats, report.load, limits);
    let available = reason.unicode_len() == 0;
    let mut members: Vec<Member> = Vec::new();
    members.push(json::member("running", Json::UInt(stats.running as u64)));
    members.push(json::member("queued", Json::UInt(stats.queued as u64)));
    members.push(json::member("warm", Json::UInt(stats.warm as u64)));
    members.push(json::member("isAvailable", Json::Bool(available)));
    members.push(json::member("maxConcurrent", Json::UInt(stats.max_sessions as u64)));
    members.push(json::member("maxQueued", Json::UInt(stats.max_queue as u64)));
    members.push(json::member("cpu", Json::Real(report.cpu_number.clone())));
    members.push(json::member("memory", Json::Real(report.memory_number.clone())));
    members.push(json::member("reason", Json::string(reason)));
    members.push(json::member("capacitySource", Json::string(capacity_source)));
    members.push(json::member("isolation", isolation(tiers)));
    members.push(json::member("date", Json::UInt(date_ms)));
    let ghost want = pressure_body(stats, *report, limits, capacity_source@, *tiers, date_ms);
    assert(json::members_view(members@) =~= want->Object_0);
    Reply { status: OK, body: Json::object(members) }
}

/// The address that clients connect to: the configured one, else the one they
/// asked, with one slash behind it and the token if there is one.
pub open spec fn ws_url_of(
    external_address: Option<Seq<char>>,
    host: Option<Seq<char>>,
    token: Option<Seq<char>>,
) -> Seq<char> {
    let base = match external_address {
        Some(address) => address,
        None => "ws://"@ + match host {
            Some(h) => h,
            None => "localhost:9222"@,
        },
    };
    let url = text::drop_back(base, text::isp('/')) + "/"@;
    match token {
        Some(t) => url + "?token="@ + t,
        None => url,
    }
}

/// The address that clients connect to.
pub fn ws_url(external_address: Option<&str>, host: Option<&str>, token: Option<&str>) -> (r:
    String)
    ensures
        r@ == ws_url_of(
            text::opt_str(external_address),
            text::opt_str(host),
            text::opt_str(token),
        ),
{
    let base = match external_address {
        Some(address) => address.to_owned(),
        None => {
            let mut s = "ws://".to_owned();
            match host {
                Some(h) => s.append(h),
                None => s.append("localhost:9222"),
            }
            s
        },
    };
    let mut url = text::trim_end_char(base.as_str(), '/');
    url.append("/");
    if let Some(t) = token {
        url.append("?token=");
        url.append(t);
    }
    url
}

/// What `GET /json/version` needs to know of the server.
#[derive(Debug)]
pub struct Discovery {
    /// The configured token, if there is one.
    pub token: Option<String>,
    /// The configured public address, if there is one.
    pub external_address: Option<String>,
    /// The version that a launched browser reported, if one was launched.
    pub version: Option<BrowserVersion>,
    /// The version of this server.
    pub server_version: String,
    /// The session ceiling.
    pub max_concurrent: usize,
}

/// What `GET /json/version` is answered: the facts that a launched browser
/// reported, empty before the first one was launched, and how to connect.
pub open spec fn version_body(d: Discovery, host: Option<Seq<char>>) -> JsonView {
    let none = Seq::<char>::empty();
    JsonView::Object(
        seq![
            (
                "Browser"@,
                JsonView::Str(
                    match d.version {
                        Some(v) => v.product@,
                        None => none,
                    },
                ),
            ),
            (
                "Protocol-Version"@,
                JsonView::Str(
                    match d.version {
                        Some(v) => v.protocol_version@,
                        None => none,
                    },
                ),
            ),
            (
                "User-Agent"@,
                JsonView::Str(
                    match d.version {
                        Some(v) => v.user_agent@,
                        None => none,
                    },
                ),
            ),
            (
                "V8-Version"@,
                JsonView::Str(
                    match d.version {
                        Some(v) => v.js_version@,
                        None => none,
                    },
                ),
            ),
            (
                "webSocketDebuggerUrl"@,
                JsonView::Str(
                    ws_url_of(text::opt_view(d.external_address), host, text::opt_view(d.token)),
                ),
            ),
            ("Browserserve-Version"@, JsonView::Str(d.server_version@)),
            ("Browserserve-MaxConcurrent"@, JsonView::UInt(d.max_concurrent as u64)),
        ],
    )
}

fn borrowed(s: &Option<String>) -> (r: Option<&str>)
    ensures
        text::opt_str(r) == text::opt_view(*s),
{
    match s {
        Some(t) => Some(t.as_str()),
        None => None,
    }
}

/// `GET /json/version` (and `/json/version/`): CDP discovery for Puppeteer's
/// `browserURL` and Playwright's `connectOverCDP`. It is answered at once,
/// whether or not a browser has been launched yet.
pub fn json_version(
    d: &Discovery,
    query: &Vec<Param>,
    authorization_header: Option<&str>,
    host: Option<&str>,
) -> (r: Reply)
    ensures
        ({
            let pass = auth::may_pass(
                text::opt_view(d.token),
                param_of(query@, "token"@),
                text::opt_str(authorization_header),
            );
            &&& !pass ==> r.status == UNAUTHORIZED && r.body@ == unauthorized_body()
            &&& pass ==> r.status == OK && r.body@ == version_body(*d, text::opt_str(host))
        }),
{
    if !check_auth(borrowed(&d.token), query, authorization_header) {
        return unauthorized();
    }
    let version = match &d.version {
        Some(v) => v.clone(),
        None => BrowserVersion::default(),
    };
    let url = ws_url(borrowed(&d.external_address), host, borrowed(&d.token));
    let mut members: Vec<Member> = Vec::new();
    members.push(json::member("Browser", Json::string(version.product.as_str())));
    members.push(json::member("Protocol-Version", Json::string(version.protocol_version.as_str())));
    members.push(json::member("User-Agent", Json::string(version.user_agent.as_str())));
    members.push(json::member("V8-Version", Json::string(version.js_version.as_str())));
    members.push(json::member("webSocketDebuggerUrl", Json::string(url.as_str())));
    members.push(json::member("Browserserve-Version", Json::string(d.server_version.as_str())));
    members.push(
        json::member("Browserserve-MaxConcurrent", Json::UInt(d.max_concurrent as u64)),
    );
    assert(json::members_view(members@) =~= version_body(*d, text::opt_str(host))->Object_0);
    Reply { status: OK, body: Json::object(members) }
}

/// What a request that is turned away is answered.
pub open spec fn rejection(reason: Seq<char>, detail: Seq<char>) -> JsonView {
    JsonView::Object(seq![("error"@, JsonView::Str(reason)), ("detail"@, JsonView::Str(detail))])
}

/// What a request that is turned away is answered.
pub fn reject(status: u16, reason: &str, detail: &str) -> (r: Reply)
    ensures
        r.status == status,
        r.body@ == rejection(reason@, detail@),
{
    let mut members: Vec<Member> = Vec::new();
    members.push(json::member("error", Json::string(reason)));
    members.push(json::member("detail", Json::string(detail)));
    assert(json::members_view(members@) =~= rejection(reason@, detail@)->Object_0);
    Reply { status, body: Json::object(members) }
}

/// What a dropped-off profile is answered: its one-time token and how many
/// seconds it lives, or that there is no room for it.
pub open spec fn dropped_off_body(token: Option<Seq<char>>) -> JsonView {
    match token {
        Some(t) => JsonView::Object(
            seq![("profileToken"@, JsonView::Str(t)), ("expiresInSec"@, JsonView::UInt(120))],
        ),
        None => rejection("profile_store_full"@, "too many pending profiles"@),
    }
}

/// What a dropped-off profile is answered.
pub fn dropped_off(token: Option<&str>) -> (r: Reply)
    ensures
        r.status == (if token is Some {
            OK
        } else {
            SERVICE_UNAVAILABLE
        }),
        r.body@ == dropped_off_body(text::opt_str(token)),
{
    match token {
        Some(t) => {
            let lives: u64 = (PROFILE_TTL / 1_000_000_000) as u64;
            let mut members: Vec<Member> = Vec::new();
            members.push(json::member("profileToken", Json::string(t)));
            members.push(json::member("expiresInSec", Json::UInt(lives)));
            assert(json::members_view(members@) =~= dropped_off_body(Some(t@))->Object_0);
            Reply { status: OK, body: Json::object(members) }
        },
        None => reject(
            SERVICE_UNAVAILABLE,
            "profile_store_full",
            "too many pending profiles",
        ),
    }
}

/// `POST /v1/profile`: drops off a profile for one later session.
pub fn post_profile(
    token: Option<&str>,
    query: &Vec<Param>,
    authorization_header: Option<&str>,
    payload: ProfilePayload,
    profiles: &mut ProfileStore,
    now: u128,
) -> (r: Reply)
    requires
        old(profiles).wf(),
    ensures
        final(profiles).wf(),
        ({
            let pass = auth::may_pass(
                text::opt_str(token),
                param_of(query@, "token"@),
                text::opt_str(authorization_header),
            );
            &&& !pass ==> r.status == UNAUTHORIZED && r.body@ == unauthorized_body()
            &&& !pass ==> final(profiles)@ == old(profiles)@
            &&& pass ==> exists|minted: Option<Seq<char>>|
                (minted matches Some(t) ==> profiles::token_shaped(t)) && stored(
                    #[trigger] old(profiles)@.dropped_off(minted, payload, now),
                    r,
                    final(profiles)@,
                )
        }),
{
    if !check_auth(token, query, authorization_header) {
        return unauthorized();
    }
    let dropped = profiles.drop_off(payload, now);
    let r = match &dropped {
        Some(t) => dropped_off(Some(t.as_str())),
        None => dropped_off(None),
    };
    proof {
        let minted = choose|minted: Option<Seq<char>>|
            (minted matches Some(t) ==> profiles::token_shaped(t)) && (
                text::opt_view(dropped),
                profiles@,
            ) == #[trigger] old(profiles)@.dropped_off(minted, payload, now);
        assert(stored(old(profiles)@.dropped_off(minted, payload, now), r, profiles@));
    }
    r
}

/// Whether a drop-off with this outcome is answered and kept like this.
pub open spec fn stored(
    outcome: (Option<Seq<char>>, StoreView),
    reply: Reply,
    after: StoreView,
) -> bool {
    &&& after == outcome.1
    &&& reply.status == (if outcome.0 is Some {
        OK
    } else {
        SERVICE_UNAVAILABLE
    })
    &&& reply.body@ == dropped_off_body(outcome.0)
}

/// What a pick-up leads to.
pub enum PickUp {
    /// This answer.
    Reply(Reply),
    /// The captured profile, which is the answer.
    Profile(ProfilePayload),
}

/// `GET /v1/profile/{token}`: picks up the captured profile, once.
pub fn get_profile(
    token: Option<&str>,
    query: &Vec<Param>,
    authorization_header: Option<&str>,
    wanted: &str,
    profiles: &mut ProfileStore,
    now: u128,
) -> (r: PickUp)
    requires
        old(profiles).wf(),
    ensures
        final(profiles).wf(),
        ({
            let pass = auth::may_pass(
                text::opt_str(token),
                param_of(query@, "token"@),
                text::opt_str(authorization_header),
            );
            let (found, store) = old(profiles)@.picked_up(wanted@, now);
            &&& !pass ==> final(profiles)@ == old(profiles)@ && (r matches PickUp::Reply(reply)
                && reply.status == UNAUTHORIZED && reply.body@ == unauthorized_body())
            &&& pass ==> final(profiles)@ == store && match found {
                Some(p) => r == PickUp::Profile(p),
                None => r matches PickUp::Reply(reply) && reply.status == NOT_FOUND && reply.body@
                    == rejection(
                    "unknown_profile_token"@,
                    "no captured profile for this token"@,
                ),
            }
        }),
{
    if !check_auth(token, query, authorization_header) {
        return PickUp::Reply(unauthorized());
    }
    match profiles.pick_up(wanted, now) {
        Some(payload) => PickUp::Profile(payload),
        None => PickUp::Reply(
            reject(NOT_FOUND, "unknown_profile_token", "no captured profile for this token"),
        ),
    }
}

/// An instance that reports no reason against it takes the next claim (at once
/// or after a wait), and no connection is refused for the host's load.
pub proof fn available_instance_takes_claims<S>(
    pool: PoolView<S>,
    stats: PoolStats,
    load: Load,
    limits: PressureConfig,
)
    requires
        pool.wf(),
        pool.shows(stats),
        reason_of(stats, load, limits).len() == 0,
    ensures
        pool.claim_of().0 is Ok,
        pressure::excess_of(load, limits) is Nothing,
{
    reveal_strlit("draining");
    reveal_strlit("full");
    reveal_strlit("cpu");
    reveal_strlit("memory");
}

/// A draining instance is never ready, and says why; one that is ready and has
/// a free slot admits the next claim at once.
pub proof fn readiness_is_honest<S>(
    pool: PoolView<S>,
    stats: PoolStats,
    load: Load,
    limits: PressureConfig,
)
    requires
        pool.wf(),
        pool.shows(stats),
    ensures
        pool.closed ==> !is_ready(stats) && reason_of(stats, load, limits) == "draining"@,
        is_ready(stats) && stats.running < stats.max_sessions ==> pool.claim_of().0 == Ok::<
            Admission,
            ClaimError,
        >(Admission::Admitted),
{
}

} // verus!
