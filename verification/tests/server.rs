use browserserve::bridge::{
    bridge_reclaimable, pump_browser_to_client, pump_client_to_browser, BridgeEnd, BrowserEvent,
    BrowserStep, ClientEvent, ClientStep, PumpExit,
};
use browserserve::capacity::{compute, HostLimits, SessionFootprint};
use browserserve::chrome::find::FindError;
use browserserve::chrome::launch::BrowserVersion;
use browserserve::config::{load, EnvVar, Loaded, PoolConfig, PressureConfig, RuntimeConfig, SessionConfig};
use browserserve::factory::footprint;
use browserserve::json::{write_text, Json};
use browserserve::linux::tiers::{KillTier, MemCapTier, ProfileTier, Tiers};
use browserserve::pool::{
    Admission, ClaimError, Pool, PoolStats, WaitEvent, WaitStep,
};
use browserserve::pressure::{excess, Excess, Load, PressureGauge};
use browserserve::profile::cookie::{Cookie, SameSite};
use browserserve::profile::payload::ProfilePayload;
use browserserve::scalar::Scalar;
use browserserve::server::auth::authorized;
use browserserve::server::http::{
    dropped_off, get_profile, json_version, live, post_profile, pressure, pressure_reason, ready,
    ws_url, Discovery, LoadReport, Param, PickUp, Reply,
};
use browserserve::server::profiles::{token_from, ProfileStore, PROFILE_TTL};
use browserserve::server::ws::{
    claim_failed, claim_status, lifetime, no_transport, seed_failed, ws_handler, ProfileAction,
    ProfileEvent, ProfileSession, WsStep,
};
use browserserve::server::{
    pool_options, session_ceiling, unopened_options, Serve, ServeAction, ServeEvent,
};

fn scalar(x: f64) -> Scalar {
    Scalar { bits: x.to_bits() }
}

fn text_of(reply: &Reply) -> String {
    write_text(&reply.body)
}

// auth

#[test]
fn no_configured_token_allows_everything() {
    assert!(authorized(None, None, None));
    assert!(authorized(None, Some("anything"), None));
}

#[test]
fn query_token_must_match_exactly() {
    assert!(authorized(Some("secret"), Some("secret"), None));
    assert!(!authorized(Some("secret"), Some("secre"), None));
    assert!(!authorized(Some("secret"), Some("secretx"), None));
    assert!(!authorized(Some("secret"), Some(""), None));
}

#[test]
fn bearer_header_works_when_no_query_token() {
    assert!(authorized(Some("secret"), None, Some("Bearer secret")));
    assert!(authorized(Some("secret"), None, Some("Bearer secret ")));
    assert!(!authorized(Some("secret"), None, Some("Bearer wrong")));
    assert!(!authorized(Some("secret"), None, Some("Basic secret")));
    assert!(!authorized(Some("secret"), None, None));
}

#[test]
fn query_token_takes_precedence_over_header() {
    assert!(!authorized(
        Some("secret"),
        Some("wrong"),
        Some("Bearer secret")
    ));
}

// the profile store

const MS: u128 = 1_000_000;

fn payload(cookie_name: &str) -> ProfilePayload {
    ProfilePayload {
        cookies: vec![Cookie {
            name: cookie_name.into(),
            value: "v".into(),
            domain: "example.com".into(),
            path: "/".into(),
            expires: scalar(-1.0),
            secure: true,
            http_only: true,
            same_site: Some(SameSite::Lax),
            priority: None,
            source_scheme: None,
            source_port: None,
            partition_key: None,
            partition_key_opaque: false,
        }],
        local_storage: vec![],
        indexeddb: vec![],
    }
}

fn store() -> ProfileStore {
    ProfileStore::new(60_000 * MS, 100)
}

#[test]
fn tokens_are_unguessable_length() {
    let mut s = store();
    let t = s.drop_off(payload("a"), 0).unwrap();
    // 32 bytes url-safe-base64-no-pad = 43 chars, no '+', '/', or '='.
    assert_eq!(t.len(), 43);
    assert!(!t.contains(['+', '/', '=']));
    assert_ne!(t, s.drop_off(payload("b"), 0).unwrap(), "tokens differ");
}

#[test]
fn full_round_trip_drop_claim_deposit_pickup() {
    let mut s = store();
    let token = s.drop_off(payload("sess"), 0).unwrap();

    let claimed = s.claim(&token, 1).expect("claim pending");
    assert_eq!(claimed.cookies[0].name, "sess");

    s.deposit_result(&token, payload("captured"), 2);
    let picked = s.pick_up(&token, 3).expect("pick up ready");
    assert_eq!(picked.cookies[0].name, "captured");
}

#[test]
fn claim_is_single_use() {
    let mut s = store();
    let token = s.drop_off(payload("a"), 0).unwrap();
    assert!(s.claim(&token, 0).is_some());
    assert!(s.claim(&token, 0).is_none(), "second claim must fail");
}

#[test]
fn pickup_before_ready_is_none_and_unknown_token_is_none() {
    let mut s = store();
    let token = s.drop_off(payload("a"), 0).unwrap();
    assert!(s.pick_up(&token, 0).is_none(), "not ready yet");
    s.claim(&token, 0).unwrap();
    assert!(s.pick_up(&token, 0).is_none(), "in-flight, not ready");
    assert!(s.claim("nope", 0).is_none());
    assert!(s.pick_up("nope", 0).is_none());
}

#[test]
fn pickup_is_single_use() {
    let mut s = store();
    let token = s.drop_off(payload("a"), 0).unwrap();
    s.claim(&token, 0).unwrap();
    s.deposit_result(&token, payload("c"), 0);
    assert!(s.pick_up(&token, 0).is_some());
    assert!(s.pick_up(&token, 0).is_none(), "second pick-up must fail");
}

#[test]
fn max_pending_applies_backpressure() {
    let mut s = ProfileStore::new(60_000 * MS, 2);
    assert!(s.drop_off(payload("a"), 0).is_some());
    assert!(s.drop_off(payload("b"), 0).is_some());
    assert!(s.drop_off(payload("c"), 0).is_none(), "over the cap");
}

#[test]
fn entries_expire_after_ttl() {
    let mut s = ProfileStore::new(50 * MS, 100);
    let token = s.drop_off(payload("a"), 0).unwrap();
    assert!(s.claim(&token, 80 * MS).is_none(), "expired entry is swept");
}

#[test]
fn only_claimed_profiles_take_a_result() {
    let mut s = store();
    s.deposit_result("nope", payload("x"), 0);
    assert!(s.pick_up("nope", 0).is_none());
    let token = s.drop_off(payload("a"), 0).unwrap();
    s.deposit_result(&token, payload("x"), 0);
    assert_eq!(s.claim(&token, 0).unwrap().cookies[0].name, "a");
}

#[test]
fn late_results_are_dropped() {
    let mut s = ProfileStore::new(50 * MS, 100);
    let token = s.drop_off(payload("a"), 0).unwrap();
    s.claim(&token, 10 * MS).unwrap();
    s.deposit_result(&token, payload("late"), 60 * MS);
    assert!(s.pick_up(&token, 60 * MS).is_none(), "the claim expired");
    let token = s.drop_off(payload("b"), 70 * MS).unwrap();
    s.claim(&token, 80 * MS).unwrap();
    s.deposit_result(&token, payload("first"), 129 * MS);
    s.deposit_result(&token, payload("second"), 130 * MS);
    assert!(s.claim(&token, 140 * MS).is_none());
    assert_eq!(s.pick_up(&token, 178 * MS).unwrap().cookies[0].name, "first");
}

#[test]
fn tokens_are_made_of_the_drawn_bytes() {
    let mut drawn = vec![0xfb, 0xff, 0x00];
    assert_eq!(token_from(true, &mut drawn).as_deref(), Some("-_8A"));
    assert_eq!(drawn, [0, 0, 0], "the bytes are wiped");
    let mut failed = vec![1, 2];
    assert!(token_from(false, &mut failed).is_none());
    assert_eq!(failed, [1, 2]);
}

#[test]
fn hand_offs_do_not_interfere() {
    let mut s = ProfileStore::new(PROFILE_TTL, 8);
    let a = s.drop_off(payload("a"), 0).unwrap();
    let b = s.drop_off(payload("b"), 1).unwrap();
    assert_eq!(s.claim(&b, 2).unwrap().cookies[0].name, "b");
    s.deposit_result(&b, payload("b2"), 3);
    assert_eq!(s.claim(&a, 4).unwrap().cookies[0].name, "a");
    assert!(s.pick_up(&a, 5).is_none());
    assert_eq!(s.pick_up(&b, 6).unwrap().cookies[0].name, "b2");
}

#[test]
fn a_given_token_is_used_as_it_is() {
    let mut s = store();
    assert!(s.drop_off_as(None, payload("a"), 0).is_none());
    let token = s.drop_off_as(Some("t".to_string()), payload("a"), 0).unwrap();
    assert_eq!(token, "t");
    assert!(s.claim("t", 0).is_some());
}

// probes

fn stats(running: usize, queued: usize, warm: usize, accepting: bool) -> PoolStats {
    PoolStats {
        running,
        queued,
        warm,
        max_sessions: 4,
        max_queue: 2,
        accepting,
    }
}

fn load_of(cpu: f64, memory: f64) -> Load {
    Load {
        cpu: scalar(cpu),
        memory: scalar(memory),
    }
}

fn report(cpu: f64, memory: f64) -> LoadReport {
    LoadReport {
        load: load_of(cpu, memory),
        cpu_number: format!("{cpu:?}"),
        memory_number: format!("{memory:?}"),
        cpu_rounded: format!("{cpu:.0}"),
        memory_rounded: format!("{memory:.0}"),
    }
}

#[test]
fn readiness_needs_a_warm_session_or_room() {
    assert_eq!(live(), "ok");
    let reply = ready(stats(0, 0, 0, true));
    assert_eq!(reply.status, 200);
    assert_eq!(text_of(&reply), r#"{"ready":true,"warm":0}"#);
    assert_eq!(ready(stats(4, 0, 1, true)).status, 200);
    assert_eq!(ready(stats(4, 0, 0, true)).status, 503);
    let draining = ready(stats(0, 0, 0, false));
    assert_eq!(draining.status, 503);
    assert_eq!(text_of(&draining), r#"{"ready":false,"warm":0}"#);
}

#[test]
fn pressure_reasons_have_an_order() {
    let limits = PressureConfig::default();
    assert_eq!(pressure_reason(stats(4, 2, 0, false), load_of(99.0, 99.0), limits), "draining");
    assert_eq!(pressure_reason(stats(4, 2, 0, true), load_of(99.0, 99.0), limits), "full");
    assert_eq!(pressure_reason(stats(4, 1, 0, true), load_of(99.0, 99.0), limits), "cpu");
    assert_eq!(pressure_reason(stats(4, 1, 0, true), load_of(95.0, 95.01), limits), "memory");
    assert_eq!(pressure_reason(stats(4, 1, 0, true), load_of(95.0, 95.0), limits), "");
    assert_eq!(excess(load_of(95.1, 99.0), limits), Excess::Cpu);
}

fn some_tiers() -> Tiers {
    Tiers {
        kill: KillTier::Killpg,
        memcap: MemCapTier::RssPoll,
        profile: ProfileTier::PlainCopy,
        notes: vec!["a note".to_string()],
    }
}

#[test]
fn pressure_reports_load_and_capacity() {
    let limits = PressureConfig::default();
    let reply = pressure(stats(1, 0, 2, true), &report(12.5, 40.0), limits, "pids", &some_tiers(), 77);
    assert_eq!(reply.status, 200);
    let body = &reply.body;
    assert_eq!(body.get("running").unwrap().as_u64(), Some(1));
    assert_eq!(body.get("warm").unwrap().as_u64(), Some(2));
    assert!(matches!(body.get("isAvailable"), Some(Json::Bool(true))));
    assert_eq!(body.get("maxConcurrent").unwrap().as_u64(), Some(4));
    assert_eq!(body.get("maxQueued").unwrap().as_u64(), Some(2));
    assert_eq!(body.get("reason").unwrap().as_str(), Some(""));
    assert_eq!(body.get("capacitySource").unwrap().as_str(), Some("pids"));
    assert_eq!(body.get("date").unwrap().as_u64(), Some(77));
    let isolation = body.get("isolation").unwrap();
    assert_eq!(isolation.get("kill").unwrap().as_str(), Some(KillTier::Killpg.key()));
    assert_eq!(isolation.get("notes").unwrap().as_array().unwrap().len(), 1);
    assert!(text_of(&reply).contains("\"cpu\":12.5"));

    let busy = pressure(stats(1, 0, 2, true), &report(99.0, 40.0), limits, "pids", &some_tiers(), 77);
    assert!(matches!(busy.body.get("isAvailable"), Some(Json::Bool(false))));
    assert_eq!(busy.body.get("reason").unwrap().as_str(), Some("cpu"));
}

#[test]
fn gauges_hold_the_latest_sample() {
    let mut gauge = PressureGauge::default();
    assert_eq!(gauge.snapshot(), (0, 0));
    gauge.sample(1234, 20_000);
    assert_eq!(gauge.snapshot(), (1234, 10_000));
}

fn discovery(token: Option<&str>, version: Option<BrowserVersion>) -> Discovery {
    Discovery {
        token: token.map(str::to_string),
        external_address: None,
        version,
        server_version: "0.1.6".to_string(),
        max_concurrent: 10,
    }
}

fn params(pairs: &[(&str, &str)]) -> Vec<Param> {
    pairs
        .iter()
        .map(|(name, value)| Param {
            name: (*name).to_string(),
            value: (*value).to_string(),
        })
        .collect()
}

#[test]
fn discovery_answers_before_the_first_launch() {
    let reply = json_version(&discovery(None, None), &vec![], None, Some("b:9"));
    assert_eq!(reply.status, 200);
    assert_eq!(reply.body.get("Browser").unwrap().as_str(), Some(""));
    assert_eq!(reply.body.get("webSocketDebuggerUrl").unwrap().as_str(), Some("ws://b:9/"));
    assert_eq!(reply.body.get("Browserserve-Version").unwrap().as_str(), Some("0.1.6"));
    assert_eq!(reply.body.get("Browserserve-MaxConcurrent").unwrap().as_u64(), Some(10));
}

#[test]
fn discovery_reports_the_browser_to_authorized_clients() {
    let version = BrowserVersion {
        product: "Chrome/149".to_string(),
        protocol_version: "1.3".to_string(),
        user_agent: "UA".to_string(),
        js_version: "14.9".to_string(),
    };
    let d = discovery(Some("secret"), Some(version));
    let refused = json_version(&d, &params(&[("token", "wrong")]), None, None);
    assert_eq!(refused.status, 401);
    assert_eq!(text_of(&refused), r#"{"error":"unauthorized"}"#);
    let reply = json_version(&d, &vec![], Some("Bearer secret"), None);
    assert_eq!(reply.body.get("Browser").unwrap().as_str(), Some("Chrome/149"));
    assert_eq!(reply.body.get("V8-Version").unwrap().as_str(), Some("14.9"));
    assert_eq!(
        reply.body.get("webSocketDebuggerUrl").unwrap().as_str(),
        Some("ws://localhost:9222/?token=secret")
    );
}

#[test]
fn addresses_get_exactly_one_slash() {
    assert_eq!(ws_url(Some("wss://x.example///"), Some("ignored"), None), "wss://x.example/");
    assert_eq!(ws_url(None, None, Some("t")), "ws://localhost:9222/?token=t");
}

#[test]
fn profile_drop_offs_are_answered_with_their_token() {
    let reply = dropped_off(Some("abc"));
    assert_eq!(reply.status, 200);
    assert_eq!(text_of(&reply), r#"{"expiresInSec":120,"profileToken":"abc"}"#);
    assert_eq!(dropped_off(None).status, 503);
}

#[test]
fn profile_endpoints_require_the_token() {
    let mut profiles = store();
    let none = vec![];
    let refused = post_profile(Some("s"), &none, None, payload("a"), &mut profiles, 0);
    assert_eq!(refused.status, 401);
    let bearer = Some("Bearer s");
    let reply = post_profile(Some("s"), &none, bearer, payload("a"), &mut profiles, 0);
    assert_eq!(reply.status, 200);
    let token = reply.body.get("profileToken").unwrap().as_str().unwrap().to_string();
    assert_eq!(token.len(), 43);

    profiles.claim(&token, 0).unwrap();
    profiles.deposit_result(&token, payload("captured"), 0);
    assert!(matches!(
        get_profile(Some("s"), &none, None, &token, &mut profiles, 0),
        PickUp::Reply(ref r) if r.status == 401
    ));
    assert!(matches!(
        get_profile(Some("s"), &none, bearer, &token, &mut profiles, 0),
        PickUp::Profile(ref p) if p.cookies[0].name == "captured"
    ));
    assert!(matches!(
        get_profile(Some("s"), &none, bearer, &token, &mut profiles, 0),
        PickUp::Reply(ref r) if r.status == 404
    ));
}

// connections

#[test]
fn every_claim_failure_is_503_never_500() {
    let cases = [
        ClaimError::QueueFull { max_queue: 1 },
        ClaimError::QueueTimeout { waited_ms: 1 },
        ClaimError::Closed,
        ClaimError::Launch {
            message: "pids.max exhausted".into(),
        },
    ];
    for e in &cases {
        assert_eq!(claim_status(e).0, 503, "{}", e.message());
        assert_eq!(claim_failed(e).status, 503);
    }
    assert_eq!(
        claim_status(&ClaimError::Launch {
            message: String::new()
        })
        .1,
        "launch_failed"
    );
}

#[test]
fn refusals_say_why() {
    assert_eq!(
        text_of(&claim_failed(&ClaimError::Closed)),
        r#"{"detail":"pool is closed","error":"draining"}"#
    );
    assert_eq!(text_of(&seed_failed("boom")), r#"{"detail":"boom","error":"launch_failed"}"#);
    assert_eq!(no_transport().status, 500);
}

#[test]
fn connections_are_admitted_in_order() {
    let limits = PressureConfig::default();
    let mut profiles = store();
    let idle = report(1.0, 1.0);
    let refused = ws_handler(Some("s"), &vec![], None, &report(99.0, 1.0), limits, &mut profiles, 0);
    assert!(matches!(refused, WsStep::Reply(ref r) if r.status == 401));
    let busy = ws_handler(None, &vec![], None, &report(99.4, 99.0), limits, &mut profiles, 0);
    assert!(
        matches!(busy, WsStep::Reply(ref r) if r.status == 503
            && text_of(r) == r#"{"detail":"cpu at 99%","error":"pressure"}"#)
    );
    let full = ws_handler(None, &vec![], None, &report(9.0, 97.0), limits, &mut profiles, 0);
    assert!(
        matches!(full, WsStep::Reply(ref r) if text_of(r) == r#"{"detail":"memory at 97%","error":"pressure"}"#)
    );
    assert!(matches!(
        ws_handler(None, &vec![], None, &idle, limits, &mut profiles, 0),
        WsStep::Claim
    ));
    let unknown = params(&[("profileToken", "nope")]);
    let lost = ws_handler(None, &unknown, None, &idle, limits, &mut profiles, 0);
    assert!(matches!(lost, WsStep::Reply(ref r) if r.status == 404));
}

#[test]
fn profile_connections_claim_their_profile_once() {
    let limits = PressureConfig::default();
    let mut profiles = store();
    let token = profiles.drop_off(payload("a"), 0).unwrap();
    let query = params(&[("profileToken", &token), ("readOnly", "yes")]);
    let idle = report(1.0, 1.0);
    match ws_handler(None, &query, None, &idle, limits, &mut profiles, 0) {
        WsStep::Seeded {
            token: named,
            payload,
            read_only,
        } => {
            assert_eq!(named, token);
            assert_eq!(payload.cookies[0].name, "a");
            assert!(read_only);
        },
        _ => panic!("expected a seeded session"),
    }
    assert!(matches!(
        ws_handler(None, &query, None, &idle, limits, &mut profiles, 0),
        WsStep::Reply(ref r) if r.status == 404
    ));
}

#[test]
fn a_profile_session_is_seeded_served_and_captured() {
    let (mut session, first) = ProfileSession::begin(true, false);
    assert!(matches!(first, ProfileAction::Attach));
    assert!(session.step(ProfileEvent::Destroyed).is_none());
    let sid = Some("S1".to_string());
    assert!(matches!(session.step(ProfileEvent::Attached(sid)), Some(ProfileAction::ApplyCookies)));
    assert!(matches!(
        session.step(ProfileEvent::CookiesApplied),
        Some(ProfileAction::ApplyStorage(ref s)) if s == "S1"
    ));
    assert!(matches!(session.step(ProfileEvent::StorageApplied), Some(ProfileAction::Serve)));
    assert!(matches!(
        session.step(ProfileEvent::Served { reclaimed: true }),
        Some(ProfileAction::CaptureCookies)
    ));
    let cookies = payload("captured").cookies;
    assert!(matches!(
        session.step(ProfileEvent::CookiesCaptured(Some(cookies))),
        Some(ProfileAction::CloseBrowser(3000))
    ));
    assert!(matches!(
        session.step(ProfileEvent::Closed),
        Some(ProfileAction::DestroyCapturingNative)
    ));
    let last = session.step(ProfileEvent::NativeCaptured {
        indexeddb: vec![],
        local_storage: vec![],
    });
    assert!(matches!(
        last,
        Some(ProfileAction::Deposit(ref p)) if p.cookies[0].name == "captured"
    ));
}

#[test]
fn nothing_is_deposited_for_a_dead_browser_or_a_shared_profile() {
    let (mut died, _) = ProfileSession::begin(true, false);
    assert!(matches!(died.step(ProfileEvent::Attached(None)), Some(ProfileAction::Serve)));
    assert!(matches!(
        died.step(ProfileEvent::Served { reclaimed: false }),
        Some(ProfileAction::DestroyCapturingNative)
    ));
    let last = died.step(ProfileEvent::NativeCaptured {
        indexeddb: vec![],
        local_storage: vec![],
    });
    assert!(matches!(last, Some(ProfileAction::Done)));

    let (mut shared, _) = ProfileSession::begin(true, true);
    shared.step(ProfileEvent::Attached(None));
    assert!(matches!(
        shared.step(ProfileEvent::Served { reclaimed: true }),
        Some(ProfileAction::Destroy)
    ));
    assert!(matches!(shared.step(ProfileEvent::Destroyed), Some(ProfileAction::Done)));

    let (_, broken) = ProfileSession::begin(false, false);
    assert!(matches!(broken, ProfileAction::Destroy));
}

#[test]
fn a_failed_cookie_capture_deposits_none() {
    let (mut session, _) = ProfileSession::begin(true, false);
    session.step(ProfileEvent::Attached(None));
    session.step(ProfileEvent::Served { reclaimed: true });
    session.step(ProfileEvent::CookiesCaptured(None));
    session.step(ProfileEvent::Closed);
    let last = session.step(ProfileEvent::NativeCaptured {
        indexeddb: vec![],
        local_storage: vec![],
    });
    assert!(matches!(last, Some(ProfileAction::Deposit(ref p)) if p.is_empty()));
}

#[test]
fn a_zero_lifetime_is_unlimited() {
    assert_eq!(lifetime(SessionConfig::default()), None);
    let limited = SessionConfig {
        max_session_ms: 5,
        ..SessionConfig::default()
    };
    assert_eq!(lifetime(limited), Some(5));
}

// the bridge

#[test]
fn messages_cross_the_bridge_unchanged() {
    let step = pump_client_to_browser(ClientEvent::Data(b"{\"id\":1}".to_vec()));
    assert!(matches!(step, ClientStep::Forward(ref f) if f == b"{\"id\":1}\0"));
    assert!(matches!(pump_client_to_browser(ClientEvent::Control), ClientStep::Next));
    let text = pump_browser_to_client(BrowserEvent::Frame("h\u{e9}".as_bytes().to_vec()));
    assert!(matches!(text, BrowserStep::Text(ref s) if s == "h\u{e9}"));
    let binary = pump_browser_to_client(BrowserEvent::Frame(vec![0xFF, 0xFE]));
    assert!(matches!(binary, BrowserStep::Binary(ref b) if b == &[0xFF, 0xFE]));
}

#[test]
fn closing_sides_are_told_apart() {
    for event in [ClientEvent::Closed, ClientEvent::SendFailed] {
        assert!(matches!(
            pump_client_to_browser(event),
            ClientStep::Exit(PumpExit::ClientClosed)
        ));
    }
    let gone = pump_browser_to_client(BrowserEvent::Gone);
    assert!(
        matches!(gone, BrowserStep::Close(ref c) if c.code == 1011 && c.reason == "browser closed")
    );
    assert!(matches!(pump_browser_to_client(BrowserEvent::SendFailed), BrowserStep::Exit));

    let ended = bridge_reclaimable(BridgeEnd::Client(PumpExit::ClientClosed));
    assert!(ended.reclaimed && ended.close.is_none());
    let died = bridge_reclaimable(BridgeEnd::Browser);
    assert!(!died.reclaimed && died.close.is_none());
}

#[test]
fn idle_clients_are_told_so() {
    let ClientStep::Exit(exit) = pump_client_to_browser(ClientEvent::Idle(250)) else {
        panic!("an idle client ends the pump");
    };
    let ended = bridge_reclaimable(BridgeEnd::Client(exit));
    assert!(ended.reclaimed);
    let close = ended.close.unwrap();
    assert_eq!(close.code, 1013);
    assert_eq!(close.reason, "idle-timeout after 250ms");
}

// the server's course

fn loaded(min_ready: u32) -> Loaded {
    let config = RuntimeConfig {
        pool: PoolConfig {
            min_ready,
            ..PoolConfig::default()
        },
        ..RuntimeConfig::default()
    };
    let env = vec![EnvVar {
        name: "PORT".to_string(),
        value: "9333".to_string(),
    }];
    load(Some("pool: {}"), Ok(config), &env).unwrap()
}

fn limits() -> HostLimits {
    HostLimits {
        mem_ceiling_bytes: None,
        pids_max: Some(1000),
        cpus: 48,
    }
}

fn bound(server: &mut Serve) -> ServeAction {
    let exe = Ok("/usr/bin/chromium".to_string());
    assert!(matches!(server.step(ServeEvent::BrowserFound(exe)), Some(ServeAction::SweepStale)));
    assert!(matches!(server.step(ServeEvent::Swept(Ok(2))), Some(ServeAction::ProbeHost)));
    assert!(matches!(
        server.step(ServeEvent::Probed(limits())),
        Some(ServeAction::Bind(ref a)) if a == "0.0.0.0:9333"
    ));
    server.step(ServeEvent::Bound(Ok(()))).unwrap()
}

#[test]
fn the_server_warms_up_while_it_serves() {
    let (mut server, first) = Serve::begin(&loaded(1));
    assert!(matches!(first, ServeAction::FindBrowser));
    assert!(matches!(bound(&mut server), ServeAction::ServeAndWarm(options)
        if options.max_sessions == 0 && options.min_ready == 0));
    let footprint = SessionFootprint {
        bytes: 150 << 20,
        threads: 70,
    };
    let open = server.step(ServeEvent::Warmed(Some(footprint)));
    assert!(matches!(
        open,
        Some(ServeAction::OpenPool(ref o, "pids")) if o.max_sessions == 11 && o.min_ready == 1
    ));
}

#[test]
fn scale_to_zero_launches_nothing_at_boot() {
    let (mut server, _) = Serve::begin(&loaded(0));
    let action = bound(&mut server);
    assert!(matches!(
        action,
        ServeAction::ServeWithPool(ref o, "cpu") if o.max_sessions == 96 && o.min_ready == 0
    ));
}

#[test]
fn the_first_browser_on_demand_sets_the_ceiling() {
    let (mut server, _) = Serve::begin(&loaded(0));
    bound(&mut server);
    let used = footprint(Some(150 << 20), Some(70)).unwrap();
    let capacity = compute(limits(), Some(used));
    assert_ne!((capacity.max_sessions, capacity.bound_by), (96, "cpu"));
    assert!(matches!(
        server.step(ServeEvent::Measured(used)),
        Some(ServeAction::ResizePool(ref o, source))
            if o.max_sessions == capacity.max_sessions as usize && source == capacity.bound_by
    ));
    assert!(server.step(ServeEvent::Measured(used)).is_none(), "one is enough");
    assert!(footprint(None, Some(0)).is_none());

    let mut configured = loaded(0);
    configured.config.pool.max_sessions = 7;
    configured.config.pool.max_sessions_set = true;
    let (mut server, _) = Serve::begin(&configured);
    assert!(matches!(
        bound(&mut server),
        ServeAction::ServeWithPool(ref o, "config") if o.max_sessions == 7
    ));
    assert!(server.step(ServeEvent::Measured(used)).is_none(), "the configured ceiling wins");
}

#[test]
fn shutdown_stops_intake_then_drains_then_cancels() {
    let (mut server, _) = Serve::begin(&loaded(0));
    bound(&mut server);
    assert!(server.step(ServeEvent::Drained).is_none());
    assert!(matches!(server.step(ServeEvent::ShutdownSignal), Some(ServeAction::ClosePool)));
    assert!(matches!(
        server.step(ServeEvent::ServerEnded(Ok(()))),
        Some(ServeAction::WaitDrain(30_000))
    ));
    assert!(matches!(
        server.step(ServeEvent::DrainDeadline),
        Some(ServeAction::CancelSessions(5_000))
    ));
    assert!(matches!(
        server.step(ServeEvent::SessionsCancelled),
        Some(ServeAction::SweepFinally)
    ));
    assert!(matches!(server.step(ServeEvent::FinallySwept), Some(ServeAction::Done)));
}

#[test]
fn startup_failures_are_described() {
    let fail = |action: Option<ServeAction>| match action {
        Some(ServeAction::Fail(message)) => message,
        _ => panic!("expected a failure"),
    };
    let (mut server, _) = Serve::begin(&loaded(1));
    let missing = FindError::BadExplicit {
        path: "/x".to_string(),
    };
    let expected = missing.message();
    assert_eq!(fail(server.step(ServeEvent::BrowserFound(Err(missing)))), expected);

    let (mut server, _) = Serve::begin(&loaded(1));
    server.step(ServeEvent::BrowserFound(Ok("x".to_string())));
    let message = fail(server.step(ServeEvent::Swept(Err("EACCES".to_string()))));
    assert_eq!(message, "stale session sweep failed: EACCES");

    let (mut server, _) = Serve::begin(&loaded(1));
    server.step(ServeEvent::BrowserFound(Ok("x".to_string())));
    server.step(ServeEvent::Swept(Ok(0)));
    server.step(ServeEvent::Probed(limits()));
    let message = fail(server.step(ServeEvent::Bound(Err("in use".to_string()))));
    assert_eq!(message, "cannot bind 0.0.0.0:9333: in use");

    let (mut server, _) = Serve::begin(&loaded(0));
    bound(&mut server);
    let message = fail(server.step(ServeEvent::ServerEnded(Err("broken".to_string()))));
    assert_eq!(message, "server error: broken");
}

#[test]
fn a_configured_ceiling_wins() {
    let pool = PoolConfig {
        max_sessions: 7,
        max_sessions_set: true,
        ..PoolConfig::default()
    };
    assert_eq!(session_ceiling(pool, limits(), None), (7, "config"));
    assert_eq!(session_ceiling(PoolConfig::default(), limits(), None), (96, "cpu"));
    let options = pool_options(pool, 7);
    assert_eq!(options.max_sessions, 7);
    assert_eq!(options.queue_timeout, 30_000 * MS);
    assert_eq!(options.warm_idle, 300_000 * MS);
    assert_eq!(options.warm_max_age, 3_600_000 * MS);
}

#[test]
fn a_pool_that_is_not_open_lets_claims_wait() {
    let config = PoolConfig {
        max_queue: 2,
        ..PoolConfig::default()
    };
    let reason = |stats| pressure_reason(stats, load_of(1.0, 1.0), PressureConfig::default());
    let mut pool: Pool<u8> = Pool::new(unopened_options(config));
    assert_eq!(ready(pool.stats()).status, 503);
    assert_eq!(pool.stats().running, 0);
    assert_eq!(reason(pool.stats()), "");
    let tickets: Vec<u64> = (0..2)
        .map(|_| match pool.claim().unwrap() {
            Admission::Wait(ticket) => ticket,
            Admission::Admitted => panic!("there is no slot yet"),
        })
        .collect();
    assert_eq!(pool.stats().queued, 2);
    assert_eq!(reason(pool.stats()), "full");
    assert!(matches!(pool.claim(), Err(ClaimError::QueueFull { max_queue: 2 })));
    assert_eq!(pool.wait(tickets[0], WaitEvent::Woken).unwrap(), WaitStep::Waiting);

    let options = pool_options(config, 1);
    assert!(pool.may_resize(options));
    pool.resize(options);
    assert!(pool.take_nudge());
    assert_eq!(pool.wait(tickets[1], WaitEvent::Woken).unwrap(), WaitStep::Waiting);
    assert_eq!(pool.wait(tickets[0], WaitEvent::Woken).unwrap(), WaitStep::Admitted);
    assert_eq!((pool.stats().running, pool.stats().max_sessions), (1, 1));
}

#[test]
fn a_pool_closed_before_it_opens_refuses_who_waits() {
    let mut pool: Pool<u8> = Pool::new(unopened_options(PoolConfig::default()));
    let ticket = match pool.claim().unwrap() {
        Admission::Wait(ticket) => ticket,
        Admission::Admitted => panic!("there is no slot yet"),
    };
    assert!(pool.close().is_empty());
    assert!(matches!(pool.wait(ticket, WaitEvent::Woken), Err(ClaimError::Closed)));
}
