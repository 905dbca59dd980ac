use browserserve::chrome::client::{CdpClient, CdpError};
use browserserve::encoding::{from_wire, to_url, to_wire};
use browserserve::json::{member, parse, write_text, Json};
use browserserve::linux::tiers::ProfileTier;
use browserserve::profile::cdp::{
    apply_cookies, apply_local_storage, ask_close, ask_cookies, attach_page_target, capture_cookies, capture_local_storage,
    captured_states, captured_values, restore_script, set_cookies, AttachAction, AttachEvent,
    OriginState, ProfileCdpError, Script, Step, StorageEntry, Todo,
};
use browserserve::profile::cookie::{
    sanitize, to_param, Cookie, DropCounts, DropReason, PartitionKey, SameSite, MAX_COOKIE_BYTES,
};
use browserserve::profile::localstorage::{
    decode_string, parse_data_key, read_local_storage, Record,
};
use browserserve::profile::manifest::{
    extract_into, pack_native, safe_join, DirEntry, ExtractError, ManifestEntry, Node,
};
use browserserve::profile::payload::ProfilePayload;
use browserserve::profile::{native_stores, seed_native, snapshot_native, TreeCopy};
use browserserve::scalar::Scalar;
use browserserve::template::{copy_tree, CopyStep, PathKind};
use rusty_leveldb::LdbIterator;
use std::collections::BTreeMap;

fn scalar(x: f64) -> Scalar {
    Scalar { bits: x.to_bits() }
}

fn json(text: &str) -> Json {
    parse(text.as_bytes()).expect("valid JSON")
}

// native stores

#[test]
fn snapshot_copies_native_stores_and_ignores_portable_core() {
    let mut disk = FakeDisk::default();
    disk.write("/udd/Default/IndexedDB/CURRENT", b"MANIFEST-000001");
    disk.write("/udd/Default/Service Worker/index", b"sw");
    // Portable core + a cache dir must NOT be captured by the native snapshot.
    disk.write("/udd/Default/Local Storage/leveldb/000003.log", b"ls");
    disk.write("/udd/Default/Cache/data_0", b"cache");

    let copies = snapshot_native("/udd", "/snap", ProfileTier::PlainCopy, &disk.dirs());
    assert!(copies.iter().all(|c| !c.reflink));
    disk.copy_all(&copies);

    assert_eq!(disk.read("/snap/Default/IndexedDB/CURRENT").unwrap(), b"MANIFEST-000001");
    assert_eq!(disk.read("/snap/Default/Service Worker/index").unwrap(), b"sw");
    assert!(disk.below("/snap/Default/Local Storage").is_empty(), "portable core excluded");
    assert!(disk.below("/snap/Default/Cache").is_empty(), "caches excluded");
    assert_eq!(disk.below("/snap").len(), 2);
}

#[test]
fn seed_restores_native_stores_into_fresh_session_dir() {
    let mut disk = FakeDisk::default();
    disk.write("/snap/Default/IndexedDB/000005.ldb", b"idb-data");
    let udd = "/session/user-data-dir";
    let copies = seed_native("/snap", udd, ProfileTier::Reflink, &disk.dirs());
    assert!(copies.iter().all(|c| c.reflink));
    disk.copy_all(&copies);
    assert_eq!(disk.read(&format!("{udd}/Default/IndexedDB/000005.ldb")).unwrap(), b"idb-data");
}

#[test]
fn missing_stores_are_skipped_not_errored() {
    let copies = snapshot_native("/empty-udd", "/snap", ProfileTier::PlainCopy, &vec![]);
    assert!(copies.is_empty());
}

#[test]
fn round_trips_indexeddb_blob_tree() {
    let mut disk = FakeDisk::default();
    disk.write("/udd/Default/IndexedDB/https_x.indexeddb.leveldb/CURRENT", b"m");
    disk.write("/udd/Default/IndexedDB/https_x.indexeddb.blob/1/00", b"blob");

    let dirs = disk.dirs();
    disk.copy_all(&snapshot_native("/udd", "/snap", ProfileTier::PlainCopy, &dirs));
    let dirs = disk.dirs();
    disk.copy_all(&seed_native("/snap", "/restored", ProfileTier::PlainCopy, &dirs));

    let restored = disk.read("/restored/Default/IndexedDB/https_x.indexeddb.blob/1/00");
    assert_eq!(restored.unwrap(), b"blob");
}

#[test]
fn only_the_native_stores_are_restored() {
    let mut disk = FakeDisk::default();
    disk.write("/udd/Default/IndexedDB/a/b", b"1");
    disk.write("/udd/Default/Service Worker/c", b"2");
    disk.write("/udd/Default/Local Storage/d", b"3");
    disk.items.insert("/udd/Default/IndexedDB/a/link".to_string(), None);
    disk.write("/restored/Default/Preferences", b"fresh");

    let dirs = disk.dirs();
    disk.copy_all(&snapshot_native("/udd", "/snap", ProfileTier::Reflink, &dirs));
    let dirs = disk.dirs();
    disk.copy_all(&seed_native("/snap", "/restored", ProfileTier::PlainCopy, &dirs));

    assert_eq!(
        disk.below("/restored"),
        [
            ("/restored/Default/IndexedDB/a/b", &b"1"[..]),
            ("/restored/Default/Preferences", b"fresh"),
            ("/restored/Default/Service Worker/c", b"2"),
        ]
    );
    assert_eq!(native_stores(), ["Default/IndexedDB", "Default/Service Worker"]);
}

/// Regular files with their contents, and links, by path.
#[derive(Default)]
struct FakeDisk {
    items: BTreeMap<String, Option<Vec<u8>>>,
}

impl FakeDisk {
    fn write(&mut self, path: &str, bytes: &[u8]) {
        self.items.insert(path.to_string(), Some(bytes.to_vec()));
    }

    fn dirs(&self) -> Vec<String> {
        let mut dirs: Vec<String> = Vec::new();
        for path in self.items.keys() {
            dirs.extend(path.match_indices('/').map(|(i, _)| path[..i].to_string()));
        }
        dirs
    }

    fn below(&self, root: &str) -> Vec<(&str, &[u8])> {
        let root = format!("{root}/");
        self.items
            .iter()
            .filter(|(path, _)| path.starts_with(&root))
            .filter_map(|(path, bytes)| Some((path.as_str(), bytes.as_deref()?)))
            .collect()
    }

    fn read(&self, path: &str) -> Option<&[u8]> {
        self.items.get(path)?.as_deref()
    }

    fn copy_all(&mut self, copies: &[TreeCopy]) {
        for copy in copies {
            self.copy(&copy.from, &copy.to);
        }
    }

    fn copy(&mut self, src: &str, dest: &str) {
        let start = format!("{src}/");
        let paths: Vec<String> =
            self.items.keys().filter(|p| p.starts_with(&start)).cloned().collect();
        let mut descended: Vec<String> = Vec::new();
        for path in paths {
            let rest = &path[start.len()..];
            let (name, kind) = match rest.split_once('/') {
                Some((name, _)) => (name, PathKind::Dir),
                None if self.items[&path].is_some() => (rest, PathKind::File),
                None => (rest, PathKind::Other),
            };
            match copy_tree(src, dest, name, kind) {
                CopyStep::Descend { from, to } => {
                    if !descended.contains(&from) {
                        self.copy(&from, &to);
                        descended.push(from);
                    }
                },
                CopyStep::Copy { from, to } => {
                    let bytes = self.items[&from].clone();
                    self.items.insert(to, bytes);
                },
                CopyStep::Skip => {},
            }
        }
    }
}

// cookies over the protocol

fn cookie(name: &str, secure: bool, same_site: SameSite) -> Cookie {
    Cookie {
        name: name.into(),
        value: "v".into(),
        domain: "example.com".into(),
        path: "/".into(),
        expires: scalar(-1.0),
        secure,
        http_only: true,
        same_site: Some(same_site),
        priority: None,
        source_scheme: None,
        source_port: None,
        partition_key: None,
        partition_key_opaque: false,
    }
}

fn no_texts(n: usize) -> Vec<String> {
    vec![String::new(); n]
}

#[test]
fn apply_sends_only_sanitized_cookies() {
    let jar = [
        cookie("good", true, SameSite::Lax),
        cookie("bad", false, SameSite::NoRestriction), // None without secure -> dropped
    ];
    let plan = apply_cookies(&jar, scalar(1000.0));
    assert_eq!(plan.report.applied, 1);
    assert_eq!(plan.report.dropped.same_site_none_insecure, 1);
    let Some(Step::Call { method, params }) = set_cookies(&plan, &no_texts(1)) else {
        panic!("a command must be sent");
    };
    assert_eq!(method, "Storage.setCookies");
    let sent = params.get("cookies").unwrap().as_array().unwrap();
    let names: Vec<&str> = sent.iter().map(|c| c.get("name").unwrap().as_str().unwrap()).collect();
    assert_eq!(names, ["good"]);
}

#[test]
fn apply_skips_the_command_entirely_when_nothing_survives() {
    let jar = [cookie("bad", false, SameSite::NoRestriction)];
    let plan = apply_cookies(&jar, scalar(1000.0));
    assert_eq!(plan.report.applied, 0);
    assert!(
        set_cookies(&plan, &no_texts(0)).is_none(),
        "no setCookies command should be sent"
    );
}

#[test]
fn capture_parses_the_cookie_jar() {
    let result = json(
        r#"{ "cookies": [
            { "name": "sid", "value": "x", "domain": "example.com", "path": "/",
              "expires": -1, "secure": true, "httpOnly": true, "sameSite": "Strict" }
        ] }"#,
    );
    assert!(matches!(ask_cookies(), Step::Call { method, .. } if method == "Storage.getCookies"));
    assert!(matches!(ask_close(), Step::Call { method, .. } if method == "Browser.close"));
    let cookies = capture_cookies(&result);
    let cookies = cookies.as_array().unwrap();
    assert_eq!(cookies.len(), 1);
    assert_eq!(cookies[0].get("name").unwrap().as_str(), Some("sid"));
    assert!(matches!(cookies[0].get("secure"), Some(Json::Bool(true))));
    assert_eq!(cookies[0].get("sameSite").unwrap().as_str(), Some("Strict"));
    assert!(capture_cookies(&json("{}")).as_array().unwrap().is_empty());
}

// scripts on a page target

/// A browser that is talked to in frames: it notes each command, and answers
/// as `serve` says.
fn drive(mut script: Script, mut serve: impl FnMut(&Json) -> Vec<String>) -> (Script, Vec<Json>) {
    let mut inbox: Vec<Json> = Vec::new();
    let mut sent = Vec::new();
    loop {
        match script.next() {
            Todo::Send(frame) => {
                assert_eq!(frame.last(), Some(&0));
                let command = parse(&frame[..frame.len() - 1]).unwrap();
                inbox.extend(serve(&command).iter().map(|m| json(m)));
                sent.push(command);
            },
            Todo::Receive => {
                let msg = inbox.remove(0);
                script.on_message(&msg).unwrap();
            },
            Todo::Finished => return (script, sent),
        }
    }
}

fn method(command: &Json) -> &str {
    command.get("method").unwrap().as_str().unwrap()
}

fn answer(command: &Json, result: &str) -> String {
    let id = command.get("id").unwrap().as_u64().unwrap();
    format!(r#"{{"id":{id},"result":{result}}}"#)
}

fn page(command: &Json, evaluated: &str, intercepting: &mut bool) -> Vec<String> {
    match method(command) {
        "Page.navigate" if *intercepting => {
            vec![r#"{"method":"Fetch.requestPaused","params":{"requestId":"R1"}}"#.to_string()]
        },
        "Page.navigate" | "Fetch.fulfillRequest" => {
            vec![r#"{"method":"Page.loadEventFired","params":{}}"#.to_string()]
        },
        "Fetch.enable" => {
            *intercepting = true;
            vec![answer(command, "{}")]
        },
        "Fetch.disable" => {
            *intercepting = false;
            vec![answer(command, "{}")]
        },
        "Runtime.evaluate" => vec![answer(command, evaluated)],
        _ => vec![answer(command, "{}")],
    }
}

#[test]
fn restore_script_json_escapes_values() {
    let script = restore_script(&vec![StorageEntry {
        name: "k".into(),
        value: "v\"x".into(),
    }]);
    assert!(script.contains("localStorage.clear()"));
    assert!(script.contains("localStorage.setItem"));
    assert!(script.contains(r#""name":"k""#));
    assert!(script.contains(r#"v\"x"#), "value with a quote is JSON-escaped");
}

#[test]
fn apply_local_storage_empty_is_a_noop() {
    assert!(apply_local_storage(&vec![]).is_empty());
    let mut script = Script::new(CdpClient::new(), "SID1", apply_local_storage(&vec![]));
    assert!(matches!(script.next(), Todo::Finished));
}

#[test]
fn apply_local_storage_navigates_stub_and_writes_each_origin() {
    let origins = vec![OriginState {
        origin: "https://site.example".into(),
        local_storage: vec![StorageEntry {
            name: "token".into(),
            value: "abc".into(),
        }],
    }];
    let script = Script::new(CdpClient::new(), "SID1", apply_local_storage(&origins));
    let mut intercepting = false;
    let (_, sent) = drive(script, |command| {
        page(command, r#"{"result":{"value":true}}"#, &mut intercepting)
    });
    let methods: Vec<&str> = sent.iter().map(method).collect();
    assert_eq!(
        methods,
        [
            "Page.enable",
            "Fetch.enable",
            "Page.navigate",
            "Fetch.fulfillRequest",
            "Runtime.evaluate",
            "Fetch.disable",
            "Page.navigate",
        ]
    );
    assert_eq!(
        sent[2].get("params").unwrap().get("url").unwrap().as_str(),
        Some("https://site.example/")
    );
    assert_eq!(
        sent[4].get("sessionId").unwrap().as_str(),
        Some("SID1"),
        "routed to the attached page target"
    );
    let expr = sent[4].get("params").unwrap().get("expression").unwrap().as_str().unwrap();
    assert!(expr.contains("localStorage.setItem"));
    assert!(expr.contains("token"), "the entry made it into the script");
}

#[test]
fn attach_page_target_picks_the_page_and_returns_its_session() {
    let first = attach_page_target(&AttachEvent::Start).unwrap();
    assert!(matches!(
        first,
        AttachAction::Call(Step::Call { ref method, .. }) if method == "Target.getTargets"
    ));
    let targets = json(
        r#"{ "targetInfos": [
            { "type": "browser", "targetId": "B" },
            { "type": "page", "targetId": "P1" }
        ] }"#,
    );
    let second = attach_page_target(&AttachEvent::Targets(targets)).unwrap();
    let AttachAction::Call(Step::Call { method, params }) = second else {
        panic!("expected a call");
    };
    assert_eq!(method, "Target.attachToTarget");
    assert_eq!(params.get("targetId").unwrap().as_str(), Some("P1"));
    assert!(matches!(params.get("flatten"), Some(Json::Bool(true))));
    let attached = json(r#"{ "sessionId": "S1" }"#);
    let third = attach_page_target(&AttachEvent::Attached(attached)).unwrap();
    assert!(matches!(third, AttachAction::Session(ref id) if id == "S1"));
    assert!(matches!(
        attach_page_target(&AttachEvent::Attached(json("{}"))),
        Err(ProfileCdpError::Unexpected(_))
    ));
}

/// What each origin's evaluation read.
fn read_back(script: &Script, origins: &[String]) -> Vec<Vec<StorageEntry>> {
    captured_values(&script.results, origins.len())
        .into_iter()
        .map(|value| {
            let items = value.map_or(&[][..], |v| v.as_array().unwrap().as_slice());
            items
                .iter()
                .map(|e| StorageEntry {
                    name: e.get("name").unwrap().as_str().unwrap().to_string(),
                    value: e.get("value").unwrap().as_str().unwrap().to_string(),
                })
                .collect()
        })
        .collect()
}

#[test]
fn an_answer_without_a_value_leaves_the_others_in_place() {
    let origins = vec!["https://a".to_owned(), "https://b".to_owned(), "https://c".to_owned()];
    let script = Script::new(CdpClient::new(), "S", capture_local_storage(&origins));
    let mut intercepting = false;
    let mut answers = vec![
        r#"{"result":{"value":[{"name":"k","value":"c"}]}}"#,
        r#"{"result":{"type":"undefined"}}"#,
        r#"{"result":{"value":[{"name":"k","value":"a"}]}}"#,
    ];
    let (script, _) = drive(script, |command| {
        let answer = if method(command) == "Runtime.evaluate" {
            answers.pop().unwrap()
        } else {
            "{}"
        };
        page(command, answer, &mut intercepting)
    });
    let states = captured_states(&origins, read_back(&script, &origins));
    let read: Vec<(&str, &str)> = states
        .iter()
        .map(|s| (s.origin.as_str(), s.local_storage[0].value.as_str()))
        .collect();
    assert_eq!(read, [("https://a", "a"), ("https://c", "c")]);
    assert_eq!(captured_values(&Vec::new(), 2).len(), 2);
}

#[test]
fn capture_local_storage_reads_back_each_origin() {
    let origins = vec!["https://site.example".to_owned()];
    let script = Script::new(CdpClient::new(), "SID1", capture_local_storage(&origins));
    let mut intercepting = false;
    let (script, _) = drive(script, |command| {
        page(
            command,
            r#"{"result":{"value":[{"name":"token","value":"abc"}]}}"#,
            &mut intercepting,
        )
    });
    assert_eq!(
        captured_states(&origins, read_back(&script, &origins)),
        vec![OriginState {
            origin: "https://site.example".into(),
            local_storage: vec![StorageEntry {
                name: "token".into(),
                value: "abc".into()
            }],
        }]
    );
}

#[test]
fn a_refused_command_ends_the_script() {
    let steps = apply_local_storage(&vec![OriginState {
        origin: "https://a".into(),
        local_storage: vec![],
    }]);
    let mut script = Script::new(CdpClient::new(), "S", steps);
    let Todo::Send(frame) = script.next() else {
        panic!("expected a command");
    };
    let command = parse(&frame[..frame.len() - 1]).unwrap();
    let id = command.get("id").unwrap().as_u64().unwrap();
    let refusal = json(&format!(r#"{{"id":{id},"error":{{"code":-1,"message":"no"}}}}"#));
    let err = script.on_message(&refusal).unwrap_err();
    assert!(matches!(err, ProfileCdpError::Cdp(CdpError::Protocol { code: -1, .. })));
    assert!(err.message().contains("no"));
}

// cookies

fn base() -> Cookie {
    Cookie {
        name: "sid".into(),
        value: "secret".into(),
        domain: "example.com".into(),
        path: "/".into(),
        expires: scalar(-1.0),
        secure: true,
        http_only: true,
        same_site: Some(SameSite::Lax),
        priority: Some("Medium".into()),
        source_scheme: Some("Secure".into()),
        source_port: Some(443),
        partition_key: None,
        partition_key_opaque: false,
    }
}

#[test]
fn preserves_every_security_attribute_verbatim() {
    let (params, dropped) = sanitize(&[base()], scalar(1000.0));
    assert_eq!(dropped.total(), 0);
    let p = &params[0];
    assert!(p.secure);
    assert!(p.http_only);
    assert_eq!(p.same_site, Some(SameSite::Lax));
    assert_eq!(p.source_scheme.as_deref(), Some("Secure"));
    assert_eq!(p.source_port, Some(443));
    assert_eq!(p.priority.as_deref(), Some("Medium"));
    assert_eq!(p.expires, None, "session cookie -> no expires");
}

#[test]
fn partition_key_round_trips() {
    let mut c = base();
    c.partition_key = Some(PartitionKey {
        top_level_site: "https://top.example".into(),
        has_cross_site_ancestor: true,
    });
    let (params, _) = sanitize(&[c], scalar(1000.0));
    assert_eq!(
        params[0].partition_key,
        Some(PartitionKey {
            top_level_site: "https://top.example".into(),
            has_cross_site_ancestor: true,
        })
    );
}

#[test]
fn drops_samesite_none_without_secure() {
    let mut c = base();
    c.same_site = Some(SameSite::NoRestriction);
    c.secure = false;
    let (params, dropped) = sanitize(&[c], scalar(1000.0));
    assert!(params.is_empty());
    assert_eq!(dropped.same_site_none_insecure, 1);
}

#[test]
fn keeps_samesite_none_when_secure() {
    let mut c = base();
    c.same_site = Some(SameSite::NoRestriction);
    c.secure = true;
    let (params, _) = sanitize(&[c], scalar(1000.0));
    assert_eq!(params.len(), 1);
}

#[test]
fn drops_expired_persistent_but_keeps_session_and_future() {
    let mut expired = base();
    expired.expires = scalar(500.0);
    let mut future = base();
    future.expires = scalar(5000.0);
    let session = base(); // expires -1
    let (params, dropped) = sanitize(&[expired, future, session], scalar(1000.0));
    assert_eq!(dropped.expired, 1);
    assert_eq!(params.len(), 2);
}

#[test]
fn drops_opaque_partition() {
    let mut c = base();
    c.partition_key_opaque = true;
    let (params, dropped) = sanitize(&[c], scalar(1000.0));
    assert!(params.is_empty());
    assert_eq!(dropped.opaque_partition, 1);
}

#[test]
fn host_prefix_requires_secure_root_hostonly() {
    let mut ok = base();
    ok.name = "__Host-sid".into(); // secure, path "/", no dot -> ok
    let (p_ok, _) = sanitize(&[ok], scalar(1000.0));
    assert_eq!(p_ok.len(), 1);

    for bad in [
        {
            let mut c = base();
            c.name = "__Host-sid".into();
            c.secure = false;
            c
        },
        {
            let mut c = base();
            c.name = "__Host-sid".into();
            c.path = "/app".into();
            c
        },
        {
            let mut c = base();
            c.name = "__Host-sid".into();
            c.domain = ".example.com".into();
            c
        },
    ] {
        let (p, dropped) = sanitize(&[bad], scalar(1000.0));
        assert!(p.is_empty());
        assert_eq!(dropped.invalid_prefix, 1);
    }
}

#[test]
fn secure_prefix_requires_secure() {
    let mut c = base();
    c.name = "__Secure-sid".into();
    c.secure = false;
    let (params, dropped) = sanitize(&[c], scalar(1000.0));
    assert!(params.is_empty());
    assert_eq!(dropped.invalid_prefix, 1);
}

#[test]
fn drops_oversized_without_aborting_batch() {
    let mut big = base();
    big.value = "x".repeat(MAX_COOKIE_BYTES);
    let good = base();
    let (params, dropped) = sanitize(&[big, good], scalar(1000.0));
    assert_eq!(dropped.oversized, 1);
    assert_eq!(params.len(), 1, "one bad cookie must not drop the good one");
}

#[test]
fn never_rewrites_attributes_to_force_a_fit() {
    // An insecure Lax cookie is valid and must pass through UNCHANGED —
    // the sanitizer must not "upgrade" secure to make anything fit.
    let mut c = base();
    c.secure = false;
    c.http_only = false;
    c.same_site = Some(SameSite::Lax);
    let (params, _) = sanitize(&[c], scalar(1000.0));
    assert_eq!(params.len(), 1);
    assert!(!params[0].secure);
    assert!(!params[0].http_only);
}

fn wire(c: Cookie, expiry: &str) -> String {
    let plan = apply_cookies(&[c], scalar(1000.0));
    match set_cookies(&plan, &vec![expiry.to_string()]) {
        Some(Step::Call { params, .. }) => write_text(&params),
        other => panic!("expected a command, got {other:?}"),
    }
}

#[test]
fn cookie_json_uses_cdp_camelcase_field_names() {
    let json = wire(base(), "");
    assert!(json.contains("\"httpOnly\""));
    assert!(json.contains("\"sameSite\""));
    assert!(json.contains("\"sourceScheme\""));
    assert!(!json.contains("\"http_only\""));
}

#[test]
fn param_omits_expires_for_session_cookie() {
    let json = wire(base(), "");
    assert!(!json.contains("expires"), "session cookie param has no expires");
    let mut future = base();
    future.expires = scalar(5000.5);
    assert!(wire(future, "5000.5").contains("\"expires\":5000.5"));
}

#[test]
fn policies_and_partitions_keep_their_wire_form() {
    let mut c = base();
    c.same_site = Some(SameSite::NoRestriction);
    c.source_port = Some(-1);
    c.partition_key = Some(PartitionKey {
        top_level_site: "https://top.example".into(),
        has_cross_site_ancestor: false,
    });
    let json = wire(c, "");
    assert!(json.contains("\"sameSite\":\"None\""));
    assert!(json.contains("\"sourcePort\":-1"));
    assert!(json.contains(
        "\"partitionKey\":{\"hasCrossSiteAncestor\":false,\"topLevelSite\":\"https://top.example\"}"
    ));
}

#[test]
fn each_drop_reason_is_told() {
    let mut c = base();
    c.expires = scalar(1.0);
    assert_eq!(to_param(&c, scalar(1000.0)).unwrap_err(), DropReason::Expired);
    let counts = DropCounts {
        same_site_none_insecure: 1,
        expired: 2,
        opaque_partition: 3,
        invalid_prefix: 4,
        oversized: 5,
    };
    assert_eq!(counts.total(), 15);
}

// localStorage on disk

fn latin1(s: &str) -> Vec<u8> {
    let mut out = vec![1u8];
    out.extend(s.bytes());
    out
}

#[test]
fn parses_chrome_format_from_a_real_leveldb() {
    let mut db = rusty_leveldb::DB::open("leveldb", rusty_leveldb::in_memory()).unwrap();
    db.put(b"VERSION", b"1").unwrap();
    db.put(b"META:https://example.com", &[0, 1, 2]).unwrap();
    // _https://example.com\0<enc>probeKey  ->  <enc>probeValue
    let mut key = b"_https://example.com\0".to_vec();
    key.extend(latin1("probeKey"));
    db.put(&key, &latin1("probeValue")).unwrap();
    // a cookieless origin still gets captured
    let mut key2 = b"_https://cookieless.test\0".to_vec();
    key2.extend(latin1("k2"));
    db.put(&key2, &latin1("v2")).unwrap();
    // a PARTITIONED (third-party) StorageKey must be skipped, not
    // mislabeled as a first-party origin.
    let mut partitioned = b"_https://a.com/^0https://b.com\0".to_vec();
    partitioned.extend(latin1("pk"));
    db.put(&partitioned, &latin1("pv")).unwrap();
    db.flush().unwrap();

    let mut records = Vec::new();
    let mut iter = db.new_iter().unwrap();
    while let Some((key, value)) = iter.next() {
        records.push(Record {
            key: key.to_vec(),
            value: value.to_vec(),
        });
    }
    let origins = read_local_storage(Some(&records));
    let example = origins.iter().find(|o| o.origin == "https://example.com").unwrap();
    assert_eq!(
        example.local_storage,
        vec![StorageEntry {
            name: "probeKey".into(),
            value: "probeValue".into(),
        }]
    );
    // the origin with no cookie is enumerated too — the whole point
    assert!(origins.iter().any(|o| o.origin == "https://cookieless.test"));
    // VERSION and META keys are not mistaken for data
    assert!(origins.iter().all(|o| !o.origin.contains("META")));
    // partitioned StorageKeys are skipped, never mislabeled as an origin
    assert!(origins.iter().all(|o| !o.origin.contains('^')));
}

#[test]
fn decodes_utf16_values() {
    // enc 0x00 = UTF-16LE: "hi" = 68 00 69 00
    assert_eq!(decode_string(&[0, 0x68, 0, 0x69, 0]).as_deref(), Some("hi"));
}

#[test]
fn missing_dir_is_empty() {
    assert!(read_local_storage(None).is_empty());
}

#[test]
fn strings_are_decoded_by_their_marker() {
    assert_eq!(decode_string(&latin1("abc")).as_deref(), Some("abc"));
    assert_eq!(decode_string(&[1, 0xE9]).as_deref(), Some("\u{e9}"));
    assert_eq!(decode_string(&[0, 0x3D, 0xD8, 0x00, 0xDE]).as_deref(), Some("\u{1F600}"));
    assert_eq!(decode_string(&[2, 0x41]), None);
    assert_eq!(decode_string(&[]), None);
}

#[test]
fn data_keys_name_an_origin_and_an_item() {
    let mut key = b"_https://a.com\0".to_vec();
    key.extend(latin1("k"));
    assert_eq!(
        parse_data_key(&key),
        Some(("https://a.com".to_string(), "k".to_string()))
    );
    assert_eq!(parse_data_key(b"META:https://a.com"), None);
    assert_eq!(parse_data_key(b"_https://a.com"), None);
}

// manifests

fn entry(path: &str, bytes: &[u8]) -> ManifestEntry {
    ManifestEntry {
        path: path.to_owned(),
        bytes: bytes.to_vec(),
    }
}

fn dir(entries: Vec<(&str, Node)>) -> Node {
    Node::Dir(
        entries
            .into_iter()
            .map(|(name, node)| DirEntry {
                name: name.to_string(),
                node,
            })
            .collect(),
    )
}

fn file(bytes: &[u8]) -> Node {
    Node::File(bytes.to_vec())
}

#[test]
fn pack_then_extract_round_trips_native_stores_only() {
    let src = dir(vec![(
        "Default",
        dir(vec![
            ("IndexedDB", dir(vec![("x.leveldb", dir(vec![("CURRENT", file(b"m"))]))])),
            ("Service Worker", dir(vec![("index", file(b"sw")), ("link", Node::Other)])),
            // not a native store -> must be excluded
            ("Cache", dir(vec![("data_0", file(b"cache"))])),
        ]),
    )]);
    let manifest = pack_native(&src);
    assert!(manifest.iter().all(|e| !e.path.contains("Cache")));

    let out = extract_into(&manifest, "/dest");
    assert_eq!(out.outcome, Ok(manifest.len()));
    let written = |path: &str| {
        out.writes.iter().find(|w| w.path == path).map(|w| manifest[w.entry].bytes.clone())
    };
    assert_eq!(written("/dest/Default/IndexedDB/x.leveldb/CURRENT").unwrap(), b"m");
    assert_eq!(written("/dest/Default/Service Worker/index").unwrap(), b"sw");
    assert!(written("/dest/Default/Cache/data_0").is_none());
    assert_eq!(out.writes.len(), 2);
}

fn put(node: &mut Node, names: &[&str], bytes: &[u8]) {
    let Node::Dir(entries) = node else {
        panic!("a file is in the way");
    };
    if names.len() == 1 {
        assert!(entries.iter().all(|e| e.name != names[0]), "nothing is overwritten");
        entries.push(DirEntry {
            name: names[0].to_string(),
            node: file(bytes),
        });
        return;
    }
    if entries.iter().all(|e| e.name != names[0]) {
        entries.push(DirEntry {
            name: names[0].to_string(),
            node: dir(vec![]),
        });
    }
    let inner = entries.iter_mut().find(|e| e.name == names[0]).unwrap();
    put(&mut inner.node, &names[1..], bytes);
}

#[test]
fn extracted_manifest_packs_again() {
    let src = dir(vec![(
        "Default",
        dir(vec![
            (
                "Service Worker",
                dir(vec![("a", dir(vec![("x", file(b"1")), ("y", file(b""))])), ("b", file(b"2"))]),
            ),
            ("IndexedDB", dir(vec![("a", file(b"3")), ("empty", dir(vec![]))])),
        ]),
    )]);
    let manifest = pack_native(&src);
    assert_eq!(manifest.len(), 4);
    let plan = extract_into(&manifest, "/dest");
    assert_eq!(plan.outcome, Ok(4));
    let mut dest = dir(vec![]);
    for target in plan.writes.iter().rev() {
        let names: Vec<&str> = target.path.strip_prefix("/dest/").unwrap().split('/').collect();
        put(&mut dest, &names, &manifest[target.entry].bytes);
    }
    let sorted = |entries: Vec<ManifestEntry>| {
        let mut files: Vec<(String, Vec<u8>)> =
            entries.into_iter().map(|e| (e.path, e.bytes)).collect();
        files.sort();
        files
    };
    assert_eq!(sorted(pack_native(&dest)), sorted(manifest));
}

#[test]
fn rejects_parent_traversal() {
    let bad = vec![entry("../escape", b"x")];
    let out = extract_into(&bad, "/dest");
    assert!(matches!(out.outcome, Err(ExtractError::UnsafePath(_))));
    assert!(out.writes.is_empty(), "nothing written outside root");
}

#[test]
fn rejects_nested_traversal_and_absolute_paths() {
    for bad_path in ["a/../../b", "/etc/passwd", "Default/../../x", "."] {
        let bad = vec![entry(bad_path, b"x")];
        assert!(
            matches!(extract_into(&bad, "/dest").outcome, Err(ExtractError::UnsafePath(_))),
            "{bad_path} must be rejected"
        );
    }
}

#[test]
fn a_bad_entry_stops_the_extraction_where_it_stands() {
    let entries = vec![entry("a/b", b"1"), entry("..", b"2"), entry("c", b"3")];
    let out = extract_into(&entries, "/dest");
    assert_eq!(out.writes.len(), 1);
    assert_eq!(out.writes[0].path, "/dest/a/b");
    assert_eq!(out.writes[0].dir, "/dest/a");
    let err = out.outcome.unwrap_err();
    assert_eq!(err, ExtractError::UnsafePath("..".to_string()));
    assert_eq!(err.message(), "unsafe manifest path rejected: \"..\"");
    assert!(err.message().contains(".."));
    assert!(safe_join("/dest", "").is_none());
}

#[test]
fn bytes_serialize_as_base64_and_round_trip() {
    let entry = entry("Default/IndexedDB/CURRENT", &[0, 1, 2, 250, 255]);
    let wire = Json::object(vec![
        member("path", Json::string(&entry.path)),
        member("bytes", Json::string(&to_wire(&entry.bytes))),
    ]);
    let json = write_text(&wire);
    assert!(
        json.contains("\"bytes\":\"AAEC+v8=\""),
        "bytes are base64, got {json}"
    );
    let back = parse(json.as_bytes()).unwrap();
    let back = ManifestEntry {
        path: back.get("path").unwrap().as_str().unwrap().to_string(),
        bytes: from_wire(back.get("bytes").unwrap().as_str().unwrap()).unwrap(),
    };
    assert_eq!(back, entry);
}

#[test]
fn encodings_are_standard() {
    assert_eq!(to_url(&[251, 255]), "-_8");
    assert_eq!(to_wire(&[251, 255]), "+/8=");
    assert_eq!(from_wire("+/8="), Some(vec![251, 255]));
    assert_eq!(from_wire("+/8"), None);
    assert_eq!(from_wire("!"), None);
}

#[test]
fn normal_nested_paths_are_written() {
    let ok = vec![entry("Default/IndexedDB/a/b/CURRENT", b"ok")];
    let out = extract_into(&ok, "/dest");
    assert_eq!(out.outcome, Ok(1));
    assert_eq!(out.writes[0].path, "/dest/Default/IndexedDB/a/b/CURRENT");
    assert_eq!(ok[out.writes[0].entry].bytes, b"ok");
}

// payloads

#[test]
fn debug_never_leaks_secret_values() {
    let payload = ProfilePayload {
        cookies: vec![Cookie {
            value: "SECRET".into(),
            domain: ".example.com".into(),
            ..base()
        }],
        local_storage: vec![OriginState {
            origin: "https://example.com".into(),
            local_storage: vec![StorageEntry {
                name: "k".into(),
                value: "SECRET".into(),
            }],
        }],
        indexeddb: vec![],
    };
    let rendered = payload.redacted();
    assert!(!rendered.contains("SECRET"), "no secret in Debug: {rendered}");
    assert!(rendered.contains("cookies: 1"));
    assert!(rendered.contains("origins: 1"));
}

#[test]
fn candidate_origins_union_localstorage_and_cookie_hosts() {
    let on = |domain: &str| Cookie {
        domain: domain.into(),
        ..base()
    };
    let payload = ProfilePayload {
        cookies: vec![on(".example.com"), on("app.other.com")],
        local_storage: vec![OriginState {
            origin: "https://example.com".into(),
            local_storage: vec![],
        }],
        indexeddb: vec![],
    };
    let origins = payload.candidate_origins();
    assert!(origins.contains(&"https://example.com".to_owned()));
    assert!(origins.contains(&"https://app.other.com".to_owned()));
    // .example.com and https://example.com must not double-count
    assert_eq!(origins.iter().filter(|o| *o == "https://example.com").count(), 1);
}

#[test]
fn only_a_payload_without_anything_is_empty() {
    assert!(ProfilePayload::default().is_empty());
    let payload = ProfilePayload {
        indexeddb: vec![entry("a", b"")],
        ..ProfilePayload::default()
    };
    assert!(!payload.is_empty());
}

// numbers

#[test]
fn scalars_are_ordered_by_value() {
    let sorted = [f64::NEG_INFINITY, -2.5, -1.0, -0.0, 1e-300, 1.0, 95.5, f64::INFINITY];
    for (i, a) in sorted.iter().enumerate() {
        for (j, b) in sorted.iter().enumerate() {
            assert_eq!(scalar(*a).lt(scalar(*b)), i < j, "{a} < {b}");
        }
    }
    assert!(!scalar(-0.0).lt(scalar(0.0)));
    assert!(!scalar(f64::NAN).lt(scalar(1.0)));
    assert!(!scalar(1.0).lt(scalar(f64::NAN)));
}
