use browserserve::chrome::find::FindError;
use browserserve::chrome::kill::TeardownReport;
use browserserve::chrome::launch::{BrowserVersion, LaunchError};
use browserserve::cli::{
    check_transport, doctor, Check, CheckAction, CheckEvent, HostReport, Launched,
};
use browserserve::config::Transport;
use browserserve::json::{parse, write_text, Json};
use browserserve::linux;
use browserserve::linux::tiers::ProfileTier;
use browserserve::paths;
use browserserve::platform::Platform;
use browserserve::session_dirs::{
    clean_stale, id_from, sessions_dir, teardown_step, Listing, Removal, Retry, SessionDirs,
    TEARDOWN_ATTEMPTS,
};
use browserserve::template::{
    clone_template, copy_file, copy_tree, remove_if_present, strip_for_seal, template_path,
    CopyStep, FileCopy, PathKind, Remove,
};
use browserserve::text;
use std::collections::BTreeMap;

// session directories

#[test]
fn provision_creates_fresh_tree() {
    let dirs = SessionDirs::fresh("/data").unwrap();
    assert!(dirs.root.starts_with("/data/sessions/"));
    let id = dirs.root.strip_prefix("/data/sessions/").unwrap();
    assert_eq!(id.len(), 36);
    let again = SessionDirs::provision_plain("/data", id);
    assert_eq!(again.root, dirs.root);
    assert!(again.root.contains(id));
    assert_eq!(again.user_data_dir, format!("{}/user-data-dir", dirs.root));
    assert_ne!(SessionDirs::fresh("/data").unwrap().root, dirs.root);
    assert_eq!(sessions_dir("/data"), "/data/sessions");
}

#[test]
fn session_ids_are_made_of_the_drawn_bytes() {
    let bytes = vec![
        0x46, 0xeb, 0xd0, 0xee, 0x0e, 0x6d, 0xf3, 0xc9, 0xf9, 0x0d, 0xcc, 0xc3, 0x5a, 0x91, 0x3f,
        0x3e,
    ];
    let id = id_from(true, &bytes);
    assert_eq!(id.as_deref(), Some("46ebd0ee-0e6d-43c9-b90d-ccc35a913f3e"));
    assert_eq!(id_from(false, &bytes), None);
}

#[test]
fn teardown_removes_everything_and_is_idempotent() {
    assert_eq!(teardown_step(1, Removal::Removed), Retry::Done);
    assert_eq!(teardown_step(1, Removal::Missing), Retry::Done);
    for attempt in 1..TEARDOWN_ATTEMPTS {
        let pause = u64::from(attempt) * 100;
        assert_eq!(teardown_step(attempt, Removal::Failed), Retry::Sleep(pause));
    }
    assert_eq!(teardown_step(TEARDOWN_ATTEMPTS, Removal::Failed), Retry::GiveUp);
}

#[test]
fn clean_stale_sweeps_leftovers() {
    assert_eq!(clean_stale(Listing::Entries(vec![true, true])), Ok(2));
    assert_eq!(clean_stale(Listing::Entries(vec![])), Ok(0));
    assert_eq!(clean_stale(Listing::Entries(vec![true, false])), Ok(1));
    assert_eq!(clean_stale(Listing::Missing), Ok(0));
    assert_eq!(clean_stale(Listing::Failed("EIO".to_string())), Err("EIO".to_string()));
}

// templates

/// What stands at each path.
struct FakeDisk {
    items: BTreeMap<String, PathKind>,
}

impl FakeDisk {
    fn new(items: &[(&str, PathKind)]) -> FakeDisk {
        FakeDisk {
            items: items.iter().map(|(path, kind)| ((*path).to_string(), *kind)).collect(),
        }
    }

    fn paths(&self) -> Vec<&str> {
        self.items.keys().map(String::as_str).collect()
    }

    fn remove(&mut self, path: &str) {
        let kind = self.items.get(path).copied().unwrap_or(PathKind::Missing);
        match remove_if_present(kind) {
            Remove::Tree => {
                let below = format!("{path}/");
                self.items.retain(|p, _| p != path && !p.starts_with(&below));
            },
            Remove::Entry => {
                self.items.remove(path);
            },
            Remove::Nothing => assert!(!self.items.contains_key(path)),
        }
    }
}

fn strip(disk: &mut FakeDisk, profile: &str) {
    for path in strip_for_seal(profile) {
        disk.remove(&path);
    }
}

#[test]
fn strip_removes_singletons_and_caches() {
    let mut disk = FakeDisk::new(&[
        ("/p", PathKind::Dir),
        ("/p/SingletonLock", PathKind::Other),
        ("/p/Default", PathKind::Dir),
        ("/p/Default/GPUCache", PathKind::Dir),
        ("/p/Default/RunningChromeVersion", PathKind::File),
        ("/p/Default/Cookies", PathKind::File),
    ]);
    strip(&mut disk, "/p");
    for rel in ["SingletonLock", "Default/GPUCache", "Default/RunningChromeVersion"] {
        assert!(!disk.items.contains_key(&format!("/p/{rel}")), "{rel} is removed");
    }
    assert!(disk.items.contains_key("/p/Default/Cookies"), "real data kept");
}

#[test]
fn strip_is_idempotent_on_clean_profile() {
    let mut disk = FakeDisk::new(&[("/p", PathKind::Dir)]);
    strip(&mut disk, "/p");
    strip(&mut disk, "/p");
    assert_eq!(disk.paths(), ["/p"]);
}

#[test]
fn a_second_strip_changes_nothing() {
    let mut disk = FakeDisk::new(&[
        ("/p", PathKind::Dir),
        ("/p/SingletonLock", PathKind::Other),
        ("/p/GrShaderCache", PathKind::File),
        ("/p/Default", PathKind::Dir),
        ("/p/Default/Cookies", PathKind::File),
        ("/p/Default/GPUCache", PathKind::Dir),
        ("/p/Default/GPUCache/data_0", PathKind::File),
        ("/p/Default/GPUCache2", PathKind::File),
        ("/p/Default/SingletonLock", PathKind::File),
    ]);
    strip(&mut disk, "/p");
    let kept = ["/p", "/p/Default", "/p/Default/Cookies", "/p/Default/GPUCache2", "/p/Default/SingletonLock"];
    assert_eq!(disk.paths(), kept);
    strip(&mut disk, "/p");
    assert_eq!(disk.paths(), kept);
}

#[test]
fn clone_reproduces_files_via_copy() {
    let copy = clone_template("/tmpl", "/sessions/abc/user-data-dir", ProfileTier::PlainCopy);
    assert!(!copy.reflink);
    assert!(matches!(
        copy_tree(&copy.from, &copy.to, "Local State", PathKind::File),
        CopyStep::Copy { ref from, ref to }
            if from == "/tmpl/Local State" && to == "/sessions/abc/user-data-dir/Local State"
    ));
    assert!(matches!(
        copy_tree(&copy.from, &copy.to, "Default", PathKind::Dir),
        CopyStep::Descend { ref to, .. } if to == "/sessions/abc/user-data-dir/Default"
    ));
    assert!(matches!(copy_tree("/a", "/b", "pipe", PathKind::Other), CopyStep::Skip));
}

#[test]
fn clone_reflink_tier_falls_back_to_copy_when_unsupported() {
    let copy = clone_template("/tmpl", "/out", ProfileTier::Reflink);
    assert!(copy.reflink);
    assert_eq!((copy.from.as_str(), copy.to.as_str()), ("/tmpl", "/out"));
    assert!(matches!(
        copy_tree(&copy.from, &copy.to, "f", PathKind::File),
        CopyStep::Copy { ref to, .. } if to == "/out/f"
    ));
    assert_eq!(copy_file(copy.reflink, None), FileCopy::Clone);
    assert_eq!(copy_file(copy.reflink, Some(false)), FileCopy::Copy, "the bytes are copied");
    assert_eq!(copy_file(copy.reflink, Some(true)), FileCopy::Done);
    assert_eq!(copy_file(false, None), FileCopy::Copy);
}

#[test]
fn template_path_is_keyed_by_browser() {
    let p = template_path("/data", "chrome-149.0.7827.0");
    assert!(p.ends_with("templates/chrome-149.0.7827.0"));
}

// paths

#[test]
fn paths_are_joined_with_one_separator() {
    assert_eq!(paths::join("/a", "b"), "/a/b");
    assert_eq!(paths::join("/a/", "b"), "/a/b");
    assert_eq!(paths::parts("a//b/c/"), ["a", "b", "c"]);
    let names = vec!["x".to_string(), "y".to_string()];
    assert_eq!(paths::join_all("/r", &names, 1), "/r/x");
    assert_eq!(paths::join_all("/r", &names, 2), "/r/x/y");
}

// check and doctor

#[test]
fn only_pipes_are_available() {
    assert!(check_transport(Transport::Pipe).is_ok());
    assert_eq!(
        check_transport(Transport::Port).unwrap_err(),
        "chrome.transport: port is not available yet; use pipe"
    );
}

#[test]
fn doctor_passes_a_fit_host() {
    let host = HostReport {
        browser: Ok("/usr/bin/chromium".to_string()),
        version: Some("Chromium 149.0 \n".to_string()),
        fd_limit: Some(4096),
        data_dir: "/data".to_string(),
        writable: Ok(()),
        platform: Platform::Linux,
        shm: Some((262_144, 4096)),
        tiers: linux::detect(),
    };
    let (lines, ok) = doctor(&host);
    assert!(ok);
    assert_eq!(lines[0], "browser        /usr/bin/chromium");
    assert_eq!(lines[1], "version        Chromium 149.0");
    assert_eq!(lines[2], "fd limit       4096");
    assert_eq!(lines[3], "data dir       /data writable");
    assert_eq!(lines[4], "/dev/shm       1024 MiB available");
    assert!(lines[5].starts_with("isolation      "));
    assert_eq!(lines.last().unwrap(), "doctor         PASS");
}

#[test]
fn doctor_names_a_development_platform() {
    let host = HostReport {
        browser: Ok("/c".to_string()),
        version: None,
        fd_limit: None,
        data_dir: "/data".to_string(),
        writable: Ok(()),
        platform: Platform::MacOs,
        shm: None,
        tiers: linux::detect(),
    };
    let (lines, ok) = doctor(&host);
    assert!(ok);
    assert_eq!(lines[1], "version        could not run --version");
    assert_eq!(lines[2], "fd limit       unknown");
    assert_eq!(lines[4], "platform       macOS: development only; production is the Linux image");
    assert!(!lines.iter().any(|line| line.starts_with("/dev/shm")));
}

#[test]
fn doctor_fails_an_unfit_host() {
    let missing = FindError::NotFound { searched: 3 };
    let said = missing.message();
    let host = HostReport {
        browser: Err(missing),
        version: None,
        fd_limit: Some(1024),
        data_dir: "/data".to_string(),
        writable: Err("read-only".to_string()),
        platform: Platform::Linux,
        shm: Some((16, 4096)),
        tiers: linux::detect(),
    };
    let (lines, ok) = doctor(&host);
    assert!(!ok);
    assert_eq!(lines[0], format!("browser        MISSING: {said}"));
    assert_eq!(lines[1], "fd limit       1024");
    assert!(lines[2].contains("warning: below 4096"));
    assert_eq!(lines[3], "data dir       /data NOT writable: read-only");
    assert_eq!(lines[4], "/dev/shm       0 MiB available");
    assert!(lines[5].contains("--shm-size=1g"));
    assert_eq!(lines.last().unwrap(), "doctor         FAIL");
}

#[test]
fn a_check_launches_and_tears_down_one_browser() {
    let (mut check, first) = Check::begin();
    assert!(matches!(first, CheckAction::FindBrowser));
    let (lines, action) = check.step(CheckEvent::BrowserFound(Ok("/c".to_string()))).unwrap();
    assert_eq!(lines, ["executable     /c"]);
    assert!(matches!(action, CheckAction::Provision));
    let (lines, _) = check.step(CheckEvent::Provisioned(Ok("/d".to_string()))).unwrap();
    assert_eq!(lines, ["user data dir  /d"]);
    let launched = Launched {
        pid: 42,
        version: BrowserVersion {
            product: "Chrome/1".to_string(),
            protocol_version: "1.3".to_string(),
            ..BrowserVersion::default()
        },
        ready_ms: 250,
    };
    let (lines, action) = check.step(CheckEvent::Launched(Ok(launched))).unwrap();
    assert_eq!(
        lines,
        [
            "pid            42",
            "product        Chrome/1",
            "protocol       1.3",
            "cdp ready in   250 ms",
        ]
    );
    assert!(matches!(action, CheckAction::TearDown));
    let report = TeardownReport {
        exit_status: Some("exit status: 0".to_string()),
        graceful: true,
        escalated_sigkill: false,
        reaped: true,
    };
    let (lines, _) = check.step(CheckEvent::TornDown(report)).unwrap();
    assert_eq!(
        lines,
        ["teardown       graceful=true sigkill=false reaped=true exit=exit status: 0"]
    );
    let (lines, action) = check.step(CheckEvent::Removed(Ok(()))).unwrap();
    assert_eq!(lines, ["session dir    removed", "check          PASS"]);
    assert!(matches!(action, CheckAction::Finish(true)));
    assert!(check.step(CheckEvent::Removed(Ok(()))).is_none());
}

#[test]
fn a_check_reports_what_failed() {
    let (mut check, _) = Check::begin();
    check.step(CheckEvent::BrowserFound(Ok("/c".to_string())));
    let (_, action) = check.step(CheckEvent::Provisioned(Err("full".to_string()))).unwrap();
    assert!(matches!(action, CheckAction::Fail(ref m) if m == "provision session dir: full"));

    let (mut check, _) = Check::begin();
    check.step(CheckEvent::BrowserFound(Ok("/c".to_string())));
    check.step(CheckEvent::Provisioned(Ok("/d".to_string())));
    let sandbox = LaunchError::ChromeExited {
        status: "signal: 6".to_string(),
        stderr_tail: "No usable sandbox!".to_string(),
    };
    let (_, action) = check.step(CheckEvent::Launched(Err(sandbox))).unwrap();
    assert!(matches!(
        action,
        CheckAction::RemoveAndFail(ref m) if m.starts_with("launch failed: ") && m.contains("\n\nhint: ")
    ));

    let (mut check, _) = Check::begin();
    check.step(CheckEvent::BrowserFound(Ok("/c".to_string())));
    check.step(CheckEvent::Provisioned(Ok("/d".to_string())));
    check.step(CheckEvent::Launched(Ok(Launched {
        pid: 1,
        version: BrowserVersion::default(),
        ready_ms: 0,
    })));
    check.step(CheckEvent::TornDown(TeardownReport {
        exit_status: None,
        graceful: false,
        escalated_sigkill: true,
        reaped: false,
    }));
    let (lines, action) = check.step(CheckEvent::Removed(Ok(()))).unwrap();
    assert_eq!(lines[1], "check          FAIL: browser was not reaped");
    assert!(matches!(action, CheckAction::Finish(false)));
}

// text and JSON

#[test]
fn text_helpers_follow_the_usual_rules() {
    assert_eq!(text::trim("\t a b \n"), "a b");
    assert_eq!(text::trim_start_char("..a.", '.'), "a.");
    assert_eq!(text::trim_end_char("a//", '/'), "a");
    assert_eq!(text::strip_prefix("Bearer x", "Bearer ").as_deref(), Some("x"));
    assert_eq!(text::strip_prefix("x", "Bearer "), None);
    assert!(text::contains("abc", "bc") && !text::contains("abc", "cb"));
    assert_eq!(text::words(" a  b\tc\n"), ["a", "b", "c"]);
    assert_eq!(text::lines("a\r\nb\n\nc"), ["a", "b", "", "c"]);
    assert_eq!(text::parse_number("+12", 100), Some(12));
    assert_eq!(text::parse_number("101", 100), None);
    assert_eq!(text::parse_number("", 100), None);
    assert_eq!(text::parse_number("1a", 100), None);
    assert_eq!(text::decimal(0), "0");
    assert_eq!(text::decimal(u128::MAX), u128::MAX.to_string());
    assert_eq!(text::signed_decimal(i64::MIN), i64::MIN.to_string());
    assert_eq!(text::join(&vec!["a".to_string(), "b".to_string()], " | "), "a | b");
    assert!(text::less("a", "b") && text::less("a", "aa") && !text::less("b", "a"));
    assert!(text::starts_with_char(".x", '.') && !text::starts_with_char("", '.'));
}

#[test]
fn json_reads_back_what_it_writes() {
    let source = r#"{"a":[1,-2,"x\"y",null,true],"b":{"c":1.5}}"#;
    let value = parse(source.as_bytes()).unwrap();
    assert_eq!(write_text(&value), source);
    assert_eq!(write_text(&value.copy()), source);
    assert!(matches!(value.get("b").unwrap().get("c"), Some(Json::Real(s)) if s == "1.5"));
    let items = value.get("a").unwrap().as_array().unwrap();
    assert_eq!(items[0].as_u64(), Some(1));
    assert_eq!(items[1].as_i64(), Some(-2));
    assert_eq!(items[2].as_str(), Some("x\"y"));
    assert!(items[2].as_u64().is_none());
    assert!(parse(b"{").is_err());
}
