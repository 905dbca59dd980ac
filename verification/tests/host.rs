use browserserve::capacity::SessionFootprint;
use browserserve::chrome::launch::{BrowserVersion, LaunchError};
use browserserve::config::RuntimeConfig;
use browserserve::factory::{
    browser_key, destroy_steps, launch_failure, prepare_cgroup_base, soft_cap_step, ChromeFactory,
    CreateStep, DestroyStep, Measured, ProvisionAction, ProvisionEvent, SoftCap, TemplateAction,
    TemplateBuild, TemplateEvent,
};
use browserserve::linux;
use browserserve::linux::cgroup::{
    available_controllers, enable_memory_controller, own_cgroup_dir, Cgroup, CgroupError,
};
use browserserve::linux::probe::{detect, CgroupFacts, LeafProbe, ReflinkProbe};
use browserserve::linux::tiers::{KillTier, MemCapTier, ProfileTier, Tiers};
use browserserve::rss::{tree_rss_bytes, tree_thread_count, ProcStat};
use browserserve::session_dirs::Retry;

fn tiers(memcap: MemCapTier, profile: ProfileTier) -> Tiers {
    Tiers {
        kill: KillTier::Killpg,
        memcap,
        profile,
        notes: vec![],
    }
}

fn factory(memcap: MemCapTier, cgroup_base: Option<&str>) -> ChromeFactory {
    let config = RuntimeConfig {
        data_dir: "/data".to_string(),
        ..RuntimeConfig::default()
    };
    ChromeFactory::new(
        &config,
        "/nonexistent/browser".to_string(),
        tiers(memcap, ProfileTier::Reflink),
        cgroup_base.map(str::to_string),
    )
}

#[test]
fn create_failure_is_described_and_leaves_no_dirs() {
    let mut factory = factory(MemCapTier::RssPoll, None);
    let outcome = Err(LaunchError::Spawn("No such file or directory".to_string()));
    match factory.launched(outcome) {
        CreateStep::RemoveAndFail(err) => {
            assert!(err.contains("failed to spawn"), "unexpected error: {err}");
        },
        other => panic!("create must fail for a nonexistent executable, got {other:?}"),
    }
    assert!(factory.cached_version().is_none());
}

#[test]
fn version_cache_starts_empty() {
    let factory = factory(MemCapTier::RssPoll, None);
    assert!(factory.cached_version().is_none());
}

fn version(product: &str) -> BrowserVersion {
    BrowserVersion {
        product: product.to_string(),
        ..BrowserVersion::default()
    }
}

#[test]
fn browser_key_sanitizes_product() {
    let v = version("Chrome/149.0.7827.0");
    assert_eq!(browser_key(&v), "chrome-149.0.7827.0");
    assert_eq!(browser_key(&BrowserVersion::default()), "chrome-unknown");
}

#[test]
fn launched_sessions_are_isolated_in_their_own_leaf() {
    let mut factory = factory(MemCapTier::Cgroup, Some("/sys/fs/cgroup/b"));
    match factory.launched(Ok((4242, version("Chrome/1")))) {
        CreateStep::Isolate(Some(plan)) => {
            assert_eq!(plan.leaf.dir(), "/sys/fs/cgroup/b/session-4242");
            assert_eq!(plan.memory.unwrap().value, (2048u64 << 20).to_string());
            assert_eq!(plan.attach.path, "/sys/fs/cgroup/b/session-4242/cgroup.procs");
            assert_eq!(plan.attach.value, "4242");
        },
        other => panic!("expected isolation, got {other:?}"),
    }
    assert_eq!(factory.cached_version().unwrap().product, "Chrome/1");
    assert_eq!(factory.soft_cap(true), None);
}

#[test]
fn soft_cap_watches_sessions_without_a_hard_one() {
    let factory = factory(MemCapTier::RssPoll, Some("/ignored"));
    assert!(factory.apply_cgroup(1).is_none());
    let cap = factory.soft_cap(false).unwrap();
    assert_eq!(cap, 2048 << 20);
    assert_eq!(soft_cap_step(Some(cap), cap), SoftCap::Keep);
    assert_eq!(soft_cap_step(Some(cap + 1), cap), SoftCap::Kill);
    assert_eq!(soft_cap_step(None, cap), SoftCap::Stop);
}

#[test]
fn sessions_clone_the_template_or_start_empty() {
    let mut factory = factory(MemCapTier::RssPoll, None);
    match factory.provision_dirs("abc", ProvisionEvent::Start) {
        ProvisionAction::Make(dirs) => {
            assert_eq!(dirs.root, "/data/sessions/abc");
            assert_eq!(dirs.user_data_dir, "/data/sessions/abc/user-data-dir");
        },
        other => panic!("expected an empty tree, got {other:?}"),
    }
    factory.template_dir = Some("/data/templates/chrome-1".to_string());
    match factory.provision_dirs("abc", ProvisionEvent::Start) {
        ProvisionAction::Clone(copy, dirs) => {
            assert_eq!(copy.from, "/data/templates/chrome-1");
            assert_eq!(copy.to, dirs.user_data_dir);
            assert!(copy.reflink);
        },
        other => panic!("expected a clone, got {other:?}"),
    }
    assert!(matches!(
        factory.provision_dirs("abc", ProvisionEvent::Cloned(false)),
        ProvisionAction::Make(_)
    ));
    assert!(matches!(
        factory.provision_dirs("abc", ProvisionEvent::Made(Err("full".to_string()))),
        ProvisionAction::Fail(ref m) if m == "session dir provisioning failed: full"
    ));
}

#[test]
fn session_ids_are_random_and_hyphenated() {
    let factory = factory(MemCapTier::RssPoll, None);
    let a = factory.new_session().unwrap();
    let b = factory.new_session().unwrap();
    assert_eq!(a.len(), 36);
    assert_eq!(a.split('-').map(str::len).collect::<Vec<_>>(), [8, 4, 4, 4, 12]);
    assert_ne!(a, b);
}

#[test]
fn template_is_built_from_a_measured_browser() {
    let mut factory = factory(MemCapTier::RssPoll, None);
    let (mut build, first) = TemplateBuild::begin(&factory, "warm");
    assert!(matches!(first, TemplateAction::MakeScratch));
    assert!(matches!(build.step(&mut factory, TemplateEvent::Scratch(true)), TemplateAction::Launch));
    let measured = Measured {
        version: version("Chrome/149.0"),
        rss: Some(150 << 20),
        threads: Some(70),
    };
    let close = build.step(&mut factory, TemplateEvent::Launched(Some(measured)));
    assert!(matches!(close, TemplateAction::Close));
    assert!(matches!(
        factory.template_footprint(),
        Some(SessionFootprint { bytes: 157_286_400, threads: 70 })
    ));
    let strip = build.step(&mut factory, TemplateEvent::Closed);
    assert!(matches!(
        strip,
        TemplateAction::Strip { ref template, ref remove }
            if template == "/data/templates/chrome-149.0" && !remove.is_empty()
    ));
    let moved = build.step(&mut factory, TemplateEvent::Stripped(true));
    assert!(matches!(
        moved,
        TemplateAction::Move { ref from, .. } if from == "/data/sessions/warm/user-data-dir"
    ));
    assert!(factory.template_dir.is_none());
    assert!(matches!(build.step(&mut factory, TemplateEvent::Moved(true)), TemplateAction::Clean));
    assert_eq!(factory.template_dir.as_deref(), Some("/data/templates/chrome-149.0"));
    assert!(matches!(build.step(&mut factory, TemplateEvent::Cleaned), TemplateAction::Done));
    let (_, again) = TemplateBuild::begin(&factory, "warm2");
    assert!(matches!(again, TemplateAction::Done));
}

#[test]
fn template_failures_leave_the_factory_without_one() {
    let mut factory = factory(MemCapTier::RssPoll, None);
    let (mut build, _) = TemplateBuild::begin(&factory, "warm");
    build.step(&mut factory, TemplateEvent::Scratch(true));
    let action = build.step(&mut factory, TemplateEvent::Launched(None));
    assert!(matches!(action, TemplateAction::Clean));
    build.step(&mut factory, TemplateEvent::Cleaned);
    assert!(factory.template_dir.is_none());
    assert!(factory.template_footprint().is_none());
}

#[test]
fn launch_failures_carry_the_hint() {
    let plain = launch_failure(&LaunchError::FdMapping);
    assert!(!plain.contains("hint"));
    let sandbox = launch_failure(&LaunchError::ChromeExited {
        status: "signal: 6".to_string(),
        stderr_tail: "No usable sandbox!".to_string(),
    });
    assert!(sandbox.contains("\nhint: "));
}

#[test]
fn sessions_are_destroyed_in_order() {
    assert_eq!(
        destroy_steps(true, true),
        [
            DestroyStep::StopMonitor,
            DestroyStep::KillCgroup,
            DestroyStep::Teardown,
            DestroyStep::RemoveDirs,
        ]
    );
    assert_eq!(destroy_steps(false, false), [DestroyStep::Teardown, DestroyStep::RemoveDirs]);
}

// cgroups

fn cgroup() -> Cgroup {
    Cgroup {
        dir: "/cg".to_string(),
    }
}

#[test]
fn memory_max_zero_is_unlimited() {
    let write = cgroup().set_memory_max(0);
    assert_eq!(write.path, "/cg/memory.max");
    assert_eq!(write.value, "max");
}

#[test]
fn memory_max_nonzero_is_bytes() {
    let write = cgroup().set_memory_max(1_048_576);
    assert_eq!(write.value, "1048576");
}

#[test]
fn attach_writes_pid_to_procs() {
    let write = cgroup().attach(4242);
    assert_eq!(write.path, "/cg/cgroup.procs");
    assert_eq!(write.value, "4242");
}

#[test]
fn create_makes_the_leaf_dir() {
    let cg = Cgroup::create("/cg", "session-x");
    assert!(cg.dir().ends_with("session-x"));
    assert_eq!(cg.dir(), "/cg/session-x");
}

#[test]
fn supports_kill_reflects_file_presence() {
    let cg = cgroup();
    assert!(!cg.supports_kill(&vec![]));
    assert!(cg.supports_kill(&vec![cg.kill_file()]));
}

#[test]
fn kill_and_remove_writes_kill_when_present() {
    let cg = Cgroup::create("/cg", "session-y");
    let write = cg.kill_write(&vec![cg.kill_file()]).expect("cgroup.kill should be used when present");
    assert_eq!(write.path, "/cg/session-y/cgroup.kill");
    assert_eq!(write.value, "1");
}

#[test]
fn kill_and_remove_deletes_an_empty_leaf() {
    let cg = Cgroup::create("/cg", "session-z");
    let used = cg.kill_write(&vec![]).is_some();
    assert!(!used, "no cgroup.kill file means kill was not used");
    assert!(
        matches!(Cgroup::remove_step(1, true), Retry::Done),
        "an empty leaf must be removed"
    );
    assert!(!matches!(Cgroup::remove_step(1, false), Retry::Done));
}

#[test]
fn the_own_cgroup_is_found_on_the_unified_line() {
    let content = "1:name=systemd:/x\n0::/user.slice/a\n";
    assert_eq!(own_cgroup_dir(Some(content)).as_deref(), Some("/sys/fs/cgroup/user.slice/a"));
    assert_eq!(own_cgroup_dir(Some("1:cpu:/x\n")), None);
    assert_eq!(own_cgroup_dir(None), None);
    assert_eq!(available_controllers(Some("cpu memory pids\n")), ["cpu", "memory", "pids"]);
    assert!(available_controllers(None).is_empty());
    let write = enable_memory_controller("/cg");
    assert_eq!(write.path, "/cg/cgroup.subtree_control");
    assert_eq!(write.value, "+memory");
    let err = CgroupError::Io {
        path: "/cg".to_string(),
        source: "EACCES".to_string(),
    };
    assert!(err.message().contains("/cg") && err.message().contains("EACCES"));
}

#[test]
fn the_session_base_prefers_a_delegated_one() {
    assert_eq!(prepare_cgroup_base(Some("/d"), Some("/o"), true).as_deref(), Some("/d"));
    assert_eq!(prepare_cgroup_base(None, Some("/o"), true).as_deref(), Some("/o/browserserve"));
    assert_eq!(prepare_cgroup_base(None, Some("/o"), false), None);
    assert_eq!(prepare_cgroup_base(None, None, true), None);
}

#[test]
fn hard_caps_need_a_real_migration() {
    let facts = |migrated: bool| CgroupFacts {
        delegated_base: None,
        own_cgroup: Some("0::/a\n".to_string()),
        controllers: Some("memory pids".to_string()),
        leaf: LeafProbe::Created {
            writable: true,
            can_kill: true,
            migrated,
        },
    };
    let hard = detect(&facts(true), &ReflinkProbe::Supported);
    assert_eq!(hard.memcap, MemCapTier::Cgroup);
    assert_eq!(hard.kill, KillTier::CgroupKill);
    assert_eq!(hard.profile, ProfileTier::Reflink);
    let soft = detect(&facts(false), &ReflinkProbe::Unsupported);
    assert_eq!(soft.memcap, MemCapTier::RssPoll);
    assert_eq!(soft.kill, KillTier::Killpg);
    assert_eq!(soft.profile, ProfileTier::PlainCopy);
    assert_eq!(soft.notes.len(), 2);
    assert!(soft.notes[0].contains("process migration denied"));
}

#[test]
fn missing_delegation_is_reported() {
    let facts = CgroupFacts {
        delegated_base: None,
        own_cgroup: Some("0::/a\n".to_string()),
        controllers: Some("cpu".to_string()),
        leaf: LeafProbe::Failed("x".to_string()),
    };
    let tiers = detect(&facts, &ReflinkProbe::Failed("EIO".to_string()));
    assert!(tiers.notes[0].contains("'memory' not delegated in /sys/fs/cgroup/a"));
    assert!(tiers.notes[1].contains("EIO"));
}

#[test]
fn the_portable_floor_has_a_summary() {
    let floor = linux::detect();
    assert_eq!(floor.kill, KillTier::Killpg);
    let summary = floor.summary();
    assert!(summary.contains(floor.kill.name()));
    assert!(summary.contains(floor.memcap.name()));
    assert!(summary.contains(floor.profile.name()));
}

// process trees

fn proc_stat(pid: i32, ppid: i32, rss_pages: u64, threads: u64) -> ProcStat {
    ProcStat {
        pid,
        ppid,
        rss_pages,
        threads,
    }
}

#[test]
fn own_process_tree_has_nonzero_rss() {
    let procs = vec![proc_stat(1, 0, 500, 9), proc_stat(77, 1, 3, 2)];
    let rss = tree_rss_bytes(&procs, 4096, 77).expect("own process must be visible");
    assert!(rss > 0, "self RSS should be positive");
    assert_eq!(rss, 3 * 4096);
}

#[test]
fn missing_pid_returns_none() {
    let procs = vec![proc_stat(1, 0, 500, 9), proc_stat(77, 1, 3, 2)];
    assert!(tree_rss_bytes(&procs, 4096, i32::MAX).is_none());
    assert!(tree_thread_count(&procs, i32::MAX).is_none());
}

#[test]
fn whole_trees_are_summed() {
    let procs = vec![
        proc_stat(30, 20, 4, 3),
        proc_stat(1, 0, 500, 9),
        proc_stat(10, 1, 1, 1),
        proc_stat(20, 10, 2, 2),
        proc_stat(21, 10, 8, 4),
        proc_stat(99, 1, 16, 5),
    ];
    assert_eq!(tree_rss_bytes(&procs, 4096, 10), Some((1 + 2 + 4 + 8) * 4096));
    assert_eq!(tree_thread_count(&procs, 10), Some(1 + 2 + 3 + 4));
    assert_eq!(tree_thread_count(&procs, 30), Some(3));
}
