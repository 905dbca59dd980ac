use browserserve::capacity::{
    compute, meminfo_total, parse_limit_file, probe_host, HostFacts, HostLimits, SessionFootprint,
};
use browserserve::platform::Platform;

const FP: SessionFootprint = SessionFootprint {
    bytes: 150 * 1024 * 1024,
    threads: 70,
};

fn limits(mem_gb: Option<u64>, pids: Option<u64>, cpus: u32) -> HostLimits {
    HostLimits {
        mem_ceiling_bytes: mem_gb.map(|g| g * 1024 * 1024 * 1024),
        pids_max: pids,
        cpus,
    }
}

#[test]
fn memory_binds_on_a_small_box() {
    let cap = compute(limits(Some(1), None, 48), Some(FP));
    assert_eq!(cap.bound_by, "memory");
    assert!(cap.max_sessions >= 1 && cap.max_sessions < 8);
}

#[test]
fn pids_bind_on_a_thread_capped_container() {
    let cap = compute(limits(Some(64), Some(1000), 48), Some(FP));
    assert_eq!(cap.bound_by, "pids");
    assert_eq!(cap.max_sessions, 1000 / 5 * 4 / 70);
}

#[test]
fn cpu_binds_when_memory_and_pids_are_plentiful() {
    let cap = compute(limits(Some(512), None, 4), Some(FP));
    assert_eq!(cap.bound_by, "cpu");
    assert_eq!(cap.max_sessions, 8);
}

#[test]
fn no_measurement_still_yields_cpu_bound() {
    let cap = compute(limits(Some(8), Some(1000), 8), None);
    assert_eq!(cap.bound_by, "cpu");
    assert_eq!(cap.max_sessions, 16);
}

#[test]
fn nothing_readable_still_floors_on_cpu() {
    let cap = compute(
        HostLimits {
            mem_ceiling_bytes: None,
            pids_max: None,
            cpus: 0,
        },
        None,
    );
    assert_eq!(cap.max_sessions, 2);
    assert_eq!(cap.bound_by, "cpu");
}

#[test]
fn floor_is_one_session() {
    let tiny = SessionFootprint {
        bytes: 10 * 1024 * 1024 * 1024,
        threads: 100_000,
    };
    let cap = compute(limits(Some(1), Some(100), 1), Some(tiny));
    assert_eq!(cap.max_sessions, 1);
}

#[test]
fn auto_ceiling_caps_huge_hosts() {
    let cap = compute(limits(Some(4096), None, 999), Some(FP));
    assert!(cap.max_sessions <= 256);
}

#[test]
fn memory_share_is_four_fifths_over_the_footprint() {
    let cap = compute(limits(Some(1), None, 48), Some(FP));
    assert_eq!(u64::from(cap.max_sessions), (1 << 30) / 5 * 4 / FP.bytes);
    assert_eq!(cap.max_sessions, 5);
}

#[test]
fn ceiling_grows_with_the_host_on_concrete_values() {
    let small = compute(limits(Some(2), Some(500), 4), Some(FP));
    let large = compute(limits(Some(16), Some(5000), 16), Some(FP));
    assert!(small.max_sessions <= large.max_sessions);
}

#[test]
fn limit_files_are_numbers_or_unlimited() {
    assert_eq!(parse_limit_file("1048576\n"), Some(1_048_576));
    assert_eq!(parse_limit_file("max\n"), None);
    assert_eq!(parse_limit_file("twelve"), None);
}

#[test]
fn meminfo_total_is_in_bytes() {
    let raw = "MemTotal:       16384 kB\nMemFree:        1024 kB\n";
    assert_eq!(meminfo_total(raw), Some(16_384 * 1024));
    assert_eq!(meminfo_total("MemFree: 1 kB\n"), None);
}

#[test]
fn host_limits_prefer_the_cgroup() {
    let facts = HostFacts {
        platform: Platform::Linux,
        memory_max: Some("4096\n".to_string()),
        meminfo: Some("MemTotal: 8 kB\n".to_string()),
        pids_max: Some("max\n".to_string()),
        total_memory: 1,
        parallelism: Some(6),
    };
    let limits = probe_host(&facts);
    assert_eq!(limits.mem_ceiling_bytes, Some(4096));
    assert_eq!(limits.pids_max, None);
    assert_eq!(limits.cpus, 6);

    let uncapped = HostFacts {
        memory_max: Some("max\n".to_string()),
        ..facts
    };
    assert_eq!(probe_host(&uncapped).mem_ceiling_bytes, Some(8 * 1024));
}

#[test]
fn other_hosts_go_by_total_memory() {
    let facts = HostFacts {
        platform: Platform::MacOs,
        memory_max: None,
        meminfo: None,
        pids_max: Some("100\n".to_string()),
        total_memory: 1 << 34,
        parallelism: None,
    };
    let limits = probe_host(&facts);
    assert_eq!(limits.mem_ceiling_bytes, Some(1 << 34));
    assert_eq!(limits.pids_max, None);
    assert_eq!(limits.cpus, 1);
    let unknown = HostFacts {
        total_memory: 0,
        ..facts
    };
    assert_eq!(probe_host(&unknown).mem_ceiling_bytes, None);
}
