//! Host-measured session capacity: how many concurrent sessions this host can
//! actually hold, derived from real limits (cgroup memory/pids, cores) and the
//! measured footprint of a browser launched on this host — never a constant.

use crate::platform::Platform;
use crate::text;
use vstd::prelude::*;

verus! {

/// Hard ceilings the host imposes, read at startup.
#[derive(Debug, Clone, Copy)]
pub struct HostLimits {
    /// Memory ceiling in bytes: cgroup v2 `memory.max` when finite, else total
    /// system memory. `None` when nothing is readable.
    pub mem_ceiling_bytes: Option<u64>,
    /// Finite cgroup v2 `pids.max` (counts threads). `None` when unlimited or
    /// not in a cgroup.
    pub pids_max: Option<u64>,
    /// Logical CPUs visible to the process.
    pub cpus: u32,
}

impl Default for HostLimits {
    fn default() -> (r: HostLimits)
        ensures
            r == (HostLimits { mem_ceiling_bytes: None, pids_max: None, cpus: 0 }),
    {
        HostLimits { mem_ceiling_bytes: None, pids_max: None, cpus: 0 }
    }
}

/// Measured cost of one warmed browser on this host.
#[derive(Debug, Clone, Copy)]
pub struct SessionFootprint {
    /// Resident bytes of the browser's whole process tree.
    pub bytes: u64,
    /// Threads across the browser's whole process tree (each consumes a PID
    /// slot under the cgroup pids controller).
    pub threads: u64,
}

/// The computed ceiling and which constraint produced it.
#[derive(Debug, Clone, Copy)]
pub struct Capacity {
    /// Safe concurrent-session ceiling for this host.
    pub max_sessions: u32,
    /// The binding constraint: `memory`, `pids`, or `cpu`.
    pub bound_by: &'static str,
}

/// Four fifths of a limit are usable.
pub const USABLE_NUM: u64 = 4;

/// Four fifths of a limit are usable.
pub const USABLE_DEN: u64 = 5;

/// Sessions that one logical CPU carries.
pub const SESSIONS_PER_CPU: u32 = 2;

/// The largest ceiling that is ever derived.
pub const AUTO_CEILING: u32 = 256;

/// How many sessions fit under `limit` when each costs `cost`, if both are
/// known.
pub open spec fn share_of(limit: Option<u64>, cost: u64) -> Option<int> {
    match limit {
        Some(l) if cost > 0 => Some((l as int / 5 * 4) / cost as int),
        _ => None,
    }
}

/// How many sessions the CPUs carry.
pub open spec fn cpu_share(cpus: u32) -> int {
    if cpus == 0 {
        2
    } else {
        cpus * 2
    }
}

/// The smaller of the bound so far and a further one, with its label.
pub open spec fn tighter(best: (int, Seq<char>), value: Option<int>, label: Seq<char>) -> (
    int,
    Seq<char>,
) {
    match value {
        Some(v) if v < best.0 => (v, label),
        _ => best,
    }
}

/// The tightest bound and its label; on a tie the earlier of CPU, memory and
/// pids counts.
pub open spec fn tightest(limits: HostLimits, footprint: Option<SessionFootprint>) -> (
    int,
    Seq<char>,
) {
    let cpu = (cpu_share(limits.cpus), "cpu"@);
    match footprint {
        None => cpu,
        Some(fp) => tighter(
            tighter(cpu, share_of(limits.mem_ceiling_bytes, fp.bytes), "memory"@),
            share_of(limits.pids_max, fp.threads),
            "pids"@,
        ),
    }
}

/// `n`, at least one session and at most the automatic ceiling.
pub open spec fn clamped(n: int) -> int {
    if n < 1 {
        1
    } else if n > AUTO_CEILING {
        AUTO_CEILING as int
    } else {
        n
    }
}

fn usable_share(limit: Option<u64>, cost: u64) -> (r: Option<u64>)
    ensures
        r is Some <==> share_of(limit, cost) is Some,
        r matches Some(v) ==> share_of(limit, cost) == Some(v as int),
{
    match limit {
        Some(l) => {
            if cost > 0 {
                Some(l / USABLE_DEN * USABLE_NUM / cost)
            } else {
                None
            }
        },
        None => None,
    }
}

fn consider(best: (u64, &'static str), value: Option<u64>, label: &'static str) -> (r: (
    u64,
    &'static str,
))
    ensures
        (r.0 as int, r.1@) == tighter(
            (best.0 as int, best.1@),
            match value {
                Some(v) => Some(v as int),
                None => None,
            },
            label@,
        ),
{
    match value {
        Some(v) => if v < best.0 {
            (v, label)
        } else {
            best
        },
        None => best,
    }
}

/// Derives the session ceiling from host limits and a measured footprint.
/// Explicit operator configuration is applied by the caller and always wins.
pub fn compute(limits: HostLimits, footprint: Option<SessionFootprint>) -> (r: Capacity)
    ensures
        r.max_sessions as int == clamped(tightest(limits, footprint).0),
        r.bound_by@ == tightest(limits, footprint).1,
        1 <= r.max_sessions <= AUTO_CEILING,
{
    let cpus: u32 = if limits.cpus == 0 {
        1
    } else {
        limits.cpus
    };
    let mut best: (u64, &'static str) = (cpus as u64 * SESSIONS_PER_CPU as u64, "cpu");
    if let Some(fp) = footprint {
        best = consider(best, usable_share(limits.mem_ceiling_bytes, fp.bytes), "memory");
        best = consider(best, usable_share(limits.pids_max, fp.threads), "pids");
    }
    let max_sessions: u32 = if best.0 < 1 {
        1
    } else if best.0 > AUTO_CEILING as u64 {
        AUTO_CEILING
    } else {
        best.0 as u32
    };
    Capacity { max_sessions, bound_by: best.1 }
}

/// A session ceiling never lets the sessions use more than four fifths of the
/// measured memory or pids, unless it is the single session that is always
/// allowed, nor more than two sessions per CPU.
pub proof fn ceiling_respects_every_limit(limits: HostLimits, fp: SessionFootprint)
    ensures
        ({
            let n = clamped(tightest(limits, Some(fp)).0);
            &&& n == 1 || n <= cpu_share(limits.cpus)
            &&& limits.mem_ceiling_bytes matches Some(mem) ==> n == 1 || n * fp.bytes <= mem as int
                / 5 * 4
            &&& limits.pids_max matches Some(pids) ==> n == 1 || n * fp.threads <= pids as int / 5
                * 4
        }),
{
    let n = clamped(tightest(limits, Some(fp)).0);
    if n > 1 {
        if let Some(mem) = limits.mem_ceiling_bytes {
            if fp.bytes > 0 {
                fits(mem as int / 5 * 4, fp.bytes as int, n);
            } else {
                assert(n * fp.bytes == 0) by (nonlinear_arith)
                    requires
                        fp.bytes == 0,
                ;
            }
        }
        if let Some(pids) = limits.pids_max {
            if fp.threads > 0 {
                fits(pids as int / 5 * 4, fp.threads as int, n);
            } else {
                assert(n * fp.threads == 0) by (nonlinear_arith)
                    requires
                        fp.threads == 0,
                ;
            }
        }
    }
}

proof fn fits(limit: int, cost: int, n: int)
    requires
        limit >= 0,
        cost > 0,
        0 <= n <= limit / cost,
    ensures
        n * cost <= limit,
{
    let most = limit / cost;
    vstd::arithmetic::div_mod::lemma_fundamental_div_mod(limit, cost);
    vstd::arithmetic::div_mod::lemma_mod_bound(limit, cost);
    vstd::arithmetic::mul::lemma_mul_inequality(n, most, cost);
    vstd::arithmetic::mul::lemma_mul_is_commutative(most, cost);
}

/// More memory, more pids or more CPUs never lower the ceiling.
pub proof fn ceiling_grows_with_the_host(
    small: HostLimits,
    large: HostLimits,
    footprint: Option<SessionFootprint>,
)
    requires
        small.cpus <= large.cpus,
        small.mem_ceiling_bytes matches Some(a) ==> (large.mem_ceiling_bytes matches Some(b)
            ==> a <= b),
        small.mem_ceiling_bytes is None ==> large.mem_ceiling_bytes is None,
        small.pids_max matches Some(a) ==> (large.pids_max matches Some(b) ==> a <= b),
        small.pids_max is None ==> large.pids_max is None,
    ensures
        clamped(tightest(small, footprint).0) <= clamped(tightest(large, footprint).0),
{
    if let Some(fp) = footprint {
        if let (Some(a), Some(b)) = (small.mem_ceiling_bytes, large.mem_ceiling_bytes) {
            if fp.bytes > 0 {
                vstd::arithmetic::div_mod::lemma_div_is_ordered(
                    a as int / 5 * 4,
                    b as int / 5 * 4,
                    fp.bytes as int,
                );
            }
        }
        if let (Some(a), Some(b)) = (small.pids_max, large.pids_max) {
            if fp.threads > 0 {
                vstd::arithmetic::div_mod::lemma_div_is_ordered(
                    a as int / 5 * 4,
                    b as int / 5 * 4,
                    fp.threads as int,
                );
            }
        }
    }
}

/// What a cgroup limit file says: a number, or nothing for `max` and for
/// anything that is no number.
pub open spec fn limit_of(raw: Seq<char>) -> Option<nat> {
    text::number_of(text::trimmed(raw), u64::MAX as nat)
}

/// Reads a cgroup v2 limit file, `max` meaning unlimited.
pub fn parse_limit_file(raw: &str) -> (r: Option<u64>)
    ensures
        r is Some <==> limit_of(raw@) is Some,
        r matches Some(n) ==> limit_of(raw@) == Some(n as nat),
        text::trimmed(raw@) == "max"@ ==> r is None,
{
    let trimmed = text::trim(raw);
    proof {
        reveal_strlit("max");
        assert("max"@ == seq!['m', 'a', 'x']);
        if trimmed@ == "max"@ {
            assert(text::unsigned_part(trimmed@)[0] == 'm');
        }
    }
    if text::same(trimmed.as_str(), "max") {
        return None;
    }
    text::parse_number(trimmed.as_str(), u64::MAX)
}

/// The first of the lines that begins with `prefix`.
pub open spec fn line_with(lines: Seq<Seq<char>>, prefix: Seq<char>) -> Option<Seq<char>>
    decreases lines.len(),
{
    if lines.len() == 0 {
        None
    } else if text::has_prefix(lines[0], prefix) {
        Some(lines[0])
    } else {
        line_with(lines.skip(1), prefix)
    }
}

/// Total system memory in bytes, out of the text of `/proc/meminfo`: the
/// second word of the `MemTotal:` line, in units of 1024 bytes.
pub open spec fn meminfo_of(raw: Seq<char>) -> Option<nat> {
    match line_with(text::lines_of(raw), "MemTotal:"@) {
        None => None,
        Some(line) => {
            let words = text::words_of(line);
            if words.len() < 2 {
                None
            } else {
                match text::number_of(words[1], u64::MAX as nat) {
                    None => None,
                    Some(kb) => Some(
                        if kb * 1024 > u64::MAX {
                            u64::MAX as nat
                        } else {
                            kb * 1024
                        },
                    ),
                }
            }
        },
    }
}

/// Reads the total system memory out of the text of `/proc/meminfo`.
pub fn meminfo_total(raw: &str) -> (r: Option<u64>)
    ensures
        r is Some <==> meminfo_of(raw@) is Some,
        r matches Some(n) ==> meminfo_of(raw@) == Some(n as nat),
{
    let lines = text::lines(raw);
    let ghost all = text::views(lines@);
    let mut i: usize = 0;
    assert(all.skip(0) =~= all);
    while i < lines.len()
        invariant
            i <= lines@.len(),
            all == text::views(lines@),
            all == text::lines_of(raw@),
            line_with(all.skip(i as int), "MemTotal:"@) == line_with(all, "MemTotal:"@),
        decreases lines.len() - i,
    {
        assert(all.skip(i as int)[0] == lines@[i as int]@);
        assert(all.skip(i as int).skip(1) =~= all.skip(i + 1));
        if text::strip_prefix(lines[i].as_str(), "MemTotal:").is_some() {
            let words = text::words(lines[i].as_str());
            if words.len() < 2 {
                return None;
            }
            assert(text::views(words@)[1] == words@[1]@);
            return match text::parse_number(words[1].as_str(), u64::MAX) {
                None => None,
                Some(kb) => Some(
                    match kb.checked_mul(1024) {
                        Some(bytes) => bytes,
                        None => u64::MAX,
                    },
                ),
            };
        }
        i += 1;
    }
    None
}

/// What the host says about its limits.
#[derive(Debug)]
pub struct HostFacts {
    /// The platform.
    pub platform: Platform,
    /// The text of the cgroup's `memory.max`, if it is readable.
    pub memory_max: Option<String>,
    /// The text of `/proc/meminfo`, if it is readable.
    pub meminfo: Option<String>,
    /// The text of the cgroup's `pids.max`, if it is readable.
    pub pids_max: Option<String>,
    /// Total system memory in bytes, zero if it is not known.
    pub total_memory: u64,
    /// The parallelism available to the process, if it is known.
    pub parallelism: Option<usize>,
}

/// The memory ceiling: on Linux the cgroup's when it is finite, else the
/// system's; elsewhere total system memory.
pub open spec fn mem_ceiling_of(facts: HostFacts) -> Option<nat> {
    match facts.platform {
        Platform::Linux => {
            let own = match facts.memory_max {
                Some(raw) => limit_of(raw@),
                None => None,
            };
            match own {
                Some(n) => Some(n),
                None => match facts.meminfo {
                    Some(raw) => meminfo_of(raw@),
                    None => None,
                },
            }
        },
        Platform::MacOs => if facts.total_memory > 0 {
            Some(facts.total_memory as nat)
        } else {
            None
        },
    }
}

/// The ceiling on processes and threads: the cgroup's when it is finite, on
/// Linux only.
pub open spec fn pids_ceiling_of(facts: HostFacts) -> Option<nat> {
    match (facts.platform, facts.pids_max) {
        (Platform::Linux, Some(raw)) => limit_of(raw@),
        _ => None,
    }
}

/// Reads the host's ceilings. On Linux this prefers cgroup v2 files (treating
/// the `max` sentinel as unlimited) and falls back to `/proc/meminfo`;
/// elsewhere it uses total system memory.
pub fn probe_host(facts: &HostFacts) -> (r: HostLimits)
    ensures
        r.mem_ceiling_bytes is Some <==> mem_ceiling_of(*facts) is Some,
        r.mem_ceiling_bytes matches Some(n) ==> mem_ceiling_of(*facts) == Some(n as nat),
        r.pids_max is Some <==> pids_ceiling_of(*facts) is Some,
        r.pids_max matches Some(n) ==> pids_ceiling_of(*facts) == Some(n as nat),
        r.cpus == (match facts.parallelism {
            None => 1,
            Some(n) => if n > u32::MAX {
                u32::MAX
            } else {
                n as u32
            },
        }),
{
    let mem_ceiling_bytes = match facts.platform {
        Platform::Linux => {
            let own = match &facts.memory_max {
                Some(raw) => parse_limit_file(raw.as_str()),
                None => None,
            };
            match own {
                Some(n) => Some(n),
                None => match &facts.meminfo {
                    Some(raw) => meminfo_total(raw.as_str()),
                    None => None,
                },
            }
        },
        Platform::MacOs => if facts.total_memory > 0 {
            Some(facts.total_memory)
        } else {
            None
        },
    };
    let pids_max = match (facts.platform, &facts.pids_max) {
        (Platform::Linux, Some(raw)) => parse_limit_file(raw.as_str()),
        _ => None,
    };
    let cpus: u32 = match facts.parallelism {
        None => 1,
        Some(n) => if n > u32::MAX as usize {
            u32::MAX
        } else {
            n as u32
        },
    };
    HostLimits { mem_ceiling_bytes, pids_max, cpus }
}

} // verus!
