//! What is made of the host: its limits, its processes, its isolation, its
//! directories, and what the configuration says.

use crate::capacity::{HostFacts, HostLimits, SessionFootprint};
use crate::chrome::kill::TeardownReport;
use crate::chrome::launch::{Launch, LaunchError, LaunchEvent};
use crate::cli;
use crate::cli::{CheckActionView, CheckEvent, CheckPhase, HostReport, Launched};
use crate::config;
use crate::config::{EnvVar, RuntimeConfig, ServeSettings, Transport};
use crate::factory;
use crate::factory::{TemplateBuild, TemplateEvent};
use crate::linux::cgroup;
use crate::linux::probe;
use crate::linux::probe::{CgroupFacts, LeafProbe, ReflinkProbe};
use crate::linux::tiers::{KillTier, MemCapTier, ProfileTier, Tiers};
use crate::paths;
use crate::platform::Platform;
use crate::rss;
use crate::rss::ProcStat;
use crate::scalar::Scalar;
use crate::session_dirs;
use crate::session_dirs::{Retry, SessionDirs};
use crate::template;
use crate::text;
use vstd::prelude::*;

verus! {

/// The ceiling is the most that the host allows: with one session more, the
/// sessions would have more than two to a CPU, or use more than four fifths of
/// the memory or of the pids, or be more than 256.
pub proof fn ceiling_is_the_most_that_fits(limits: HostLimits, fp: SessionFootprint)
    ensures
        ({
            let n = crate::capacity::clamped(crate::capacity::tightest(limits, Some(fp)).0);
            let cpus = if limits.cpus == 0 {
                1int
            } else {
                limits.cpus as int
            };
            &&& 1 <= n <= 256
            &&& n == 1 || n <= 2 * cpus
            &&& n == 256 || n + 1 > 2 * cpus || (limits.mem_ceiling_bytes matches Some(mem) && (n
                + 1) * fp.bytes > mem as int / 5 * 4) || (limits.pids_max matches Some(pids) && (n
                + 1) * fp.threads > pids as int / 5 * 4)
        }),
{
    let n = crate::capacity::clamped(crate::capacity::tightest(limits, Some(fp)).0);
    if let Some(mem) = limits.mem_ceiling_bytes {
        if fp.bytes > 0 {
            one_more_is_too_many(mem as int / 5 * 4, fp.bytes as int, n + 1);
        }
    }
    if let Some(pids) = limits.pids_max {
        if fp.threads > 0 {
            one_more_is_too_many(pids as int / 5 * 4, fp.threads as int, n + 1);
        }
    }
}

proof fn one_more_is_too_many(limit: int, cost: int, n: int)
    requires
        limit >= 0,
        cost > 0,
    ensures
        n > limit / cost ==> n * cost > limit,
{
    let most = limit / cost;
    vstd::arithmetic::div_mod::lemma_fundamental_div_mod(limit, cost);
    vstd::arithmetic::div_mod::lemma_mod_bound(limit, cost);
    if n > most {
        vstd::arithmetic::mul::lemma_mul_inequality(most + 1, n, cost);
        assert((most + 1) * cost == cost * most + cost) by (nonlinear_arith);
    }
}

/// Without a measured browser the CPUs alone count: two sessions to each.
pub proof fn unmeasured_ceiling_is_by_cpu(limits: HostLimits)
    ensures
        limits.cpus > 0 ==> crate::capacity::tightest(limits, None) == (2 * limits.cpus as int, "cpu"@),
        limits.cpus == 0 ==> crate::capacity::tightest(limits, None) == (2int, "cpu"@),
{
}

/// The limit that is named is one that binds: its own share is the smallest.
pub proof fn named_limit_binds(limits: HostLimits, fp: SessionFootprint)
    ensures
        ({
            let (n, label) = crate::capacity::tightest(limits, Some(fp));
            &&& label == "cpu"@ || label == "memory"@ || label == "pids"@
            &&& label == "memory"@ ==> limits.mem_ceiling_bytes is Some && fp.bytes > 0 && n == (
            limits.mem_ceiling_bytes->0 as int / 5 * 4) / fp.bytes as int
            &&& label == "pids"@ ==> limits.pids_max is Some && fp.threads > 0 && n == (
            limits.pids_max->0 as int / 5 * 4) / fp.threads as int
            &&& label == "cpu"@ ==> n == 2 * (if limits.cpus == 0 {
                1int
            } else {
                limits.cpus as int
            })
        }),
{
    reveal_strlit("cpu");
    reveal_strlit("memory");
    reveal_strlit("pids");
    assert("cpu"@.len() == 3 && "memory"@.len() == 6 && "pids"@.len() == 4);
}

/// A limit file holds a number, with white space around it; anything else is no
/// limit.
pub proof fn limit_file_holds_a_number(n: nat, raw: Seq<char>)
    ensures
        n <= u64::MAX ==> crate::capacity::limit_of(text::decimal_of(n) + seq!['\n']) == Some(n),
        text::trimmed(raw) == "max"@ ==> crate::capacity::limit_of(raw) is None,
        crate::capacity::limit_of(raw) matches Some(v) ==> v <= u64::MAX,
{
    text::decimal_reads_back(n);
    let d = text::decimal_of(n);
    let none = Seq::<char>::empty();
    assert(text::is_digit(d[0]) && text::is_digit(d[d.len() - 1]));
    crate::laws::text::trimming_takes_the_ends(none, d, seq!['\n']);
    assert(none + d + seq!['\n'] =~= d + seq!['\n']);
    crate::laws::text::numbers_are_decimal(d, '0', n, u64::MAX as nat);
    if text::trimmed(raw) == "max"@ {
        reveal_strlit("max");
        assert(text::unsigned_part("max"@)[0] == 'm');
        assert(!text::is_digit('m'));
    }
}

/// The memory ceiling is the cgroup's own limit if it has one, else what the
/// system has; off Linux it is total memory, and there are no pids to count.
pub proof fn memory_ceiling_prefers_the_cgroup(facts: HostFacts, raw: String, own: nat)
    ensures
        facts.platform is Linux && facts.memory_max == Some(raw) && crate::capacity::limit_of(raw@)
            == Some(own) ==> crate::capacity::mem_ceiling_of(facts) == Some(own),
        facts.platform is Linux && facts.memory_max is None && facts.meminfo == Some(raw)
            ==> crate::capacity::mem_ceiling_of(facts) == crate::capacity::meminfo_of(raw@),
        facts.platform is Linux && facts.memory_max == Some(raw) && crate::capacity::limit_of(raw@) is None
            && facts.meminfo is None ==> crate::capacity::mem_ceiling_of(facts) is None,
        facts.platform is MacOs && facts.total_memory > 0 ==> crate::capacity::mem_ceiling_of(facts)
            == Some(facts.total_memory as nat),
        facts.platform is MacOs ==> crate::capacity::pids_ceiling_of(facts) is None,
        facts.platform is Linux && facts.pids_max == Some(raw) ==> crate::capacity::pids_ceiling_of(facts)
            == crate::capacity::limit_of(raw@),
{
}

/// Total memory is the number in the `MemTotal:` line, in units of 1024 bytes.
pub proof fn total_memory_is_in_kibibytes(kb: nat, rest: Seq<char>)
    requires
        kb * 1024 <= u64::MAX,
    ensures
        crate::capacity::meminfo_of("MemTotal: "@ + text::decimal_of(kb) + " kB"@ + seq!['\n'] + rest)
            == Some(kb * 1024),
{
    reveal_strlit("MemTotal: ");
    reveal_strlit("MemTotal:");
    reveal_strlit(" kB");
    text::decimal_reads_back(kb);
    let d = text::decimal_of(kb);
    let line = "MemTotal: "@ + d + " kB"@;
    assert(line.last() == 'B');
    assert(!line.contains('\n')) by {
        assert forall|i: int| 0 <= i < line.len() implies line[i] != '\n' by {
            if 10 <= i < 10 + d.len() {
                assert(line[i] == d[i - 10]);
                assert(text::is_digit(d[i - 10]));
            } else if i < 10 {
                assert(line[i] == "MemTotal: "@[i]);
            } else {
                assert(line[i] == " kB"@[i - 10 - d.len()]);
            }
        }
    }
    crate::laws::text::lines_end_at_line_feeds(line, rest);
    let raw = line + seq!['\n'] + rest;
    let all = text::lines_of(raw);
    assert(all[0] == line);
    let p = "MemTotal:"@;
    assert(line.take(p.len() as int) =~= p);
    assert(text::has_prefix(line, p));
    assert(crate::capacity::line_with(all, p) == Some(line));
    // The words of the line.
    let none = Seq::<char>::empty();
    assert forall|i: int| 0 <= i < p.len() implies !text::is_space(#[trigger] p[i]) by {}
    crate::laws::text::words_are_split_at_space(none, p, ' ', d + " kB"@);
    assert(none + p + seq![' '] + (d + " kB"@) =~= line);
    assert forall|i: int| 0 <= i < d.len() implies !text::is_space(#[trigger] d[i]) by {
        assert(text::is_digit(d[i]));
    }
    let unit = seq!['k', 'B'];
    crate::laws::text::words_are_split_at_space(none, d, ' ', unit);
    assert(none + d + seq![' '] + unit =~= d + " kB"@);
    assert(text::words_of(line) =~= seq![p] + (seq![d] + text::words_of(seq![' '] + unit)));
    assert(text::words_of(line)[1] == d);
    assert(text::words_of(line).len() >= 2);
    crate::laws::text::numbers_are_decimal(d, '0', kb, u64::MAX as nat);
}

/// A process tree is its root, and with a process every child of it; and
/// nothing else: who is in it has a chain of parents up to the root.
pub proof fn tree_is_root_and_descendants(procs: Seq<ProcStat>, root: i32, i: int, pid: i32)
    requires
        0 <= i < procs.len(),
    ensures
        rss::in_tree(procs, root, root),
        rss::in_tree(procs, root, procs[i].ppid) ==> rss::in_tree(procs, root, procs[i].pid),
        rss::in_tree(procs, root, pid) && pid != root ==> exists|k: int|
            0 <= k < procs.len() && (#[trigger] procs[k]).pid == pid && rss::in_tree(
                procs,
                root,
                procs[k].ppid,
            ),
{
    assert(rss::within(procs, root, root, 0));
    if rss::in_tree(procs, root, procs[i].ppid) {
        let n = choose|n: nat| rss::within(procs, root, procs[i].ppid, n);
        assert(rss::within(procs, root, procs[i].pid, n + 1));
    }
    if rss::in_tree(procs, root, pid) && pid != root {
        let n = choose|n: nat| rss::within(procs, root, pid, n);
        parent_is_within(procs, root, pid, n);
    }
}

proof fn parent_is_within(procs: Seq<ProcStat>, root: i32, pid: i32, n: nat)
    requires
        rss::within(procs, root, pid, n),
        pid != root,
    ensures
        exists|k: int|
            0 <= k < procs.len() && (#[trigger] procs[k]).pid == pid && rss::in_tree(
                procs,
                root,
                procs[k].ppid,
            ),
    decreases n,
{
    if rss::within(procs, root, pid, (n - 1) as nat) {
        parent_is_within(procs, root, pid, (n - 1) as nat);
    } else {
        let k = choose|k: int|
            0 <= k < procs.len() && (#[trigger] procs[k]).pid == pid && rss::within(
                procs,
                root,
                procs[k].ppid,
                (n - 1) as nat,
            );
        assert(rss::in_tree(procs, root, procs[k].ppid));
    }
}

/// The weight of a tree is that of its processes, each counted once; a process
/// outside it does not count.
pub proof fn tree_weighs_what_its_processes_weigh(
    procs: Seq<ProcStat>,
    root: i32,
    page_size: u64,
    k: nat,
)
    requires
        k < procs.len(),
    ensures
        ({
            let p = procs[k as int];
            let counts = rss::in_tree(procs, root, p.pid) && forall|j: int|
                k < j < procs.len() ==> (#[trigger] procs[j]).pid != p.pid;
            let bytes = rss::rss_weight(page_size);
            let threads = rss::thread_weight();
            &&& rss::tree_sum(procs, root, bytes, 0) == 0
            &&& counts ==> rss::tree_sum(procs, root, threads, k + 1) == rss::tree_sum(
                procs,
                root,
                threads,
                k,
            ) + p.threads
            &&& counts && p.rss_pages * page_size <= u64::MAX ==> rss::tree_sum(
                procs,
                root,
                bytes,
                k + 1,
            ) == rss::tree_sum(procs, root, bytes, k) + p.rss_pages * page_size
            &&& !counts ==> rss::tree_sum(procs, root, bytes, k + 1) == rss::tree_sum(
                procs,
                root,
                bytes,
                k,
            ) && rss::tree_sum(procs, root, threads, k + 1) == rss::tree_sum(
                procs,
                root,
                threads,
                k,
            )
        }),
        forall|n: nat| n <= u64::MAX ==> #[trigger] rss::capped(n) == n,
        forall|n: nat| n > u64::MAX ==> #[trigger] rss::capped(n) == u64::MAX,
        rss::listed(procs, procs[k as int].pid),
{
    assert(rss::is_latest(procs, k as int) <==> forall|j: int|
        k < j < procs.len() ==> (#[trigger] procs[j]).pid != procs[k as int].pid);
}

/// The own cgroup is the path of the line for the unified hierarchy, below the
/// cgroup root.
pub proof fn own_cgroup_is_below_the_root(path: Seq<char>, rest: Seq<char>)
    requires
        path.len() > 0,
        !path.contains('\n'),
        !paths::is_absolute(path),
        !text::is_space(path.last()),
        path.last() != '\r',
    ensures
        cgroup::own_dir_of("0::/"@ + path + seq!['\n'] + rest) == Some("/sys/fs/cgroup/"@ + path),
{
    reveal_strlit("0::/");
    reveal_strlit("0::");
    reveal_strlit("/");
    reveal_strlit("/sys/fs/cgroup");
    reveal_strlit("/sys/fs/cgroup/");
    let line = "0::/"@ + path;
    assert(line.last() == path.last());
    assert(!line.contains('\n')) by {
        assert forall|i: int| 0 <= i < line.len() implies line[i] != '\n' by {
            if i >= 4 {
                assert(line[i] == path[i - 4]);
                if path[i - 4] == '\n' {
                    assert(path.contains('\n'));
                }
            } else {
                assert(line[i] == "0::/"@[i]);
            }
        }
    }
    crate::laws::text::lines_end_at_line_feeds(line, rest);
    let all = text::lines_of(line + seq!['\n'] + rest);
    assert(all[0] == line);
    let p = "0::"@;
    let rel = seq!['/'] + path;
    assert(line =~= p + rel);
    crate::laws::text::prefix_and_rest_make_the_text(p, rel, line);
    assert(cgroup::first_stripped(all, p) == Some(rel));
    let none = Seq::<char>::empty();
    assert(rel.last() == path.last());
    crate::laws::text::trimming_takes_the_ends(none, rel, none);
    assert(none + rel + none =~= rel);
    assert("/"@ =~= seq!['/']);
    crate::laws::text::prefix_and_rest_make_the_text("/"@, path, rel);
    assert("/sys/fs/cgroup"@.last() == 'p');
    assert("/sys/fs/cgroup"@ + "/"@ + path =~= "/sys/fs/cgroup/"@ + path);
}

/// A delegated base is used as it is; without one the own cgroup is, if it has
/// the memory controller.
pub proof fn delegated_base_is_preferred(facts: CgroupFacts, base: String, own: Seq<char>, c: String)
    ensures
        facts.delegated_base == Some(base) ==> probe::base_of(facts) == Ok::<Seq<char>, Seq<char>>(
            base@,
        ),
        facts.delegated_base is None && facts.own_cgroup is None ==> probe::base_of(facts) is Err,
        facts.delegated_base is None && facts.controllers is None ==> probe::base_of(facts) is Err,
        facts.delegated_base is None && (facts.own_cgroup matches Some(text) && cgroup::own_dir_of(
            text@,
        ) == Some(own)) && facts.controllers == Some(c) ==> (probe::base_of(facts) is Ok
            <==> text::words_of(c@).contains("memory"@)) && (probe::base_of(facts) matches Ok(dir)
            ==> dir == own),
{
}

/// A hard memory cap is in effect exactly if there is a base, its leaf takes a
/// limit and a process could be moved into it; the whole subtree is killed at
/// once exactly if the leaf can do that too. Otherwise memory is polled and the
/// process group is killed.
pub proof fn isolation_is_what_was_shown(facts: CgroupFacts)
    ensures
        ({
            let (cap, kill, _) = probe::cgroup_of(facts);
            let shown = probe::base_of(facts) is Ok && (facts.leaf matches LeafProbe::Created {
                writable,
                migrated,
                ..
            } && writable && migrated);
            &&& shown <==> cap == MemCapTier::Cgroup
            &&& !shown ==> cap == MemCapTier::RssPoll && kill == KillTier::Killpg
            &&& shown && (facts.leaf matches LeafProbe::Created { can_kill, .. } && can_kill)
                <==> kill == KillTier::CgroupKill
        }),
        probe::profile_of(ReflinkProbe::Supported).0 == ProfileTier::Reflink,
        probe::profile_of(ReflinkProbe::Unsupported).0 == ProfileTier::PlainCopy,
        forall|p: ReflinkProbe|
            !(p is Supported) ==> #[trigger] probe::profile_of(p).0 == ProfileTier::PlainCopy,
{
}

/// Each tier has its name.
pub proof fn tiers_have_their_names(t: Tiers)
    ensures
        KillTier::CgroupKill.keyed() == "cgroup-kill"@ && KillTier::Killpg.keyed() == "killpg"@,
        MemCapTier::Cgroup.keyed() == "cgroup"@ && MemCapTier::RssPoll.keyed() == "rss-poll"@
            && MemCapTier::Uncapped.keyed() == "none"@,
        ProfileTier::Overlay.keyed() == "overlay"@ && ProfileTier::Reflink.keyed() == "reflink"@
            && ProfileTier::TmpfsCopy.keyed() == "tmpfs-copy"@ && ProfileTier::PlainCopy.keyed()
            == "plain-copy"@,
        KillTier::CgroupKill.named() == "CgroupKill"@ && KillTier::Killpg.named() == "Killpg"@,
        MemCapTier::Cgroup.named() == "Cgroup"@ && MemCapTier::RssPoll.named() == "RssPoll"@
            && MemCapTier::Uncapped.named() == "None"@,
        ProfileTier::Overlay.named() == "Overlay"@ && ProfileTier::Reflink.named() == "Reflink"@
            && ProfileTier::TmpfsCopy.named() == "TmpfsCopy"@ && ProfileTier::PlainCopy.named()
            == "PlainCopy"@,
        t.summarized() == "kill="@ + t.kill.named() + " memcap="@ + t.memcap.named() + " profile="@
            + t.profile.named(),
{
}

/// A browser build's key is its product, character by character: a slash
/// becomes a hyphen, a letter small, what fits no directory name goes.
pub proof fn build_key_is_the_product(product: Seq<char>, c: char)
    ensures
        factory::cleaned(Seq::empty()).len() == 0,
        c == '/' ==> factory::cleaned(product.push(c)) == factory::cleaned(product).push('-'),
        ('0' <= c <= '9') || ('a' <= c <= 'z') || c == '.' || c == '-' ==> factory::cleaned(
            product.push(c),
        ) == factory::cleaned(product).push(c),
        'A' <= c <= 'Z' ==> factory::cleaned(product.push(c)).len() == factory::cleaned(
            product,
        ).len() + 1 && factory::cleaned(product.push(c)).last() as u32 == c as u32 + 32,
        c == ' ' || c == '_' || c == '(' || c as u32 > 0x7f ==> factory::cleaned(product.push(c))
            == factory::cleaned(product),
        factory::cleaned(product).len() > 0 ==> factory::key_of(product) == factory::cleaned(
            product,
        ),
        factory::cleaned(product).len() == 0 ==> factory::key_of(product) == "chrome-unknown"@,
{
    assert(product.push(c).drop_last() =~= product);
}

/// A memory cap in mebibytes is that many times 1048576 bytes.
pub proof fn memory_cap_is_in_mebibytes(mb: u64)
    ensures
        mb * 1_048_576 <= u64::MAX ==> factory::mebibytes(mb) == mb * 1_048_576,
        mb * 1_048_576 > u64::MAX ==> factory::mebibytes(mb) == u64::MAX,
{
}

/// A measurement shows what was read, and nothing if nothing was.
pub proof fn footprint_is_what_was_measured(rss: Option<u64>, threads: Option<u64>)
    ensures
        factory::footprint_of(rss, threads) matches Some(f) ==> (rss matches Some(n) ==> f.bytes
            == n) && (threads matches Some(n) ==> f.threads == n) && (rss is None ==> f.bytes == 0)
            && (threads is None ==> f.threads == 0),
        factory::footprint_of(rss, threads) is None <==> (rss is None || rss == Some(0u64)) && (
        threads is None || threads == Some(0u64)),
{
}

/// A failed launch is told with what went wrong, and with help if there is any.
pub proof fn launch_failure_is_told(e: LaunchError)
    ensures
        e.hint() is None ==> factory::failure_of(e) == e.says() && cli::launch_report(e)
            == "launch failed: "@ + e.says(),
        e.hint() matches Some(hint) ==> factory::failure_of(e) == e.says() + "\nhint: "@ + hint
            && cli::launch_report(e) == "launch failed: "@ + e.says() + "\n\nhint: "@ + hint,
{
}

/// A try that succeeded is the last; a failed one is followed by another, after
/// a tenth of a second more each time, until the tries are used up.
pub proof fn tries_end(attempts: u32, attempt: u32)
    ensures
        session_dirs::retry_of(attempts, attempt, true) == Retry::Done,
        attempt >= attempts ==> session_dirs::retry_of(attempts, attempt, false) == Retry::GiveUp,
        attempt < attempts ==> (session_dirs::retry_of(attempts, attempt, false) matches
            Retry::Sleep(ms) && ms == 100 * attempt),
        session_dirs::TEARDOWN_ATTEMPTS == 5,
        cgroup::REMOVE_ATTEMPTS == 4,
{
}

/// A sweep counts the trees that were removed, and no others.
pub proof fn sweep_counts_what_is_gone(flags: Seq<bool>, last: bool)
    ensures
        session_dirs::set_count(Seq::empty()) == 0,
        session_dirs::set_count(flags.push(true)) == session_dirs::set_count(flags) + 1,
        session_dirs::set_count(flags.push(false)) == session_dirs::set_count(flags),
{
    assert(flags.push(true).drop_last() =~= flags);
    assert(flags.push(false).drop_last() =~= flags);
}

/// A session's directories are below the session directory, under its id.
pub proof fn session_lives_under_its_id(dirs: SessionDirs, data_dir: Seq<char>, id: Seq<char>)
    requires
        dirs.belong_to(data_dir, id),
        data_dir.len() > 0,
        data_dir.last() != '/',
        id.len() > 0,
        id[0] != '/',
        id.last() != '/',
    ensures
        dirs.root@ == data_dir + "/sessions/"@ + id,
        dirs.user_data_dir@ == data_dir + "/sessions/"@ + id + "/user-data-dir"@,
{
    reveal_strlit("/");
    reveal_strlit("sessions");
    reveal_strlit("/sessions/");
    reveal_strlit("user-data-dir");
    reveal_strlit("/user-data-dir");
    let base = session_dirs::sessions_in(data_dir);
    assert(base =~= data_dir + "/"@ + "sessions"@);
    assert(base.last() == 's');
    assert(dirs.root@ =~= data_dir + "/sessions/"@ + id);
    assert(dirs.root@.last() == id.last());
    assert(dirs.user_data_dir@ =~= data_dir + "/sessions/"@ + id + "/user-data-dir"@);
}

/// What is stripped of a profile: the three singleton markers at the top, and
/// each piece of build state at the top and in the default profile.
pub proof fn stripping_takes_the_instance_state(profile: Seq<char>)
    requires
        profile.len() > 0,
        profile.last() != '/',
    ensures
        ({
            let s = template::stripped(profile);
            &&& s.len() == 11
            &&& s.contains(profile + "/SingletonLock"@) && s.contains(profile + "/SingletonSocket"@)
                && s.contains(profile + "/SingletonCookie"@)
            &&& s.contains(profile + "/RunningChromeVersion"@) && s.contains(
                profile + "/Default/RunningChromeVersion"@,
            )
            &&& s.contains(profile + "/GPUCache"@) && s.contains(profile + "/Default/GPUCache"@)
            &&& s.contains(profile + "/ShaderCache"@) && s.contains(
                profile + "/Default/ShaderCache"@,
            )
            &&& s.contains(profile + "/GrShaderCache"@) && s.contains(
                profile + "/Default/GrShaderCache"@,
            )
        }),
{
    reveal_strlit("/");
    reveal_strlit("Default");
    reveal_strlit("SingletonLock");
    reveal_strlit("SingletonSocket");
    reveal_strlit("SingletonCookie");
    reveal_strlit("RunningChromeVersion");
    reveal_strlit("GPUCache");
    reveal_strlit("ShaderCache");
    reveal_strlit("GrShaderCache");
    reveal_strlit("/SingletonLock");
    reveal_strlit("/SingletonSocket");
    reveal_strlit("/SingletonCookie");
    reveal_strlit("/RunningChromeVersion");
    reveal_strlit("/GPUCache");
    reveal_strlit("/ShaderCache");
    reveal_strlit("/GrShaderCache");
    reveal_strlit("/Default/RunningChromeVersion");
    reveal_strlit("/Default/GPUCache");
    reveal_strlit("/Default/ShaderCache");
    reveal_strlit("/Default/GrShaderCache");
    let s = template::stripped(profile);
    let d = paths::join_of(profile, "Default"@);
    assert(d =~= profile + "/"@ + "Default"@);
    assert(d.last() == 't');
    assert(s[0] =~= profile + "/SingletonLock"@);
    assert(s[1] =~= profile + "/SingletonSocket"@);
    assert(s[2] =~= profile + "/SingletonCookie"@);
    assert(s[3] =~= profile + "/Default/RunningChromeVersion"@);
    assert(s[4] =~= profile + "/RunningChromeVersion"@);
    assert(s[5] =~= profile + "/Default/GPUCache"@);
    assert(s[6] =~= profile + "/GPUCache"@);
    assert(s[7] =~= profile + "/Default/ShaderCache"@);
    assert(s[8] =~= profile + "/ShaderCache"@);
    assert(s[9] =~= profile + "/Default/GrShaderCache"@);
    assert(s[10] =~= profile + "/GrShaderCache"@);
}

/// A joined path is the base, one separator and the name; an absolute path
/// stands alone.
pub proof fn joined_path_has_one_separator(base: Seq<char>, name: Seq<char>)
    ensures
        base.len() > 0 && base.last() != '/' && !(name.len() > 0 && name[0] == '/')
            ==> paths::join_of(base, name) == base + seq!['/'] + name,
        base.len() > 0 && base.last() == '/' && !(name.len() > 0 && name[0] == '/')
            ==> paths::join_of(base, name) == base + name,
        name.len() > 0 && name[0] == '/' ==> paths::join_of(base, name) == name,
        base.len() == 0 ==> paths::join_of(base, name) == name,
{
    reveal_strlit("/");
    assert("/"@ =~= seq!['/']);
}

/// The environment's variable is the first of its name.
pub proof fn variable_is_the_first_of_its_name(env: Seq<EnvVar>, k: int, name: Seq<char>)
    requires
        0 <= k <= env.len(),
        forall|j: int| 0 <= j < k ==> (#[trigger] env[j]).name@ != name,
        k < env.len() ==> env[k].name@ == name,
    ensures
        config::env_of(env, name) == (if k < env.len() {
            Some(env[k].value)
        } else {
            None
        }),
    decreases k,
{
    if k > 0 {
        let rest = env.skip(1);
        assert(env[0].name@ != name);
        assert forall|j: int| 0 <= j < k - 1 implies (#[trigger] rest[j]).name@ != name by {
            assert(rest[j] == env[j + 1]);
        }
        if k < env.len() {
            assert(rest[k - 1] == env[k]);
        }
        variable_is_the_first_of_its_name(rest, k - 1, name);
    }
}

/// The environment wins over the file, variable by variable, and changes
/// nothing else.
pub proof fn environment_wins(config: RuntimeConfig, env: Seq<EnvVar>, value: String, n: nat)
    requires
        config::min_ready_of(config, env) is Some,
    ensures
        ({
            let c = config::overridden(config, env);
            &&& config::env_of(env, "BROWSERSERVE_CHROME_PATH"@) == Some(value)
                ==> c.chrome.executable_path == Some(value)
            &&& config::env_of(env, "BROWSERSERVE_CHROME_PATH"@) is None
                ==> c.chrome.executable_path == config.chrome.executable_path
            &&& config::env_of(env, "BROWSERSERVE_DATA_DIR"@) == Some(value) ==> c.data_dir == value
            &&& config::env_of(env, "BROWSERSERVE_DATA_DIR"@) is None ==> c.data_dir
                == config.data_dir
            &&& config::env_of(env, "BROWSERSERVE_MIN_READY"@) is None ==> c.pool.min_ready
                == config.pool.min_ready
            &&& config::env_of(env, "BROWSERSERVE_MIN_READY"@) == Some(value) ==> text::number_of(
                value@,
                u32::MAX as nat,
            ) == Some(c.pool.min_ready as nat)
            &&& c.pool.max_sessions == config.pool.max_sessions && c.pool.max_sessions_set
                == config.pool.max_sessions_set && c.pool.max_queue == config.pool.max_queue
                && c.pool.queue_timeout_ms == config.pool.queue_timeout_ms && c.pool.warm_idle_ms
                == config.pool.warm_idle_ms && c.pool.warm_max_age_ms
                == config.pool.warm_max_age_ms
            &&& c.session == config.session && c.pressure == config.pressure && c.drain_timeout_ms
                == config.drain_timeout_ms && c.external_address == config.external_address
            &&& c.chrome.transport == config.chrome.transport && c.chrome.no_sandbox
                == config.chrome.no_sandbox && c.chrome.extra_flags == config.chrome.extra_flags
                && c.chrome.launch_timeout_ms == config.chrome.launch_timeout_ms
                && c.chrome.max_frame_bytes == config.chrome.max_frame_bytes
        }),
        config::env_of(env, "PORT"@) is None ==> config::port_of(env) == Some(9222nat),
        config::env_of(env, "PORT"@) == Some(value) ==> config::port_of(env) == text::number_of(
            value@,
            65535,
        ),
{
    if let Some(v) = config::env_of(env, "BROWSERSERVE_MIN_READY"@) {
        crate::laws::text::numbers_are_decimal(v@, '0', 0, u32::MAX as nat);
    }
}

/// A configuration is in order exactly if there may be a session, thresholds
/// are percentages, a teardown has time, and a message may have a size.
pub proof fn configuration_is_in_order(c: RuntimeConfig)
    ensures
        ({
            let one = Scalar { bits: 0x3FF0_0000_0000_0000 };
            let hundred = Scalar { bits: 0x4059_0000_0000_0000 };
            let cpu = c.pressure.max_cpu_percent;
            let memory = c.pressure.max_memory_percent;
            config::fault_of(c) is None <==> c.pool.max_sessions > 0 && !cpu.is_nan()
                && !cpu.less(one) && !hundred.less(cpu) && !memory.is_nan() && !memory.less(one)
                && !hundred.less(memory) && c.session.kill_grace_ms > 0
                && c.chrome.max_frame_bytes > 0
        }),
{
}

/// What a configuration says where it says nothing.
pub proof fn defaults_are_documented(c: RuntimeConfig)
    requires
        config::is_default(c),
    ensures
        c.pool.min_ready == 1 && !c.pool.max_sessions_set && c.pool.max_queue == 10
            && c.pool.queue_timeout_ms == 30_000 && c.pool.warm_idle_ms == 300_000
            && c.pool.warm_max_age_ms == 3_600_000 && c.pool.max_sessions == 10,
        c.session.max_session_ms == 0 && c.session.memory_max_mb == 2048 && c.session.kill_grace_ms
            == 5_000 && c.session.tmpfs_size_mb == 512,
        c.chrome.executable_path is None && c.chrome.transport == Transport::Pipe
            && !c.chrome.no_sandbox && c.chrome.extra_flags@.len() == 0
            && c.chrome.launch_timeout_ms == 30_000 && c.chrome.max_frame_bytes == 256 * 1024 * 1024,
        c.pressure.max_cpu_percent.bits == 0x4057_C000_0000_0000
            && c.pressure.max_memory_percent.bits == 0x4057_C000_0000_0000,
        c.data_dir@ == ".browserserve"@ && c.drain_timeout_ms == 30_000 && c.external_address
            is None,
{
}

/// A text that is blank says nothing; any other says something.
pub proof fn blank_text_says_nothing(s: Seq<char>, i: int)
    ensures
        config::says_nothing(None),
        (forall|k: int| 0 <= k < s.len() ==> text::is_space(#[trigger] s[k]))
            ==> config::says_nothing(Some(s)),
{
    let none = Seq::<char>::empty();
    if forall|k: int| 0 <= k < s.len() ==> text::is_space(#[trigger] s[k]) {
        crate::laws::text::trimming_takes_the_ends(s, none, none);
        assert(s + none + none =~= s);
    }
}

/// The configuration file is the one that is named first: on the command line,
/// in the environment, or by being where one is looked for.
pub proof fn configuration_file_is_found_in_order(
    env: Seq<EnvVar>,
    path: Seq<char>,
    named: String,
    exists_here: bool,
)
    ensures
        config::file_of(env, Some(path), exists_here) == Some(path),
        config::env_of(env, "BROWSERSERVE_CONFIG"@) == Some(named) ==> config::file_of(
            env,
            None,
            exists_here,
        ) == Some(named@),
        config::env_of(env, "BROWSERSERVE_CONFIG"@) is None ==> config::file_of(env, None, true)
            == Some("browserserve.yml"@) && config::file_of(env, None, false) is None,
{
}

/// `doctor` passes a host exactly if it has a browser and a data directory that
/// can be written, and says so last.
pub proof fn doctor_passes_a_fit_host(host: HostReport)
    ensures
        cli::is_fit(host) <==> host.browser is Ok && host.writable is Ok,
        cli::is_fit(host) ==> cli::doctor_lines(host).last() == "doctor         PASS"@,
        !cli::is_fit(host) ==> cli::doctor_lines(host).last() == "doctor         FAIL"@,
{
}

/// What `doctor` says of the limits: each, with a warning where it is too low.
pub proof fn doctor_warns_of_low_limits(soft: u64, blocks: u64, size: u64)
    ensures
        cli::fd_lines(Some(soft))[0] == "fd limit       "@ + text::decimal_of(soft as nat),
        cli::fd_lines(Some(soft)).len() == (if soft < 4096 {
            2int
        } else {
            1int
        }),
        soft < 4096 ==> cli::fd_lines(Some(soft))[1]
            == "               warning: below 4096; each session holds several fds"@,
        cli::fd_lines(None) == seq!["fd limit       unknown"@],
        cli::shm_lines(Some((blocks, size)))[0] == "/dev/shm       "@ + (text::decimal_of(
            ((blocks * size) / 1_048_576) as nat,
        ) + " MiB available"@),
        cli::shm_lines(Some((blocks, size))).len() == (if (blocks * size) / 1_048_576 < 512 {
            2int
        } else {
            1int
        }),
        (blocks * size) / 1_048_576 < 512 ==> cli::shm_lines(Some((blocks, size)))[1]
            == "               warning: run the container with --shm-size=1g or larger"@,
        cli::shm_lines(None) == seq!["/dev/shm       unknown"@],
{
}

/// What `doctor` says of a browser and of the data directory.
pub proof fn doctor_tells_what_it_found(host: HostReport, path: String, e: String, dir: Seq<char>)
    ensures
        host.browser == Ok::<String, crate::chrome::find::FindError>(path) ==> cli::browser_lines(
            host,
        )[0] == "browser        "@ + path@ && cli::browser_lines(host).len() == 2,
        host.browser is Ok && (host.version matches Some(v)) ==> cli::browser_lines(host)[1]
            == "version        "@ + text::trimmed(host.version->0@),
        host.browser is Ok && host.version is None ==> cli::browser_lines(host)[1]
            == "version        could not run --version"@,
        host.browser is Err ==> cli::browser_lines(host) == seq![
            "browser        MISSING: "@ + host.browser->Err_0.says(),
        ],
        cli::data_dir_lines(dir, Ok(())) == seq!["data dir       "@ + (dir + " writable"@)],
        cli::data_dir_lines(dir, Err(e)) == seq![
            "data dir       "@ + (dir + " NOT writable: "@ + e@),
        ],
        host.platform is MacOs ==> cli::platform_lines(host) == seq![
            "platform       macOS: development only; production is the Linux image"@,
        ],
        host.platform is Linux ==> cli::platform_lines(host) == cli::shm_lines(host.shm),
        cli::tier_lines(host.tiers).len() == 1 + host.tiers.notes@.len(),
        cli::tier_lines(host.tiers)[0] == "isolation      "@ + host.tiers.summarized(),
        forall|i: int|
            0 <= i < host.tiers.notes@.len() ==> cli::tier_lines(host.tiers)[i + 1]
                == "               "@ + (#[trigger] host.tiers.notes@[i])@,
{
    assert forall|i: int| 0 <= i < host.tiers.notes@.len() implies cli::tier_lines(
        host.tiers,
    )[i + 1] == "               "@ + (#[trigger] host.tiers.notes@[i])@ by {
        assert(text::views(host.tiers.notes@)[i] == host.tiers.notes@[i]@);
    }
}

/// A check finds a browser, makes a directory for it, launches it, tears it
/// down and removes the directory, in this order; what fails ends it, and a
/// launch that failed is cleaned up after. It passes exactly if the browser was
/// reaped.
pub proof fn check_runs_one_browser(
    path: String,
    dir: String,
    e: String,
    b: Launched,
    failure: LaunchError,
    reaped: bool,
)
    ensures
        cli::check_next(CheckPhase::Finding, CheckEvent::BrowserFound(Ok(path))) matches Some(
            (lines, CheckActionView::Provision, CheckPhase::Provisioning),
        ) && lines == seq!["executable     "@ + path@],
        cli::check_next(CheckPhase::Provisioning, CheckEvent::Provisioned(Ok(dir))) matches Some(
            (lines, CheckActionView::Launch, CheckPhase::Launching),
        ) && lines == seq!["user data dir  "@ + dir@],
        cli::check_next(CheckPhase::Provisioning, CheckEvent::Provisioned(Err(e))) matches Some(
            (_, CheckActionView::Fail(m), CheckPhase::Over),
        ) && m == "provision session dir: "@ + e@,
        cli::check_next(CheckPhase::Launching, CheckEvent::Launched(Ok(b))) matches Some(
            (lines, CheckActionView::TearDown, CheckPhase::TearingDown),
        ) && lines.len() == 4 && lines[0] == "pid            "@ + text::signed_decimal_of(
            b.pid as int,
        ) && lines[1] == "product        "@ + b.version.product@ && lines[2] == "protocol       "@
            + b.version.protocol_version@,
        cli::check_next(CheckPhase::Launching, CheckEvent::Launched(Err(failure))) matches Some(
            (_, CheckActionView::RemoveAndFail(m), CheckPhase::Over),
        ) && m == cli::launch_report(failure),
        cli::check_next(CheckPhase::Removing(reaped), CheckEvent::Removed(Ok(()))) matches Some(
            (lines, CheckActionView::Finish(passed), CheckPhase::Over),
        ) && passed == reaped && lines.len() == 2 && lines[0] == "session dir    removed"@
            && lines[1] == (if reaped {
            "check          PASS"@
        } else {
            "check          FAIL: browser was not reaped"@
        }),
        cli::check_next(CheckPhase::Removing(reaped), CheckEvent::Removed(Err(e))) matches Some(
            (_, CheckActionView::Fail(m), CheckPhase::Over),
        ) && m == "session dir teardown: "@ + e@,
{
}

/// A check that has torn its browser down says how that went and removes the
/// directory; nothing happens after the end.
pub proof fn check_tells_how_the_browser_ended(report: TeardownReport, event: CheckEvent)
    ensures
        cli::check_next(CheckPhase::TearingDown, CheckEvent::TornDown(report)) matches Some(
            (lines, CheckActionView::Remove, CheckPhase::Removing(reaped)),
        ) && reaped == report.reaped && lines == seq![
            "teardown       "@ + cli::teardown_report(report),
        ],
        cli::check_next(CheckPhase::Over, event) is None,
        cli::teardown_report(report) == "graceful="@ + (if report.graceful {
            "true"@
        } else {
            "false"@
        }) + " sigkill="@ + (if report.escalated_sigkill {
            "true"@
        } else {
            "false"@
        }) + " reaped="@ + (if report.reaped {
            "true"@
        } else {
            "false"@
        }) + " exit="@ + (match report.exit_status {
            Some(status) => status@,
            None => "unknown"@,
        }),
{
}

/// `doctor` speaks of the browser, the file limit, the data directory, the
/// platform and the isolation, in this order.
pub proof fn doctor_speaks_in_order(host: HostReport)
    ensures
        cli::doctor_lines(host).drop_last() == cli::browser_lines(host) + cli::fd_lines(
            host.fd_limit,
        ) + cli::data_dir_lines(host.data_dir@, host.writable) + cli::platform_lines(host)
            + cli::tier_lines(host.tiers),
{
    let all = cli::browser_lines(host) + cli::fd_lines(host.fd_limit) + cli::data_dir_lines(
        host.data_dir@,
        host.writable,
    ) + cli::platform_lines(host) + cli::tier_lines(host.tiers);
    assert(cli::doctor_lines(host).drop_last() =~= all);
}

/// A server listens at the host and the port of its settings.
pub proof fn server_listens_where_it_is_told(serve: ServeSettings)
    ensures
        crate::server::address_of(serve) == serve.host@ + seq![':'] + text::decimal_of(
            serve.port as nat,
        ),
{
    reveal_strlit(":");
    assert(":"@ =~= seq![':']);
}

/// A template is made by one step after another: each waits for its own
/// outcome, and when it is done for none.
pub proof fn template_steps_wait_for_their_outcome(build: TemplateBuild, event: TemplateEvent)
    ensures
        build.expects(event) ==> match event {
            TemplateEvent::Scratch(_) => build.phase is Scratch,
            TemplateEvent::Launched(_) => build.phase is Launching,
            TemplateEvent::Closed => build.phase is Closing,
            TemplateEvent::Stripped(_) => build.phase is Stripping,
            TemplateEvent::Moved(_) => build.phase is Moving,
            TemplateEvent::Cleaned => build.phase is Cleaning,
        },
        event is Closed && build.phase is Closing || event is Cleaned && build.phase is Cleaning
            || event is Stripped && build.phase is Stripping || event is Moved
            && build.phase is Moving || event is Launched && build.phase is Launching || event is
            Scratch && build.phase is Scratch ==> build.expects(event),
{
}

/// A launch waits for its pipes, their mapping, the process and the connection,
/// one after another; then for an answer, a failure, an exit or the timeout;
/// and when it is aborted for the end of the browser.
pub proof fn launch_steps_wait_for_their_outcome(launch: Launch, event: LaunchEvent)
    ensures
        launch.expects(event) <==> match event {
            LaunchEvent::Pipes(_) => launch.phase is Pipes,
            LaunchEvent::Mapped(_) => launch.phase is Mapping,
            LaunchEvent::Spawned(_) => launch.phase is Spawning,
            LaunchEvent::Wired(_) => launch.phase is Wiring,
            LaunchEvent::Message(_) => launch.phase is Probing,
            LaunchEvent::PipeFailed(_) => launch.phase is Probing,
            LaunchEvent::Exited(_) => launch.phase is Probing,
            LaunchEvent::TimedOut => launch.phase is Probing,
            LaunchEvent::Aborted => launch.phase is Aborting,
        },
{
}

/// A line is found by how it begins: it is the first such line, wherever it
/// stands.
pub proof fn line_is_the_first_that_begins_so(
    lines: Seq<Seq<char>>,
    k: int,
    prefix: Seq<char>,
    rest: Seq<char>,
)
    requires
        0 <= k <= lines.len(),
        forall|j: int| 0 <= j < k ==> !text::has_prefix(#[trigger] lines[j], prefix),
        k < lines.len() ==> lines[k] == prefix + rest,
    ensures
        crate::capacity::line_with(lines, prefix) == (if k < lines.len() {
            Some(prefix + rest)
        } else {
            None
        }),
        cgroup::first_stripped(lines, prefix) == (if k < lines.len() {
            Some(rest)
        } else {
            None
        }),
    decreases k,
{
    crate::laws::text::prefix_and_rest_make_the_text(prefix, rest, prefix + rest);
    if k > 0 {
        let tail = lines.skip(1);
        assert(!text::has_prefix(lines[0], prefix));
        assert forall|j: int| 0 <= j < k - 1 implies !text::has_prefix(#[trigger] tail[j], prefix) by {
            assert(tail[j] == lines[j + 1]);
        }
        if k < lines.len() {
            assert(tail[k - 1] == lines[k]);
        }
        line_is_the_first_that_begins_so(tail, k - 1, prefix, rest);
    }
}

/// Where two limits allow the same, the CPUs are named before the memory, and
/// the memory before the pids.
pub proof fn tie_names_the_earlier_limit(limits: HostLimits, fp: SessionFootprint)
    ensures
        ({
            let (n, label) = crate::capacity::tightest(limits, Some(fp));
            let cpu = 2 * (if limits.cpus == 0 {
                1int
            } else {
                limits.cpus as int
            });
            let memory = limits.mem_ceiling_bytes matches Some(mem) && fp.bytes > 0 && n == (
            mem as int / 5 * 4) / fp.bytes as int;
            &&& n == cpu ==> label == "cpu"@
            &&& n != cpu && memory ==> label == "memory"@
            &&& n != cpu && !memory ==> label == "pids"@
        }),
{
}

} // verus!
