//! Process-tree RSS sampling: the portable memory soft-cap that works
//! wherever cgroups do not.

use vstd::prelude::*;

verus! {

/// One line of the process table.
#[derive(Debug, Clone, Copy)]
pub struct ProcStat {
    /// The process.
    pub pid: i32,
    /// Its parent.
    pub ppid: i32,
    /// Its resident pages.
    pub rss_pages: u64,
    /// Its threads.
    pub threads: u64,
}

/// Whether `pid` is `root` or a descendant of it at most `n` generations down.
pub open spec fn within(procs: Seq<ProcStat>, root: i32, pid: i32, n: nat) -> bool
    decreases n,
{
    if n == 0 {
        pid == root
    } else {
        within(procs, root, pid, (n - 1) as nat) || exists|i: int|
            0 <= i < procs.len() && (#[trigger] procs[i]).pid == pid && within(
                procs,
                root,
                procs[i].ppid,
                (n - 1) as nat,
            )
    }
}

/// Whether `pid` is `root` or one of its descendants.
pub open spec fn in_tree(procs: Seq<ProcStat>, root: i32, pid: i32) -> bool {
    exists|n: nat| #[trigger] within(procs, root, pid, n)
}

/// Whether the table has a line for `pid`.
pub open spec fn listed(procs: Seq<ProcStat>, pid: i32) -> bool {
    exists|i: int| 0 <= i < procs.len() && (#[trigger] procs[i]).pid == pid
}

/// Whether no later line is about the same process as line `i`.
pub open spec fn is_latest(procs: Seq<ProcStat>, i: int) -> bool {
    forall|j: int| i < j < procs.len() ==> (#[trigger] procs[j]).pid != procs[i].pid
}

/// The weight of line `i`: that of its process if it is in the tree and this
/// is its latest line.
pub open spec fn line_weight(
    procs: Seq<ProcStat>,
    root: i32,
    weight: spec_fn(ProcStat) -> nat,
    i: int,
) -> nat {
    if in_tree(procs, root, procs[i].pid) && is_latest(procs, i) {
        weight(procs[i])
    } else {
        0
    }
}

/// The weight of the processes in the tree, over the first `k` lines.
pub open spec fn tree_sum(
    procs: Seq<ProcStat>,
    root: i32,
    weight: spec_fn(ProcStat) -> nat,
    k: nat,
) -> nat
    decreases k,
{
    if k == 0 {
        0
    } else {
        tree_sum(procs, root, weight, (k - 1) as nat) + line_weight(procs, root, weight, k - 1)
    }
}

/// `n`, at most `u64::MAX`.
pub open spec fn capped(n: nat) -> nat {
    if n > u64::MAX {
        u64::MAX as nat
    } else {
        n
    }
}

/// The resident bytes of one process.
pub open spec fn rss_weight(page_size: u64) -> spec_fn(ProcStat) -> nat {
    |p: ProcStat| capped((p.rss_pages * page_size) as nat)
}

/// The threads of one process.
pub open spec fn thread_weight() -> spec_fn(ProcStat) -> nat {
    |p: ProcStat| p.threads as nat
}

proof fn within_grows(procs: Seq<ProcStat>, root: i32, pid: i32, n: nat, m: nat)
    requires
        within(procs, root, pid, n),
        n <= m,
    ensures
        within(procs, root, pid, m),
    decreases m,
{
    if n < m {
        within_grows(procs, root, pid, n, (m - 1) as nat);
    }
}

proof fn child_in_tree(procs: Seq<ProcStat>, root: i32, i: int)
    requires
        0 <= i < procs.len(),
        in_tree(procs, root, procs[i].ppid),
    ensures
        in_tree(procs, root, procs[i].pid),
{
    let n = choose|n: nat| within(procs, root, procs[i].ppid, n);
    assert(within(procs, root, procs[i].pid, n + 1));
}

/// A set of lines that holds every line of the root, and with a line every
/// line of its process's children, holds every line of the tree.
proof fn closed_set_covers(procs: Seq<ProcStat>, root: i32, seen: Seq<bool>, pid: i32, n: nat)
    requires
        seen.len() == procs.len(),
        forall|i: int| 0 <= i < procs.len() && procs[i].pid == root ==> #[trigger] seen[i],
        forall|i: int, k: int|
            0 <= i < procs.len() && 0 <= k < procs.len() && #[trigger] seen[k]
                && (#[trigger] procs[i]).ppid == procs[k].pid ==> seen[i],
        forall|i: int, k: int|
            0 <= i < procs.len() && 0 <= k < procs.len() && #[trigger] seen[k]
                && (#[trigger] procs[i]).pid == procs[k].pid ==> seen[i],
        listed(procs, root),
        within(procs, root, pid, n),
    ensures
        forall|i: int| 0 <= i < procs.len() && procs[i].pid == pid ==> #[trigger] seen[i],
        listed(procs, pid),
    decreases n,
{
    if n > 0 && !within(procs, root, pid, (n - 1) as nat) {
        let i = choose|i: int|
            0 <= i < procs.len() && (#[trigger] procs[i]).pid == pid && within(
                procs,
                root,
                procs[i].ppid,
                (n - 1) as nat,
            );
        closed_set_covers(procs, root, seen, procs[i].ppid, (n - 1) as nat);
        let k = choose|k: int| 0 <= k < procs.len() && (#[trigger] procs[k]).pid == procs[i].ppid;
        assert(seen[k]);
        assert(seen[i]);
    } else if n > 0 {
        closed_set_covers(procs, root, seen, pid, (n - 1) as nat);
    }
}

spec fn unseen(seen: Seq<bool>) -> nat
    decreases seen.len(),
{
    if seen.len() == 0 {
        0
    } else {
        unseen(seen.drop_last()) + if seen.last() {
            0nat
        } else {
            1nat
        }
    }
}

proof fn unseen_drops(a: Seq<bool>, b: Seq<bool>, at: int)
    requires
        a.len() == b.len(),
        forall|i: int| 0 <= i < a.len() && a[i] ==> #[trigger] b[i],
    ensures
        unseen(b) <= unseen(a),
        0 <= at < a.len() && !a[at] && b[at] ==> unseen(b) < unseen(a),
    decreases a.len(),
{
    if a.len() > 0 {
        assert forall|i: int| 0 <= i < a.len() - 1 && a.drop_last()[i] implies #[trigger] b.drop_last()[i] by {
            assert(b[i]);
        }
        unseen_drops(a.drop_last(), b.drop_last(), at);
        assert(a[a.len() - 1] ==> b[a.len() - 1]);
    }
}

/// Marks every line about `pid`.
fn mark(procs: &Vec<ProcStat>, seen: &mut Vec<bool>, pid: i32)
    requires
        old(seen)@.len() == procs@.len(),
    ensures
        final(seen)@.len() == procs@.len(),
        forall|i: int|
            0 <= i < procs@.len() ==> #[trigger] final(seen)@[i] == (old(seen)@[i] || procs@[i].pid
                == pid),
{
    let mut i: usize = 0;
    while i < procs.len()
        invariant
            i <= procs@.len(),
            seen@.len() == procs@.len(),
            forall|k: int|
                0 <= k < i ==> #[trigger] seen@[k] == (old(seen)@[k] || procs@[k].pid == pid),
            forall|k: int| i <= k < procs@.len() ==> #[trigger] seen@[k] == old(seen)@[k],
        decreases procs.len() - i,
    {
        if procs[i].pid == pid {
            seen.set(i, true);
        }
        i += 1;
    }
}

/// Marks the lines about the processes in the tree of `root`.
fn tree_lines(procs: &Vec<ProcStat>, root: i32) -> (r: Option<Vec<bool>>)
    ensures
        r is Some <==> listed(procs@, root),
        r matches Some(seen) ==> seen@.len() == procs@.len() && (forall|i: int|
            0 <= i < procs@.len() ==> #[trigger] seen@[i] == in_tree(procs@, root, procs@[i].pid)),
{
    let mut seen: Vec<bool> = Vec::new();
    let mut found = false;
    let mut i: usize = 0;
    while i < procs.len()
        invariant
            i <= procs@.len(),
            seen@.len() == i,
            forall|k: int| 0 <= k < i ==> #[trigger] seen@[k] == (procs@[k].pid == root),
            found ==> listed(procs@, root),
            !found ==> forall|k: int| 0 <= k < i ==> (#[trigger] procs@[k]).pid != root,
        decreases procs.len() - i,
    {
        let is_root = procs[i].pid == root;
        if is_root {
            assert(procs@[i as int].pid == root);
            found = true;
        }
        seen.push(is_root);
        i += 1;
    }
    if !found {
        return None;
    }
    let mut stack: Vec<i32> = Vec::new();
    stack.push(root);
    assert(within(procs@, root, root, 0));
    assert(stack@[0] == root);
    while stack.len() > 0
        invariant
            seen@.len() == procs@.len(),
            listed(procs@, root),
            forall|k: int| 0 <= k < procs@.len() && procs@[k].pid == root ==> #[trigger] seen@[k],
            forall|k: int|
                0 <= k < procs@.len() && #[trigger] seen@[k] ==> in_tree(
                    procs@,
                    root,
                    procs@[k].pid,
                ),
            forall|k: int| 0 <= k < stack@.len() ==> in_tree(procs@, root, #[trigger] stack@[k]),
            forall|i: int, k: int|
                0 <= i < procs@.len() && 0 <= k < procs@.len() && #[trigger] seen@[k]
                    && (#[trigger] procs@[i]).pid == procs@[k].pid ==> seen@[i],
            forall|i: int, k: int|
                0 <= i < procs@.len() && 0 <= k < procs@.len() && #[trigger] seen@[k]
                    && (#[trigger] procs@[i]).ppid == procs@[k].pid ==> seen@[i]
                    || stack@.contains(procs@[k].pid),
        decreases unseen(seen@), stack.len(),
    {
        let ghost stack0 = stack@;
        let ghost seen0 = seen@;
        let pid: i32 = stack.pop().unwrap();
        let ghost rest = stack@;
        proof {
            assert(stack0.last() == pid);
            assert forall|x: i32| stack0.contains(x) && x != pid implies rest.contains(x) by {
                let k = choose|k: int| 0 <= k < stack0.len() && stack0[k] == x;
                assert(rest[k] == x);
            }
        }
        let mut i: usize = 0;
        while i < procs.len()
            invariant
                i <= procs@.len(),
                seen@.len() == procs@.len() == seen0.len(),
                in_tree(procs@, root, pid),
                forall|k: int| 0 <= k < seen0.len() && seen0[k] ==> #[trigger] seen@[k],
                forall|k: int|
                    0 <= k < procs@.len() && #[trigger] seen@[k] ==> in_tree(
                        procs@,
                        root,
                        procs@[k].pid,
                    ),
                forall|k: int|
                    0 <= k < stack@.len() ==> in_tree(procs@, root, #[trigger] stack@[k]),
                forall|i: int, k: int|
                    0 <= i < procs@.len() && 0 <= k < procs@.len() && #[trigger] seen@[k]
                        && (#[trigger] procs@[i]).pid == procs@[k].pid ==> seen@[i],
                forall|j: int|
                    0 <= j < i && (#[trigger] procs@[j]).ppid == pid ==> seen@[j],
                forall|x: i32| #[trigger] rest.contains(x) ==> stack@.contains(x),
                forall|k: int|
                    0 <= k < procs@.len() && #[trigger] seen@[k] && !seen0[k] ==> stack@.contains(
                        procs@[k].pid,
                    ),
                stack@.len() > rest.len() ==> exists|k: int|
                    0 <= k < seen0.len() && !seen0[k] && #[trigger] seen@[k],
                stack@.len() == rest.len() ==> seen@ == seen0,
                stack@.len() >= rest.len(),
            decreases procs.len() - i,
        {
            if procs[i].ppid == pid && !seen[i] {
                let child: i32 = procs[i].pid;
                let ghost seen1 = seen@;
                let ghost stack1 = stack@;
                proof {
                    child_in_tree(procs@, root, i as int);
                }
                mark(procs, &mut seen, child);
                stack.push(child);
                proof {
                    assert(stack@[stack1.len() as int] == child);
                    assert forall|x: i32| stack1.contains(x) implies stack@.contains(x) by {
                        let k = choose|k: int| 0 <= k < stack1.len() && stack1[k] == x;
                        assert(stack@[k] == x);
                    }
                    assert forall|x: i32| #[trigger] rest.contains(x) implies stack@.contains(x) by {
                        assert(stack1.contains(x));
                    }
                    assert(!seen1[i as int] && seen@[i as int]);
                    assert(!seen0[i as int]) by {
                        if seen0[i as int] {
                            assert(seen1[i as int]);
                        }
                    }
                    assert forall|k: int|
                        0 <= k < procs@.len() && #[trigger] seen@[k]
                            && !seen0[k] implies stack@.contains(procs@[k].pid) by {
                        if seen1[k] {
                            assert(stack1.contains(procs@[k].pid));
                        }
                    }
                    assert forall|a: int, k: int|
                        0 <= a < procs@.len() && 0 <= k < procs@.len() && #[trigger] seen@[k]
                            && (#[trigger] procs@[a]).pid == procs@[k].pid implies seen@[a] by {
                        if seen1[k] {
                            assert(seen1[a]);
                        }
                    }
                }
            }
            i += 1;
        }
        proof {
            if stack@.len() > rest.len() {
                let k = choose|k: int| 0 <= k < seen0.len() && !seen0[k] && #[trigger] seen@[k];
                unseen_drops(seen0, seen@, k);
            }
            assert forall|a: int, k: int|
                0 <= a < procs@.len() && 0 <= k < procs@.len() && #[trigger] seen@[k]
                    && (#[trigger] procs@[a]).ppid == procs@[k].pid implies seen@[a]
                || stack@.contains(procs@[k].pid) by {
                if procs@[k].pid == pid {
                    assert(seen@[a]);
                } else if seen0[k] {
                    if seen0[a] {
                        assert(seen@[a]);
                    } else {
                        assert(stack0.contains(procs@[k].pid));
                        assert(rest.contains(procs@[k].pid));
                    }
                }
            }
        }
    }
    proof {
        assert forall|a: int, k: int|
            0 <= a < procs@.len() && 0 <= k < procs@.len() && #[trigger] seen@[k]
                && (#[trigger] procs@[a]).ppid == procs@[k].pid implies seen@[a] by {
            assert(!stack@.contains(procs@[k].pid));
        }
        assert forall|k: int| 0 <= k < procs@.len() implies #[trigger] seen@[k] == in_tree(
            procs@,
            root,
            procs@[k].pid,
        ) by {
            if in_tree(procs@, root, procs@[k].pid) {
                let n = choose|n: nat| within(procs@, root, procs@[k].pid, n);
                closed_set_covers(procs@, root, seen@, procs@[k].pid, n);
            }
        }
    }
    Some(seen)
}

fn latest(procs: &Vec<ProcStat>, i: usize) -> (r: bool)
    requires
        i < procs@.len(),
    ensures
        r == is_latest(procs@, i as int),
{
    let n: usize = procs.len();
    let mut j: usize = i + 1;
    while j < n
        invariant
            n == procs@.len(),
            i < j <= n,
            forall|k: int| i < k < j ==> (#[trigger] procs@[k]).pid != procs@[i as int].pid,
        decreases n - j,
    {
        if procs[j].pid == procs[i].pid {
            return false;
        }
        j += 1;
    }
    true
}

/// Sums the resident set size (bytes) of a process and all its descendants,
/// saturating.
///
/// Returns `None` when the process is gone.
pub fn tree_rss_bytes(procs: &Vec<ProcStat>, page_size: u64, root_pid: i32) -> (r: Option<u64>)
    ensures
        r is Some <==> listed(procs@, root_pid),
        r matches Some(total) ==> total as nat == capped(
            tree_sum(procs@, root_pid, rss_weight(page_size), procs@.len()),
        ),
{
    let seen = match tree_lines(procs, root_pid) {
        Some(seen) => seen,
        None => {
            return None;
        },
    };
    let mut total: u64 = 0;
    let mut i: usize = 0;
    while i < procs.len()
        invariant
            i <= procs@.len(),
            seen@.len() == procs@.len(),
            forall|k: int|
                0 <= k < procs@.len() ==> #[trigger] seen@[k] == in_tree(
                    procs@,
                    root_pid,
                    procs@[k].pid,
                ),
            total as nat == capped(tree_sum(procs@, root_pid, rss_weight(page_size), i as nat)),
        decreases procs.len() - i,
    {
        if seen[i] && latest(procs, i) {
            let bytes: u64 = match procs[i].rss_pages.checked_mul(page_size) {
                Some(b) => b,
                None => u64::MAX,
            };
            total = total.saturating_add(bytes);
        }
        i += 1;
    }
    Some(total)
}

/// Counts the threads of a process and all its descendants, saturating.
///
/// Returns `None` when the process is gone.
pub fn tree_thread_count(procs: &Vec<ProcStat>, root_pid: i32) -> (r: Option<u64>)
    ensures
        r is Some <==> listed(procs@, root_pid),
        r matches Some(total) ==> total as nat == capped(
            tree_sum(procs@, root_pid, thread_weight(), procs@.len()),
        ),
{
    let seen = match tree_lines(procs, root_pid) {
        Some(seen) => seen,
        None => {
            return None;
        },
    };
    let mut total: u64 = 0;
    let mut i: usize = 0;
    while i < procs.len()
        invariant
            i <= procs@.len(),
            seen@.len() == procs@.len(),
            forall|k: int|
                0 <= k < procs@.len() ==> #[trigger] seen@[k] == in_tree(
                    procs@,
                    root_pid,
                    procs@[k].pid,
                ),
            total as nat == capped(tree_sum(procs@, root_pid, thread_weight(), i as nat)),
        decreases procs.len() - i,
    {
        if seen[i] && latest(procs, i) {
            total = total.saturating_add(procs[i].threads);
        }
        i += 1;
    }
    Some(total)
}

} // verus!
