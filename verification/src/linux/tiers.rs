//! The resolved isolation tiers, surfaced by `doctor` and `/ready`.

use vstd::prelude::*;

verus! {

/// How a session's process tree is killed.
#[derive(Debug, Clone, Copy, PartialEq, Eq, Structural)]
pub enum KillTier {
    /// `cgroup.kill`: atomic, forkbomb-safe whole-subtree SIGKILL (kernel >= 5.14).
    CgroupKill,
    /// `killpg` SIGTERM, grace, SIGKILL on the process group (universal fallback).
    Killpg,
}

/// How a session's memory is capped.
#[derive(Debug, Clone, Copy, PartialEq, Eq, Structural)]
pub enum MemCapTier {
    /// cgroup `memory.max`: a hard, kernel-enforced ceiling.
    Cgroup,
    /// RSS polling soft-cap: breach is detected and the session killed after the fact.
    RssPoll,
    /// `None` in texts: no memory cap in effect.
    Uncapped,
}

/// How a session's profile directory is provisioned.
#[derive(Debug, Clone, Copy, PartialEq, Eq, Structural)]
pub enum ProfileTier {
    /// Overlay of a sealed read-only template over a tmpfs upper.
    Overlay,
    /// Copy-on-write reflink clone of the sealed template (btrfs/xfs).
    Reflink,
    /// Plain copy of the sealed template into an existing tmpfs.
    TmpfsCopy,
    /// Plain recursive copy into the data directory (universal default).
    PlainCopy,
}

impl KillTier {
    /// The name that summaries use.
    pub open spec fn named(self) -> Seq<char> {
        match self {
            KillTier::CgroupKill => "CgroupKill"@,
            KillTier::Killpg => "Killpg"@,
        }
    }

    /// The name that summaries use.
    pub fn name(self) -> (r: &'static str)
        ensures
            r@ == self.named(),
    {
        match self {
            KillTier::CgroupKill => "CgroupKill",
            KillTier::Killpg => "Killpg",
        }
    }

    /// The name that the HTTP answers use.
    pub open spec fn keyed(self) -> Seq<char> {
        match self {
            KillTier::CgroupKill => "cgroup-kill"@,
            KillTier::Killpg => "killpg"@,
        }
    }

    /// The name that the HTTP answers use.
    pub fn key(self) -> (r: &'static str)
        ensures
            r@ == self.keyed(),
    {
        match self {
            KillTier::CgroupKill => "cgroup-kill",
            KillTier::Killpg => "killpg",
        }
    }
}

impl MemCapTier {
    /// The name that summaries use.
    pub open spec fn named(self) -> Seq<char> {
        match self {
            MemCapTier::Cgroup => "Cgroup"@,
            MemCapTier::RssPoll => "RssPoll"@,
            MemCapTier::Uncapped => "None"@,
        }
    }

    /// The name that summaries use.
    pub fn name(self) -> (r: &'static str)
        ensures
            r@ == self.named(),
    {
        match self {
            MemCapTier::Cgroup => "Cgroup",
            MemCapTier::RssPoll => "RssPoll",
            MemCapTier::Uncapped => "None",
        }
    }

    /// The name that the HTTP answers use.
    pub open spec fn keyed(self) -> Seq<char> {
        match self {
            MemCapTier::Cgroup => "cgroup"@,
            MemCapTier::RssPoll => "rss-poll"@,
            MemCapTier::Uncapped => "none"@,
        }
    }

    /// The name that the HTTP answers use.
    pub fn key(self) -> (r: &'static str)
        ensures
            r@ == self.keyed(),
    {
        match self {
            MemCapTier::Cgroup => "cgroup",
            MemCapTier::RssPoll => "rss-poll",
            MemCapTier::Uncapped => "none",
        }
    }
}

impl ProfileTier {
    /// The name that summaries use.
    pub open spec fn named(self) -> Seq<char> {
        match self {
            ProfileTier::Overlay => "Overlay"@,
            ProfileTier::Reflink => "Reflink"@,
            ProfileTier::TmpfsCopy => "TmpfsCopy"@,
            ProfileTier::PlainCopy => "PlainCopy"@,
        }
    }

    /// The name that summaries use.
    pub fn name(self) -> (r: &'static str)
        ensures
            r@ == self.named(),
    {
        match self {
            ProfileTier::Overlay => "Overlay",
            ProfileTier::Reflink => "Reflink",
            ProfileTier::TmpfsCopy => "TmpfsCopy",
            ProfileTier::PlainCopy => "PlainCopy",
        }
    }

    /// The name that the HTTP answers use.
    pub open spec fn keyed(self) -> Seq<char> {
        match self {
            ProfileTier::Overlay => "overlay"@,
            ProfileTier::Reflink => "reflink"@,
            ProfileTier::TmpfsCopy => "tmpfs-copy"@,
            ProfileTier::PlainCopy => "plain-copy"@,
        }
    }

    /// The name that the HTTP answers use.
    pub fn key(self) -> (r: &'static str)
        ensures
            r@ == self.keyed(),
    {
        match self {
            ProfileTier::Overlay => "overlay",
            ProfileTier::Reflink => "reflink",
            ProfileTier::TmpfsCopy => "tmpfs-copy",
            ProfileTier::PlainCopy => "plain-copy",
        }
    }
}

/// The resolved isolation tiers for this host.
#[derive(Debug, Clone)]
pub struct Tiers {
    /// Active kill mechanism.
    pub kill: KillTier,
    /// Active memory-cap mechanism.
    pub memcap: MemCapTier,
    /// Active profile-dir mechanism.
    pub profile: ProfileTier,
    /// Human-readable notes: why a tier resolved as it did, denial messages, etc.
    pub notes: Vec<String>,
}

impl Tiers {
    /// What the summary says.
    pub open spec fn summarized(self) -> Seq<char> {
        "kill="@ + self.kill.named() + " memcap="@ + self.memcap.named() + " profile="@
            + self.profile.named()
    }

    /// A one-line summary for logs and `doctor`.
    pub fn summary(&self) -> (r: String)
        ensures
            r@ == self.summarized(),
    {
        let mut s = "kill=".to_owned();
        s.append(self.kill.name());
        s.append(" memcap=");
        s.append(self.memcap.name());
        s.append(" profile=");
        s.append(self.profile.name());
        s
    }
}

} // verus!
