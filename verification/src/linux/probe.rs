//! Active capability probing: each operation is attempted and cleaned up, so
//! the reported tier reflects what actually works (catching LSM denials that
//! capability bits miss).

use crate::linux::cgroup;
use crate::linux::tiers::{KillTier, MemCapTier, ProfileTier, Tiers};
use crate::text;
use vstd::prelude::*;

verus! {

/// What the attempt to use a cgroup leaf showed.
#[derive(Debug)]
pub enum LeafProbe {
    /// The leaf could not be created.
    Failed(String),
    /// The leaf was created.
    Created {
        /// Its `memory.max` could be written.
        writable: bool,
        /// It has a `cgroup.kill`.
        can_kill: bool,
        /// A process could be moved into it.
        migrated: bool,
    },
}

/// What the host says about cgroups.
#[derive(Debug)]
pub struct CgroupFacts {
    /// A pre-delegated base that is a directory, if one is named.
    pub delegated_base: Option<String>,
    /// The text of `/proc/self/cgroup`, if it is readable.
    pub own_cgroup: Option<String>,
    /// The text of the own cgroup's `cgroup.controllers`, if it is readable.
    pub controllers: Option<String>,
    /// The attempt to use a leaf under the base.
    pub leaf: LeafProbe,
}

/// What the host says about copy-on-write clones in the data directory.
#[derive(Debug)]
pub enum ReflinkProbe {
    /// The data directory cannot be created.
    Uncreatable(String),
    /// They are supported.
    Supported,
    /// They are not supported, or it is not known whether they are.
    Unsupported,
    /// The probe failed.
    Failed(String),
}

/// The base under which leaves are created, or the note that says why there is
/// none: a pre-delegated one is preferred; otherwise the own cgroup, which must
/// have the memory controller.
pub open spec fn base_of(facts: CgroupFacts) -> Result<Seq<char>, Seq<char>> {
    match facts.delegated_base {
        Some(base) => Ok(base@),
        None => match facts.own_cgroup {
            None => Err("cgroup: /proc/self/cgroup unreadable; using killpg + rss-poll"@),
            Some(content) => match cgroup::own_dir_of(content@) {
                None => Err("cgroup: /proc/self/cgroup unreadable; using killpg + rss-poll"@),
                Some(dir) => if facts.controllers matches Some(c) && text::words_of(c@).contains(
                    "memory"@,
                ) {
                    Ok(dir)
                } else {
                    Err(
                        "cgroup: 'memory' not delegated in "@ + dir
                            + " (needs +memory in parent subtree_control); using rss-poll"@,
                    )
                },
            },
        },
    }
}

/// The base under which leaves are created, or the note that says why there is
/// none.
pub fn probe_base(facts: &CgroupFacts) -> (r: Result<String, String>)
    ensures
        match base_of(*facts) {
            Ok(base) => r matches Ok(b) && b@ == base,
            Err(note) => r matches Err(n) && n@ == note,
        },
{
    if let Some(base) = &facts.delegated_base {
        return Ok(base.clone());
    }
    let content = match &facts.own_cgroup {
        Some(c) => Some(c.as_str()),
        None => None,
    };
    let dir = match cgroup::own_cgroup_dir(content) {
        Some(dir) => dir,
        None => {
            return Err(
                "cgroup: /proc/self/cgroup unreadable; using killpg + rss-poll".to_owned(),
            );
        },
    };
    let listed = match &facts.controllers {
        Some(c) => Some(c.as_str()),
        None => None,
    };
    let controllers = cgroup::available_controllers(listed);
    if !text::list_has(&controllers, "memory") {
        let mut note = "cgroup: 'memory' not delegated in ".to_owned();
        note.append(dir.as_str());
        note.append(" (needs +memory in parent subtree_control); using rss-poll");
        return Err(note);
    }
    Ok(dir)
}

/// The memory cap, the kill mechanism and the note that follow from the
/// cgroup facts. A hard cap is only claimed when `memory.max` is writable and a
/// process was really migrated.
pub open spec fn cgroup_of(facts: CgroupFacts) -> (MemCapTier, KillTier, Seq<char>) {
    match base_of(facts) {
        Err(note) => (MemCapTier::RssPoll, KillTier::Killpg, note),
        Ok(_) => match facts.leaf {
            LeafProbe::Failed(e) => (
                MemCapTier::RssPoll,
                KillTier::Killpg,
                "cgroup: cannot create leaf ("@ + e@ + "); using killpg + rss-poll"@,
            ),
            LeafProbe::Created { writable, can_kill, migrated } => if writable && migrated {
                (
                    MemCapTier::Cgroup,
                    if can_kill {
                        KillTier::CgroupKill
                    } else {
                        KillTier::Killpg
                    },
                    "cgroup: memory.max writable and process migration works; hard cap active"@,
                )
            } else if writable {
                (
                    MemCapTier::RssPoll,
                    KillTier::Killpg,
                    "cgroup: memory.max writable but process migration denied (delegation boundary); using rss-poll"@,
                )
            } else {
                (
                    MemCapTier::RssPoll,
                    KillTier::Killpg,
                    "cgroup: leaf created but memory.max not writable; using rss-poll"@,
                )
            },
        },
    }
}

/// Resolves the memory cap and the kill mechanism.
pub fn probe_cgroup(facts: &CgroupFacts, notes: &mut Vec<String>) -> (r: (MemCapTier, KillTier))
    ensures
        (r.0, r.1) == (cgroup_of(*facts).0, cgroup_of(*facts).1),
        text::views(final(notes)@) == text::views(old(notes)@).push(cgroup_of(*facts).2),
{
    let ghost before = text::views(notes@);
    if let Err(note) = probe_base(facts) {
        notes.push(note);
        assert(text::views(notes@) =~= before.push(note@));
        return (MemCapTier::RssPoll, KillTier::Killpg);
    }
    match &facts.leaf {
        LeafProbe::Failed(e) => {
            let mut note = "cgroup: cannot create leaf (".to_owned();
            note.append(e.as_str());
            note.append("); using killpg + rss-poll");
            notes.push(note);
            assert(text::views(notes@) =~= before.push(note@));
            (MemCapTier::RssPoll, KillTier::Killpg)
        },
        LeafProbe::Created { writable, can_kill, migrated } => {
            if *writable && *migrated {
                notes.push(
                    "cgroup: memory.max writable and process migration works; hard cap active".to_owned(),
                );
                assert(text::views(notes@) =~= before.push(cgroup_of(*facts).2));
                let kill = if *can_kill {
                    KillTier::CgroupKill
                } else {
                    KillTier::Killpg
                };
                (MemCapTier::Cgroup, kill)
            } else if *writable {
                notes.push(
                    "cgroup: memory.max writable but process migration denied (delegation boundary); using rss-poll".to_owned(),
                );
                assert(text::views(notes@) =~= before.push(cgroup_of(*facts).2));
                (MemCapTier::RssPoll, KillTier::Killpg)
            } else {
                notes.push(
                    "cgroup: leaf created but memory.max not writable; using rss-poll".to_owned(),
                );
                assert(text::views(notes@) =~= before.push(cgroup_of(*facts).2));
                (MemCapTier::RssPoll, KillTier::Killpg)
            }
        },
    }
}

/// The profile mechanism and the note that follow from the reflink facts.
pub open spec fn profile_of(probe: ReflinkProbe) -> (ProfileTier, Seq<char>) {
    match probe {
        ReflinkProbe::Uncreatable(e) => (
            ProfileTier::PlainCopy,
            "profile: data_dir uncreatable ("@ + e@ + "); plain-copy"@,
        ),
        ReflinkProbe::Supported => (
            ProfileTier::Reflink,
            "profile: reflink supported on data_dir; CoW clone active"@,
        ),
        ReflinkProbe::Unsupported => (
            ProfileTier::PlainCopy,
            "profile: reflink unsupported on data_dir; plain-copy"@,
        ),
        ReflinkProbe::Failed(e) => (
            ProfileTier::PlainCopy,
            "profile: reflink probe failed ("@ + e@ + "); plain-copy"@,
        ),
    }
}

/// Resolves the profile mechanism.
pub fn probe_profile(probe: &ReflinkProbe, notes: &mut Vec<String>) -> (r: ProfileTier)
    ensures
        r == profile_of(*probe).0,
        text::views(final(notes)@) == text::views(old(notes)@).push(profile_of(*probe).1),
{
    let ghost before = text::views(notes@);
    let (tier, note) = match probe {
        ReflinkProbe::Uncreatable(e) => {
            let mut note = "profile: data_dir uncreatable (".to_owned();
            note.append(e.as_str());
            note.append("); plain-copy");
            (ProfileTier::PlainCopy, note)
        },
        ReflinkProbe::Supported => (
            ProfileTier::Reflink,
            "profile: reflink supported on data_dir; CoW clone active".to_owned(),
        ),
        ReflinkProbe::Unsupported => (
            ProfileTier::PlainCopy,
            "profile: reflink unsupported on data_dir; plain-copy".to_owned(),
        ),
        ReflinkProbe::Failed(e) => {
            let mut note = "profile: reflink probe failed (".to_owned();
            note.append(e.as_str());
            note.append("); plain-copy");
            (ProfileTier::PlainCopy, note)
        },
    };
    notes.push(note);
    assert(text::views(notes@) =~= before.push(note@));
    tier
}

/// Resolves the active isolation tiers from what probing the host showed.
pub fn detect(facts: &CgroupFacts, reflink: &ReflinkProbe) -> (r: Tiers)
    ensures
        r.memcap == cgroup_of(*facts).0,
        r.kill == cgroup_of(*facts).1,
        r.profile == profile_of(*reflink).0,
        text::views(r.notes@) == seq![cgroup_of(*facts).2, profile_of(*reflink).1],
{
    let mut notes: Vec<String> = Vec::new();
    assert(text::views(notes@) =~= Seq::empty());
    let (memcap, kill) = probe_cgroup(facts, &mut notes);
    let profile = probe_profile(reflink, &mut notes);
    assert(text::views(notes@) =~= seq![cgroup_of(*facts).2, profile_of(*reflink).1]);
    Tiers { kill, memcap, profile, notes }
}

/// A hard memory cap is only reported where `memory.max` was writable and a
/// process was really moved, and a subtree kill only together with it.
pub proof fn hard_cap_is_verified(facts: CgroupFacts)
    ensures
        cgroup_of(facts).0 is Cgroup ==> (facts.leaf matches LeafProbe::Created {
            writable,
            migrated,
            ..
        } && writable && migrated),
        cgroup_of(facts).1 is CgroupKill ==> cgroup_of(facts).0 is Cgroup,
        !(cgroup_of(facts).0 is Uncapped),
{
}

} // verus!
