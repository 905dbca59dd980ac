//! Linux kernel-grade isolation: cgroup v2 caps and capability probing. Hosts
//! without it resolve to the portable floor.

use crate::linux::tiers::{KillTier, MemCapTier, ProfileTier, Tiers};
use crate::text;
use vstd::prelude::*;

pub mod cgroup;
pub mod probe;
pub mod tiers;

verus! {

/// The universal fallback tiers of non-Linux hosts.
pub fn detect() -> (r: Tiers)
    ensures
        r.kill is Killpg,
        r.memcap is RssPoll,
        r.profile is PlainCopy,
        text::views(r.notes@) == seq!["non-Linux host: kernel isolation tiers unavailable"@],
{
    let mut notes: Vec<String> = Vec::new();
    notes.push("non-Linux host: kernel isolation tiers unavailable".to_owned());
    assert(text::views(notes@) =~= seq!["non-Linux host: kernel isolation tiers unavailable"@]);
    Tiers {
        kill: KillTier::Killpg,
        memcap: MemCapTier::RssPoll,
        profile: ProfileTier::PlainCopy,
        notes,
    }
}

} // verus!
