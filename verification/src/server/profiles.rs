//! The profile hand-off store: a short-lived, in-memory coat check.
//!
//! The gateway drops a profile off (`drop_off`) and gets a one-shot,
//! unguessable token. The session claims it once (`claim`) to seed the browser,
//! deposits the captured profile back under the same token (`deposit_result`),
//! and the gateway picks that up once (`pick_up`). Nothing is written to disk;
//! entries expire and are swept so an unclaimed profile cannot linger.
//!
//! Points in time and durations are nanoseconds.

use crate::encoding;
use crate::profile::payload::ProfilePayload;
use crate::random;
use crate::text;
use vstd::prelude::*;

verus! {

/// Token entropy in bytes (256 bits). A `getrandom` CSPRNG value, URL-safe
/// base64 encoded for the `?profileToken=` query param.
pub const TOKEN_BYTES: usize = 32;

/// How long a dropped-off or captured profile lives before it is swept: two
/// minutes.
pub const PROFILE_TTL: u128 = 120_000_000_000;

/// Cap on outstanding profile entries (drop-off backpressure).
pub const MAX_PENDING: usize = 256;

/// Max accepted profile upload size. `IndexedDB` stores can be large; this caps
/// a single hand-off to bound memory. Sized from a measured store plus margin.
pub const MAX_PROFILE_BYTES: usize = 67_108_864;

/// Where a hand-off stands.
pub enum Slot {
    /// Dropped off, not yet claimed by a session.
    Pending(ProfilePayload),
    /// A session claimed it and is running.
    InFlight,
    /// The session finished; the captured profile awaits pick-up.
    Ready(ProfilePayload),
}

/// One hand-off.
pub struct Entry {
    /// Its token.
    pub token: String,
    /// Where it stands.
    pub slot: Slot,
    /// When it got there.
    pub at: u128,
}

/// A hand-off without its token.
pub struct Held {
    /// Where it stands.
    pub slot: Slot,
    /// When it got there.
    pub at: u128,
}

/// What a store holds, by token.
pub open spec fn held_in(entries: Seq<Entry>) -> Map<Seq<char>, Held>
    decreases entries.len(),
{
    if entries.len() == 0 {
        Map::empty()
    } else {
        let last = entries.last();
        held_in(entries.drop_last()).insert(last.token@, Held { slot: last.slot, at: last.at })
    }
}

/// Whether no two entries have the same token.
pub open spec fn distinct(entries: Seq<Entry>) -> bool {
    forall|i: int, j: int|
        0 <= i < j < entries.len() ==> (#[trigger] entries[i]).token@ != (
        #[trigger] entries[j]).token@
}

proof fn held_facts(entries: Seq<Entry>)
    requires
        distinct(entries),
    ensures
        held_in(entries).dom().finite(),
        held_in(entries).dom().len() == entries.len(),
        forall|i: int|
            0 <= i < entries.len() ==> held_in(entries).contains_key(
                (#[trigger] entries[i]).token@,
            ) && held_in(entries)[entries[i].token@] == (Held {
                slot: entries[i].slot,
                at: entries[i].at,
            }),
        forall|t: Seq<char>| #[trigger]
            held_in(entries).contains_key(t) ==> exists|i: int|
                0 <= i < entries.len() && (#[trigger] entries[i]).token@ == t,
    decreases entries.len(),
{
    if entries.len() > 0 {
        let t = entries.drop_last();
        assert(distinct(t)) by {
            assert forall|i: int, j: int| 0 <= i < j < t.len() implies (#[trigger] t[i]).token@ != (
            #[trigger] t[j]).token@ by {
                assert(t[i] == entries[i] && t[j] == entries[j]);
            }
        }
        held_facts(t);
        let last = entries.last();
        assert(!held_in(t).contains_key(last.token@)) by {
            if held_in(t).contains_key(last.token@) {
                let i = choose|i: int| 0 <= i < t.len() && (#[trigger] t[i]).token@ == last.token@;
                assert(t[i] == entries[i]);
                assert(entries[entries.len() - 1] == last);
            }
        }
        assert forall|i: int| 0 <= i < entries.len() implies held_in(entries).contains_key(
            (#[trigger] entries[i]).token@,
        ) && held_in(entries)[entries[i].token@] == (Held {
            slot: entries[i].slot,
            at: entries[i].at,
        }) by {
            if i < t.len() {
                assert(t[i] == entries[i]);
                assert(entries[entries.len() - 1] == last);
            }
        }
        assert forall|k: Seq<char>| #[trigger] held_in(entries).contains_key(k) implies exists|
            i: int,
        |
            0 <= i < entries.len() && (#[trigger] entries[i]).token@ == k by {
            if k == last.token@ {
                assert(entries[entries.len() - 1].token@ == k);
            } else {
                assert(held_in(t).contains_key(k));
                let i = choose|i: int| 0 <= i < t.len() && (#[trigger] t[i]).token@ == k;
                assert(entries[i].token@ == k);
            }
        }
    }
}

/// What a store is, as far as its operations are concerned.
#[verifier::ext_equal]
pub struct StoreView {
    /// The hand-offs, by token.
    pub held: Map<Seq<char>, Held>,
    /// How long one lives in one place.
    pub ttl: u128,
    /// How many there may be.
    pub max_pending: nat,
}

/// Whether a hand-off has not expired.
pub open spec fn is_fresh(h: Held, now: u128, ttl: u128) -> bool {
    (if now >= h.at {
        now - h.at
    } else {
        0
    }) < ttl
}

impl StoreView {
    /// The store without what has expired.
    pub open spec fn swept(self, now: u128) -> StoreView {
        StoreView {
            held: Map::new(
                |t: Seq<char>| self.held.contains_key(t) && is_fresh(self.held[t], now, self.ttl),
                |t: Seq<char>| self.held[t],
            ),
            ..self
        }
    }

    /// The store with `token` standing at `slot` since `now`.
    pub open spec fn with(self, token: Seq<char>, slot: Slot, now: u128) -> StoreView {
        StoreView { held: self.held.insert(token, Held { slot, at: now }), ..self }
    }

    /// The store without `token`.
    pub open spec fn without(self, token: Seq<char>) -> StoreView {
        StoreView { held: self.held.remove(token), ..self }
    }

    /// Dropping off `payload` at `now` under the minted token, if there is one.
    pub open spec fn dropped_off(
        self,
        minted: Option<Seq<char>>,
        payload: ProfilePayload,
        now: u128,
    ) -> (Option<Seq<char>>, StoreView) {
        let s = self.swept(now);
        if s.held.dom().len() >= s.max_pending {
            (None, s)
        } else {
            match minted {
                None => (None, s),
                Some(token) => (Some(token), s.with(token, Slot::Pending(payload), now)),
            }
        }
    }

    /// Claiming `token` at `now`.
    pub open spec fn claimed(self, token: Seq<char>, now: u128) -> (
        Option<ProfilePayload>,
        StoreView,
    ) {
        let s = self.swept(now);
        if s.held.contains_key(token) {
            match s.held[token].slot {
                Slot::Pending(payload) => (Some(payload), s.with(token, Slot::InFlight, now)),
                _ => (None, s),
            }
        } else {
            (None, s)
        }
    }

    /// Depositing `payload` for `token` at `now`.
    pub open spec fn deposited(
        self,
        token: Seq<char>,
        payload: ProfilePayload,
        now: u128,
    ) -> StoreView {
        if self.held.contains_key(token) && self.held[token].slot is InFlight && is_fresh(
            self.held[token],
            now,
            self.ttl,
        ) {
            self.with(token, Slot::Ready(payload), now)
        } else {
            self
        }
    }

    /// Picking `token` up at `now`.
    pub open spec fn picked_up(self, token: Seq<char>, now: u128) -> (
        Option<ProfilePayload>,
        StoreView,
    ) {
        let s = self.swept(now);
        if s.held.contains_key(token) {
            match s.held[token].slot {
                Slot::Ready(payload) => (Some(payload), s.without(token)),
                _ => (None, s),
            }
        } else {
            (None, s)
        }
    }
}

/// In-memory, TTL-bounded, single-use profile hand-off store.
pub struct ProfileStore {
    entries: Vec<Entry>,
    ttl: u128,
    max_pending: usize,
}

impl View for ProfileStore {
    type V = StoreView;

    closed spec fn view(&self) -> StoreView {
        StoreView {
            held: held_in(self.entries@),
            ttl: self.ttl,
            max_pending: self.max_pending as nat,
        }
    }
}

/// What is kept of a list, when exactly the fresh entries are.
proof fn swept_entries(all: Seq<Entry>, kept: Seq<Entry>, now: u128, ttl: u128)
    requires
        distinct(all),
        distinct(kept),
        forall|k: int|
            0 <= k < kept.len() ==> exists|i: int|
                0 <= i < all.len() && all[i] == #[trigger] kept[k] && is_fresh(
                    Held { slot: kept[k].slot, at: kept[k].at },
                    now,
                    ttl,
                ),
        forall|i: int|
            0 <= i < all.len() && is_fresh(
                Held { slot: (#[trigger] all[i]).slot, at: all[i].at },
                now,
                ttl,
            ) ==> exists|k: int| 0 <= k < kept.len() && #[trigger] kept[k] == all[i],
    ensures
        held_in(kept) == Map::new(
            |t: Seq<char>| held_in(all).contains_key(t) && is_fresh(held_in(all)[t], now, ttl),
            |t: Seq<char>| held_in(all)[t],
        ),
{
    held_facts(all);
    held_facts(kept);
    let m = held_in(kept);
    let want = Map::new(
        |t: Seq<char>| held_in(all).contains_key(t) && is_fresh(held_in(all)[t], now, ttl),
        |t: Seq<char>| held_in(all)[t],
    );
    assert forall|t: Seq<char>| #[trigger] m.contains_key(t) implies want.contains_key(t) && m[t]
        == want[t] by {
        let k = choose|k: int| 0 <= k < kept.len() && (#[trigger] kept[k]).token@ == t;
        let i = choose|i: int| 0 <= i < all.len() && all[i] == kept[k];
        assert(held_in(all)[all[i].token@] == (Held { slot: all[i].slot, at: all[i].at }));
    }
    assert forall|t: Seq<char>| #[trigger] want.contains_key(t) implies m.contains_key(t) by {
        let i = choose|i: int| 0 <= i < all.len() && (#[trigger] all[i]).token@ == t;
        assert(is_fresh(Held { slot: all[i].slot, at: all[i].at }, now, ttl));
        let k = choose|k: int| 0 <= k < kept.len() && #[trigger] kept[k] == all[i];
        assert(m.contains_key(kept[k].token@));
    }
    assert(m =~= want);
}

/// Calls `zeroize::Zeroize::zeroize` on a byte slice: every byte becomes zero.
#[verifier::external_body]
fn wipe(buf: &mut Vec<u8>)
    requires
        old(buf)@.len() <= isize::MAX,
    ensures
        final(buf)@.len() == old(buf)@.len(),
        forall|i: int| 0 <= i < final(buf)@.len() ==> #[trigger] final(buf)@[i] == 0,
{
    zeroize::Zeroize::zeroize(buf.as_mut_slice())
}

/// Whether a text has the shape of a token: the URL-safe base64 of 32 bytes.
pub open spec fn token_shaped(token: Seq<char>) -> bool {
    exists|bytes: Seq<u8>| bytes.len() == TOKEN_BYTES && #[trigger] encoding::url_text(bytes)
        == token
}

/// A fresh random token, unless the CSPRNG failed.
pub fn mint_token() -> (r: Option<String>)
    ensures
        r matches Some(token) ==> token_shaped(token@),
{
    let mut bytes = random::zeros(TOKEN_BYTES);
    let filled = random::fill_random(&mut bytes);
    let ghost drawn = bytes@;
    let r = token_from(filled, &mut bytes);
    assert(r matches Some(token) ==> encoding::url_text(drawn) == token@);
    r
}

/// The token of drawn bytes, unless the CSPRNG failed to fill them: their
/// URL-safe base64. The bytes are wiped once the token is made of them.
pub fn token_from(filled: bool, bytes: &mut Vec<u8>) -> (r: Option<String>)
    requires
        old(bytes)@.len() <= usize::MAX / 8,
    ensures
        text::opt_view(r) == (if filled {
            Some(encoding::url_text(old(bytes)@))
        } else {
            None
        }),
        final(bytes)@ == (if filled {
            Seq::new(old(bytes)@.len(), |i: int| 0u8)
        } else {
            old(bytes)@
        }),
{
    if !filled {
        return None;
    }
    let token = encoding::to_url(bytes.as_slice());
    wipe(bytes);
    assert(bytes@ =~= Seq::new(old(bytes)@.len(), |i: int| 0u8));
    Some(token)
}

/// A token is 43 characters long and needs no escaping in a URL.
pub proof fn token_needs_no_escaping(token: Seq<char>)
    requires
        token_shaped(token),
    ensures
        token.len() == 43,
        !token.contains('+'),
        !token.contains('/'),
        !token.contains('='),
{
    let bytes = choose|bytes: Seq<u8>| bytes.len() == TOKEN_BYTES && #[trigger] encoding::url_text(
        bytes,
    ) == token;
    encoding::url_text_is_safe(bytes);
}

impl ProfileStore {
    /// What every store keeps: tokens are distinct, and there are never more
    /// hand-offs than the cap.
    pub closed spec fn wf(&self) -> bool {
        distinct(self.entries@) && self.entries@.len() <= self.max_pending
    }

    /// A well-formed store holds at most its cap.
    pub proof fn cap_holds(&self)
        requires
            self.wf(),
        ensures
            self@.held.dom().finite(),
            self@.held.dom().len() <= self@.max_pending,
    {
        held_facts(self.entries@);
    }

    /// Builds a store with an entry time-to-live and a cap on outstanding
    /// (un-picked-up) entries.
    pub fn new(ttl: u128, max_pending: usize) -> (r: ProfileStore)
        ensures
            r.wf(),
            r@ == (StoreView { held: Map::empty(), ttl, max_pending: max_pending as nat }),
    {
        let r = ProfileStore { entries: Vec::new(), ttl, max_pending };
        assert(r@.held =~= Map::empty());
        r
    }

    fn sweep(&mut self, now: u128)
        requires
            old(self).wf(),
        ensures
            final(self).wf(),
            final(self)@ == old(self)@.swept(now),
            final(self).entries@.len() == old(self)@.swept(now).held.dom().len(),
            final(self).max_pending == old(self).max_pending,
            final(self).ttl == old(self).ttl,
    {
        let ghost all = self.entries@;
        let ttl = self.ttl;
        let mut rest: Vec<Entry> = Vec::new();
        rest.append(&mut self.entries);
        assert(rest@ =~= all);
        let mut kept: Vec<Entry> = Vec::new();
        let ghost mut n: int = 0;
        assert(all.skip(0) =~= all);
        while rest.len() > 0
            invariant
                0 <= n <= all.len(),
                rest@ == all.skip(n),
                distinct(all),
                distinct(kept@),
                kept@.len() <= n,
                forall|k: int|
                    0 <= k < kept@.len() ==> exists|i: int|
                        0 <= i < n && all[i] == #[trigger] kept@[k] && is_fresh(
                            Held { slot: kept@[k].slot, at: kept@[k].at },
                            now,
                            ttl,
                        ),
                forall|i: int|
                    0 <= i < n && is_fresh(
                        Held { slot: (#[trigger] all[i]).slot, at: all[i].at },
                        now,
                        ttl,
                    ) ==> exists|k: int| 0 <= k < kept@.len() && #[trigger] kept@[k] == all[i],
            decreases rest.len(),
        {
            let ghost kept0 = kept@;
            let entry = rest.remove(0);
            assert(entry == all[n]);
            assert(all.skip(n).remove(0) =~= all.skip(n + 1));
            let age: u128 = if now >= entry.at {
                now - entry.at
            } else {
                0
            };
            if age < ttl {
                kept.push(entry);
                proof {
                    assert forall|i: int, j: int| 0 <= i < j < kept@.len() implies (
                    #[trigger] kept@[i]).token@ != (#[trigger] kept@[j]).token@ by {
                        if j == kept0.len() {
                            assert(kept@[i] == kept0[i]);
                            let a = choose|a: int| 0 <= a < n && all[a] == kept0[i];
                            assert(all[a].token@ != all[n].token@);
                        } else {
                            assert(kept@[i] == kept0[i] && kept@[j] == kept0[j]);
                        }
                    }
                    assert forall|k: int| 0 <= k < kept@.len() implies exists|i: int|
                        0 <= i < n + 1 && all[i] == #[trigger] kept@[k] && is_fresh(
                            Held { slot: kept@[k].slot, at: kept@[k].at },
                            now,
                            ttl,
                        ) by {
                        if k < kept0.len() {
                            assert(kept@[k] == kept0[k]);
                        } else {
                            assert(all[n] == kept@[k]);
                        }
                    }
                    assert forall|i: int|
                        0 <= i < n + 1 && is_fresh(
                            Held { slot: (#[trigger] all[i]).slot, at: all[i].at },
                            now,
                            ttl,
                        ) implies exists|k: int|
                        0 <= k < kept@.len() && #[trigger] kept@[k] == all[i] by {
                        if i < n {
                            let k = choose|k: int|
                                0 <= k < kept0.len() && #[trigger] kept0[k] == all[i];
                            assert(kept@[k] == all[i]);
                        } else {
                            assert(kept@[kept0.len() as int] == all[i]);
                        }
                    }
                }
            }
            proof {
                n = n + 1;
            }
        }
        self.entries = kept;
        proof {
            swept_entries(all, kept@, now, ttl);
            held_facts(kept@);
            assert(self@ =~= old(self)@.swept(now));
        }
    }

    fn find(&self, token: &str) -> (r: Option<usize>)
        requires
            self.wf(),
        ensures
            r is Some <==> self@.held.contains_key(token@),
            r matches Some(i) ==> i < self.entries@.len() && self.entries@[i as int].token@
                == token@ && self@.held[token@] == (Held {
                slot: self.entries@[i as int].slot,
                at: self.entries@[i as int].at,
            }),
    {
        proof {
            held_facts(self.entries@);
        }
        let mut i: usize = 0;
        while i < self.entries.len()
            invariant
                i <= self.entries@.len(),
                self.wf(),
                forall|k: int| 0 <= k < i ==> (#[trigger] self.entries@[k]).token@ != token@,
            decreases self.entries.len() - i,
        {
            if text::same(self.entries[i].token.as_str(), token) {
                proof {
                    held_facts(self.entries@);
                }
                return Some(i);
            }
            i += 1;
        }
        proof {
            held_facts(self.entries@);
        }
        None
    }

    /// Takes the entry at `i` out of the list.
    fn take(&mut self, i: usize) -> (r: Entry)
        requires
            old(self).wf(),
            i < old(self).entries@.len(),
        ensures
            final(self).wf(),
            final(self).entries@.len() == old(self).entries@.len() - 1,
            final(self).max_pending == old(self).max_pending,
            final(self).ttl == old(self).ttl,
            r == old(self).entries@[i as int],
            final(self)@ == old(self)@.without(r.token@),
    {
        let ghost all = self.entries@;
        let r = self.entries.remove(i);
        proof {
            let rest = self.entries@;
            assert(rest =~= all.remove(i as int));
            assert(distinct(rest)) by {
                assert forall|a: int, b: int| 0 <= a < b < rest.len() implies (
                #[trigger] rest[a]).token@ != (#[trigger] rest[b]).token@ by {
                    let x = if a < i {
                        a
                    } else {
                        a + 1
                    };
                    let y = if b < i {
                        b
                    } else {
                        b + 1
                    };
                    assert(rest[a] == all[x] && rest[b] == all[y]);
                }
            }
            held_facts(all);
            held_facts(rest);
            let want = held_in(all).remove(r.token@);
            let m = held_in(rest);
            assert forall|t: Seq<char>| m.contains_key(t) <==> want.contains_key(t) by {
                if m.contains_key(t) {
                    let k = choose|k: int| 0 <= k < rest.len() && (#[trigger] rest[k]).token@ == t;
                    let x = if k < i {
                        k
                    } else {
                        k + 1
                    };
                    assert(rest[k] == all[x]);
                    assert(all[x].token@ != all[i as int].token@);
                }
                if want.contains_key(t) {
                    let k = choose|k: int| 0 <= k < all.len() && (#[trigger] all[k]).token@ == t;
                    if k < i {
                        assert(rest[k] == all[k]);
                    } else {
                        assert(rest[k - 1] == all[k]);
                    }
                }
            }
            assert forall|t: Seq<char>| m.contains_key(t) implies m[t] == want[t] by {
                let k = choose|k: int| 0 <= k < rest.len() && (#[trigger] rest[k]).token@ == t;
                let x = if k < i {
                    k
                } else {
                    k + 1
                };
                assert(rest[k] == all[x]);
                assert(held_in(all)[all[x].token@] == (Held { slot: all[x].slot, at: all[x].at }));
            }
            assert(m =~= want);
            assert(self@ =~= old(self)@.without(r.token@));
        }
        r
    }

    /// Adds an entry under a token that is not in use.
    fn put(&mut self, token: String, slot: Slot, now: u128)
        requires
            old(self).wf(),
            old(self).entries@.len() < old(self).max_pending,
            !old(self)@.held.contains_key(token@),
        ensures
            final(self).wf(),
            final(self)@ == old(self)@.with(token@, slot, now),
    {
        let ghost all = self.entries@;
        let entry = Entry { token, slot, at: now };
        self.entries.push(entry);
        proof {
            held_facts(all);
            let more = self.entries@;
            assert(more.drop_last() =~= all);
            assert(more.last() == entry);
            assert forall|a: int, b: int| 0 <= a < b < more.len() implies (
            #[trigger] more[a]).token@ != (#[trigger] more[b]).token@ by {
                assert(more[a] == all[a]);
                if b < all.len() {
                    assert(more[b] == all[b]);
                }
            }
            assert(self@ =~= old(self)@.with(entry.token@, slot, now));
        }
    }

    /// Stores a profile and returns its one-shot token, or `None` if the store
    /// is at its outstanding-entry cap (backpressure) or the CSPRNG failed.
    pub fn drop_off(&mut self, payload: ProfilePayload, now: u128) -> (r: Option<String>)
        requires
            old(self).wf(),
        ensures
            final(self).wf(),
            exists|minted: Option<Seq<char>>|
                (minted matches Some(t) ==> token_shaped(t)) && (text::opt_view(r), final(self)@)
                    == #[trigger] old(self)@.dropped_off(minted, payload, now),
    {
        let minted = mint_token();
        let ghost m = text::opt_view(minted);
        let r = self.drop_off_as(minted, payload, now);
        assert((text::opt_view(r), self@) == old(self)@.dropped_off(m, payload, now));
        r
    }

    /// Stores a profile under the token that was minted for it.
    pub fn drop_off_as(
        &mut self,
        minted: Option<String>,
        payload: ProfilePayload,
        now: u128,
    ) -> (r: Option<String>)
        requires
            old(self).wf(),
        ensures
            final(self).wf(),
            (text::opt_view(r), final(self)@) == old(self)@.dropped_off(
                text::opt_view(minted),
                payload,
                now,
            ),
    {
        self.sweep(now);
        if self.entries.len() >= self.max_pending {
            return None;
        }
        let token = match minted {
            None => {
                return None;
            },
            Some(token) => token,
        };
        let ghost s = self@;
        if let Some(i) = self.find(token.as_str()) {
            self.take(i);
        }
        assert(s.without(token@).with(token@, Slot::Pending(payload), now) =~= s.with(
            token@,
            Slot::Pending(payload),
            now,
        ));
        self.put(token.clone(), Slot::Pending(payload), now);
        assert(self@ =~= s.with(token@, Slot::Pending(payload), now));
        Some(token)
    }

    /// Claims a pending profile exactly once, moving it to in-flight. Returns
    /// `None` for an unknown, expired, or already-claimed token.
    pub fn claim(&mut self, token: &str, now: u128) -> (r: Option<ProfilePayload>)
        requires
            old(self).wf(),
        ensures
            final(self).wf(),
            (r, final(self)@) == old(self)@.claimed(token@, now),
    {
        self.sweep(now);
        let ghost s = self@;
        let i: usize = match self.find(token) {
            Some(i) => i,
            None => {
                return None;
            },
        };
        let pending = match &self.entries[i].slot {
            Slot::Pending(_) => true,
            _ => false,
        };
        if !pending {
            return None;
        }
        let entry = self.take(i);
        self.put(entry.token, Slot::InFlight, now);
        assert(self@ =~= s.with(token@, Slot::InFlight, now));
        match entry.slot {
            Slot::Pending(payload) => Some(payload),
            _ => None,
        }
    }

    /// Deposits the captured profile for a claimed token. No-op if the token is
    /// gone (expired) or was never in flight.
    pub fn deposit_result(&mut self, token: &str, payload: ProfilePayload, now: u128)
        requires
            old(self).wf(),
        ensures
            final(self).wf(),
            final(self)@ == old(self)@.deposited(token@, payload, now),
    {
        let ghost s = self@;
        let i: usize = match self.find(token) {
            Some(i) => i,
            None => {
                return;
            },
        };
        let in_flight = match &self.entries[i].slot {
            Slot::InFlight => true,
            _ => false,
        };
        let at: u128 = self.entries[i].at;
        let age: u128 = if now >= at {
            now - at
        } else {
            0
        };
        if in_flight && age < self.ttl {
            let entry = self.take(i);
            self.put(entry.token, Slot::Ready(payload), now);
            assert(self@ =~= s.with(token@, Slot::Ready(payload), now));
        }
    }

    /// Picks up a ready (captured) profile exactly once, removing the entry.
    pub fn pick_up(&mut self, token: &str, now: u128) -> (r: Option<ProfilePayload>)
        requires
            old(self).wf(),
        ensures
            final(self).wf(),
            (r, final(self)@) == old(self)@.picked_up(token@, now),
    {
        self.sweep(now);
        let i: usize = match self.find(token) {
            Some(i) => i,
            None => {
                return None;
            },
        };
        let ready = match &self.entries[i].slot {
            Slot::Ready(_) => true,
            _ => false,
        };
        if !ready {
            return None;
        }
        let entry = self.take(i);
        match entry.slot {
            Slot::Ready(payload) => Some(payload),
            _ => None,
        }
    }
}

/// A profile is claimed at most once, whatever the time of the second try.
pub proof fn claim_is_single_use(s: StoreView, token: Seq<char>, now: u128, later: u128)
    requires
        s.claimed(token, now).0 is Some,
    ensures
        s.claimed(token, now).1.claimed(token, later).0 is None,
{
}

/// A captured profile is picked up at most once.
pub proof fn pick_up_is_single_use(s: StoreView, token: Seq<char>, now: u128, later: u128)
    requires
        s.picked_up(token, now).0 is Some,
    ensures
        s.picked_up(token, now).1.picked_up(token, later).0 is None,
{
}

/// A profile that is dropped off, claimed, given back and picked up, each in
/// time, comes through as it was dropped off and as it was given back.
pub proof fn hand_off_round_trip(
    s: StoreView,
    token: Seq<char>,
    dropped: ProfilePayload,
    captured: ProfilePayload,
    t0: u128,
    t1: u128,
    t2: u128,
    t3: u128,
)
    requires
        s.dropped_off(Some(token), dropped, t0).0 is Some,
        t0 <= t1 < t0 + s.ttl,
        t1 <= t2 < t1 + s.ttl,
        t2 <= t3 < t2 + s.ttl,
    ensures
        ({
            let a = s.dropped_off(Some(token), dropped, t0).1;
            let (claimed, b) = a.claimed(token, t1);
            let c = b.deposited(token, captured, t2);
            let (picked, d) = c.picked_up(token, t3);
            &&& claimed == Some(dropped)
            &&& picked == Some(captured)
            &&& !d.held.contains_key(token)
        }),
{
}

/// A hand-off that is not claimed in time is gone.
pub proof fn unclaimed_profile_expires(
    s: StoreView,
    token: Seq<char>,
    dropped: ProfilePayload,
    t0: u128,
    t1: u128,
)
    requires
        s.dropped_off(Some(token), dropped, t0).0 is Some,
        t1 >= t0 + s.ttl,
    ensures
        s.dropped_off(Some(token), dropped, t0).1.claimed(token, t1).0 is None,
        !s.dropped_off(Some(token), dropped, t0).1.claimed(token, t1).1.held.contains_key(token),
{
}

/// A result that comes too late is not kept: the hand-off under its token is
/// gone at the next look.
pub proof fn late_result_is_dropped(
    s: StoreView,
    token: Seq<char>,
    captured: ProfilePayload,
    t1: u128,
    t2: u128,
    t3: u128,
)
    requires
        s.claimed(token, t1).0 is Some,
        t1 + s.ttl <= t2 <= t3,
    ensures
        s.claimed(token, t1).1.deposited(token, captured, t2) == s.claimed(token, t1).1,
        s.claimed(token, t1).1.deposited(token, captured, t2).picked_up(token, t3).0 is None,
{
}

/// A result is only taken for a claimed hand-off, and a profile is only picked
/// up once it was given back.
pub proof fn only_claimed_profiles_come_back(
    s: StoreView,
    token: Seq<char>,
    payload: ProfilePayload,
    now: u128,
)
    requires
        !s.held.contains_key(token) || !(s.held[token].slot is InFlight),
    ensures
        s.deposited(token, payload, now) == s,
        !(s.held.contains_key(token) && s.held[token].slot is Ready) ==> s.picked_up(
            token,
            now,
        ).0 is None,
{
}

/// Whether the hand-off under `token` stands the same in two stores.
pub open spec fn stands_alike(a: StoreView, b: StoreView, token: Seq<char>) -> bool {
    &&& a.held.contains_key(token) <==> b.held.contains_key(token)
    &&& a.held.contains_key(token) ==> a.held[token] == b.held[token]
}

/// Hand-offs do not get in each other's way: what is done under one token
/// leaves the hand-off under another as it stands, but for what has expired.
pub proof fn hand_offs_do_not_interfere(
    s: StoreView,
    token: Seq<char>,
    other: Seq<char>,
    payload: ProfilePayload,
    now: u128,
)
    requires
        token != other,
    ensures
        stands_alike(s.dropped_off(Some(other), payload, now).1, s.swept(now), token),
        stands_alike(s.claimed(other, now).1, s.swept(now), token),
        stands_alike(s.deposited(other, payload, now), s, token),
        stands_alike(s.picked_up(other, now).1, s.swept(now), token),
{
}

} // verus!
