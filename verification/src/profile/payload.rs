//! The profile as it travels the gateway <-> browserserve channel.

use crate::profile::cdp::OriginState;
use crate::profile::cookie::Cookie;
use crate::profile::manifest::ManifestEntry;
use crate::text;
use vstd::prelude::*;

verus! {

/// A full profile payload: the portable core (cookies + localStorage) plus the
/// browserserve-native layer (`IndexedDB` / service-worker files, as a manifest).
///
/// Cookie and storage VALUES are secrets and must never reach a log; only
/// [`ProfilePayload::redacted`] describes a payload, by its counts.
pub struct ProfilePayload {
    /// Portable cookies (full CDP field set; sanitized on inject).
    pub cookies: Vec<Cookie>,
    /// Portable localStorage, per origin.
    pub local_storage: Vec<OriginState>,
    /// Native-layer files (`IndexedDB` + service workers), destination-relative.
    pub indexeddb: Vec<ManifestEntry>,
}

impl Default for ProfilePayload {
    fn default() -> (r: ProfilePayload)
        ensures
            r.cookies@.len() == 0,
            r.local_storage@.len() == 0,
            r.indexeddb@.len() == 0,
    {
        ProfilePayload { cookies: Vec::new(), local_storage: Vec::new(), indexeddb: Vec::new() }
    }
}

/// The first-party origin of a cookie domain, unless it has no host.
pub open spec fn cookie_origin(domain: Seq<char>) -> Option<Seq<char>> {
    let host = text::drop_front(domain, text::isp('.'));
    if host.len() == 0 {
        None
    } else {
        Some("https://"@ + host)
    }
}

/// `origins` with those of the cookies that are not there yet, in order.
pub open spec fn with_cookie_origins(origins: Seq<Seq<char>>, cookies: Seq<Cookie>) -> Seq<
    Seq<char>,
>
    decreases cookies.len(),
{
    if cookies.len() == 0 {
        origins
    } else {
        let before = with_cookie_origins(origins, cookies.drop_last());
        match cookie_origin(cookies.last().domain@) {
            Some(o) if !before.contains(o) => before.push(o),
            _ => before,
        }
    }
}

/// The origins of a localStorage list.
pub open spec fn storage_origins(states: Seq<OriginState>) -> Seq<Seq<char>> {
    Seq::new(states.len(), |i: int| states[i].origin@)
}

impl ProfilePayload {
    /// The candidate origins to capture localStorage from: everything this
    /// payload injected plus every distinct `https://host` derived from its
    /// cookie domains.
    pub fn candidate_origins(&self) -> (r: Vec<String>)
        ensures
            text::views(r@) == with_cookie_origins(
                storage_origins(self.local_storage@),
                self.cookies@,
            ),
    {
        let mut origins: Vec<String> = Vec::new();
        let mut i: usize = 0;
        while i < self.local_storage.len()
            invariant
                i <= self.local_storage@.len(),
                text::views(origins@) == storage_origins(self.local_storage@).take(i as int),
            decreases self.local_storage.len() - i,
        {
            let ghost before = origins@;
            origins.push(self.local_storage[i].origin.clone());
            assert(text::views(origins@) =~= text::views(before).push(
                self.local_storage@[i as int].origin@,
            ));
            assert(text::views(origins@) =~= storage_origins(self.local_storage@).take(i + 1));
            i += 1;
        }
        let ghost stored = storage_origins(self.local_storage@);
        assert(stored.take(i as int) =~= stored);
        let mut k: usize = 0;
        assert(self.cookies@.take(0) =~= Seq::empty());
        while k < self.cookies.len()
            invariant
                k <= self.cookies@.len(),
                text::views(origins@) == with_cookie_origins(stored, self.cookies@.take(k as int)),
            decreases self.cookies.len() - k,
        {
            let ghost before = origins@;
            proof {
                let t = self.cookies@.take(k + 1);
                assert(t.drop_last() =~= self.cookies@.take(k as int));
                assert(t.last() == self.cookies@[k as int]);
            }
            let host = text::trim_start_char(self.cookies[k].domain.as_str(), '.');
            if host.as_str().unicode_len() > 0 {
                let mut origin = "https://".to_owned();
                origin.append(host.as_str());
                if !text::list_has(&origins, origin.as_str()) {
                    origins.push(origin);
                    assert(text::views(origins@) =~= text::views(before).push(origin@));
                }
            }
            k += 1;
        }
        assert(self.cookies@.take(k as int) =~= self.cookies@);
        origins
    }

    /// True when the payload carries no state at all.
    pub fn is_empty(&self) -> (r: bool)
        ensures
            r == (self.cookies@.len() == 0 && self.local_storage@.len() == 0
                && self.indexeddb@.len() == 0),
    {
        self.cookies.len() == 0 && self.local_storage.len() == 0 && self.indexeddb.len() == 0
    }

    /// A description for logs: counts only, no value of a cookie or an entry.
    pub fn redacted(&self) -> (r: String)
        ensures
            r@ == "ProfilePayload { cookies: "@ + text::decimal_of(self.cookies@.len())
                + ", origins: "@ + text::decimal_of(self.local_storage@.len())
                + ", indexeddb_files: "@ + text::decimal_of(self.indexeddb@.len()) + ", .. }"@,
    {
        let mut s = "ProfilePayload { cookies: ".to_owned();
        s.append(text::decimal(self.cookies.len() as u128).as_str());
        s.append(", origins: ");
        s.append(text::decimal(self.local_storage.len() as u128).as_str());
        s.append(", indexeddb_files: ");
        s.append(text::decimal(self.indexeddb.len() as u128).as_str());
        s.append(", .. }");
        s
    }
}

/// Every origin that was injected is a candidate, and so is the origin of
/// every cookie that has a host.
pub proof fn candidates_are_complete(origins: Seq<Seq<char>>, cookies: Seq<Cookie>)
    ensures
        forall|o: Seq<char>| #[trigger]
            origins.contains(o) ==> with_cookie_origins(origins, cookies).contains(o),
        forall|i: int|
            0 <= i < cookies.len() ==> (cookie_origin((#[trigger] cookies[i]).domain@) matches Some(
                o,
            ) ==> with_cookie_origins(origins, cookies).contains(o)),
    decreases cookies.len(),
{
    let all = with_cookie_origins(origins, cookies);
    if cookies.len() > 0 {
        let t = cookies.drop_last();
        candidates_are_complete(origins, t);
        let before = with_cookie_origins(origins, t);
        assert forall|o: Seq<char>| before.contains(o) implies all.contains(o) by {
            let k = choose|k: int| 0 <= k < before.len() && before[k] == o;
            assert(all[k] == o);
        }
        assert forall|i: int| 0 <= i < cookies.len() implies (cookie_origin(
            (#[trigger] cookies[i]).domain@,
        ) matches Some(o) ==> all.contains(o)) by {
            if i < t.len() {
                assert(t[i] == cookies[i]);
            } else if let Some(o) = cookie_origin(cookies[i].domain@) {
                if !before.contains(o) {
                    assert(all[before.len() as int] == o);
                }
            }
        }
        assert forall|o: Seq<char>| #[trigger] origins.contains(o) implies all.contains(o) by {
            assert(before.contains(o));
        }
    }
}

/// No origin is derived twice: a list of distinct origins stays one.
pub proof fn candidates_are_distinct(origins: Seq<Seq<char>>, cookies: Seq<Cookie>)
    requires
        origins.no_duplicates(),
    ensures
        with_cookie_origins(origins, cookies).no_duplicates(),
    decreases cookies.len(),
{
    if cookies.len() > 0 {
        candidates_are_distinct(origins, cookies.drop_last());
        let before = with_cookie_origins(origins, cookies.drop_last());
        let all = with_cookie_origins(origins, cookies);
        assert forall|i: int, j: int|
            0 <= i < all.len() && 0 <= j < all.len() && i != j implies all[i] != all[j] by {
            if i < before.len() && j < before.len() {
                assert(before[i] != before[j]);
            } else if i < before.len() {
                assert(before.contains(before[i]));
            } else if j < before.len() {
                assert(before.contains(before[j]));
            }
        }
    }
}

} // verus!
