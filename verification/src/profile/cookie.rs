//! Cookie model and the pre-inject sanitizer.
//!
//! Cookies are auth material. The one rule that matters: every security
//! attribute a browser set (`secure`, `httpOnly`, `sameSite`, `partitionKey`,
//! schemeful source) must survive the capture -> store -> re-inject round trip,
//! or a protected session cookie silently degrades into one an attacker can
//! read or replay. So the model carries the complete CDP field set and the
//! sanitizer only ever drops a cookie it cannot faithfully reproduce; it never
//! rewrites `secure`/`httpOnly`/`sameSite`/`domain` to make one "fit".
//!
//! Field set and drop rules follow Chromium's `canonical_cookie.cc`.

use crate::json;
use crate::json::{Json, JsonView, Member};
use crate::scalar::Scalar;
use crate::text;
use vstd::prelude::*;

verus! {

/// Cross-site scoping key of a partitioned (CHIPS) cookie.
#[derive(Debug, PartialEq, Eq)]
pub struct PartitionKey {
    /// The top-level site the cookie is partitioned under.
    pub top_level_site: String,
    /// Whether a cross-site ancestor is present in the frame chain.
    pub has_cross_site_ancestor: bool,
}

impl Clone for PartitionKey {
    fn clone(&self) -> (r: PartitionKey)
        ensures
            r == *self,
    {
        PartitionKey {
            top_level_site: self.top_level_site.clone(),
            has_cross_site_ancestor: self.has_cross_site_ancestor,
        }
    }
}

/// `SameSite` policy. Absent means Chrome's UNSPECIFIED (~Lax); it is
/// re-injected as absent, which reproduces UNSPECIFIED faithfully.
#[derive(Debug, Clone, Copy, PartialEq, Eq, Structural)]
pub enum SameSite {
    /// Sent only for same-site requests.
    Strict,
    /// Sent for same-site and top-level cross-site navigations.
    Lax,
    /// `None` on the wire. Sent cross-site; Chrome requires `secure=true` or it
    /// is excluded.
    NoRestriction,
}

/// A captured cookie: exactly what `Storage.getCookies` returns, so nothing an
/// attribute-bearing browser set is lost on the way to storage.
#[derive(Debug, PartialEq, Eq)]
pub struct Cookie {
    /// Cookie name (may carry a `__Host-`/`__Secure-` prefix).
    pub name: String,
    /// Cookie value — a bearer secret; never log it.
    pub value: String,
    /// Scope host. A leading dot marks a domain (non-host-only) cookie; keep it
    /// verbatim — adding or removing it re-scopes the cookie.
    pub domain: String,
    /// Scope path.
    pub path: String,
    /// Seconds since epoch, or `-1` for a session cookie.
    pub expires: Scalar,
    /// Not sent over plaintext HTTP when true.
    pub secure: bool,
    /// Not exposed to JavaScript when true.
    pub http_only: bool,
    /// `SameSite` policy; absent = `UNSPECIFIED`.
    pub same_site: Option<SameSite>,
    /// Eviction priority (`Low`/`Medium`/`High`); pass-through.
    pub priority: Option<String>,
    /// Schemeful same-site source scheme (`Unset`/`NonSecure`/`Secure`).
    pub source_scheme: Option<String>,
    /// Source port (`-1` = unspecified); pass-through.
    pub source_port: Option<i64>,
    /// Partition (CHIPS) key, if partitioned.
    pub partition_key: Option<PartitionKey>,
    /// True when the partition key is opaque and not serializable: such a cookie
    /// cannot be faithfully re-injected and is dropped.
    pub partition_key_opaque: bool,
}

/// A cookie ready for `Storage.setCookies`: the `Network.CookieParam` shape.
/// `expires` is omitted for session cookies; `size`/`session`/opaque-partition
/// are not set-params and are absent by construction.
#[derive(Debug, PartialEq, Eq)]
pub struct CookieParam {
    /// Cookie name.
    pub name: String,
    /// Cookie value.
    pub value: String,
    /// Scope host (verbatim, leading dot preserved).
    pub domain: String,
    /// Scope path.
    pub path: String,
    /// Seconds since epoch; absent for a session cookie.
    pub expires: Option<Scalar>,
    /// Secure attribute.
    pub secure: bool,
    /// `HttpOnly` attribute.
    pub http_only: bool,
    /// `SameSite` policy; absent = `UNSPECIFIED`.
    pub same_site: Option<SameSite>,
    /// Eviction priority; pass-through.
    pub priority: Option<String>,
    /// Schemeful source scheme; pass-through.
    pub source_scheme: Option<String>,
    /// Source port; pass-through.
    pub source_port: Option<i64>,
    /// Partition (CHIPS) key; absent = unpartitioned.
    pub partition_key: Option<PartitionKey>,
}

/// Why a cookie was dropped, counted for logging without exposing any value.
#[derive(Debug, Clone, Copy, PartialEq, Eq, Structural)]
pub struct DropCounts {
    /// `SameSite=None` without `secure` (Chrome would exclude it anyway).
    pub same_site_none_insecure: u32,
    /// Persistent cookie already past its expiry.
    pub expired: u32,
    /// Opaque partition key — not serializable, unsafe to re-inject.
    pub opaque_partition: u32,
    /// `__Host-`/`__Secure-` prefix constraints violated (corrupt input).
    pub invalid_prefix: u32,
    /// Name+value over the ~4 KB per-cookie ceiling.
    pub oversized: u32,
}

impl Default for DropCounts {
    fn default() -> (r: DropCounts)
        ensures
            r.sum() == 0,
            r == (DropCounts {
                same_site_none_insecure: 0,
                expired: 0,
                opaque_partition: 0,
                invalid_prefix: 0,
                oversized: 0,
            }),
    {
        DropCounts {
            same_site_none_insecure: 0,
            expired: 0,
            opaque_partition: 0,
            invalid_prefix: 0,
            oversized: 0,
        }
    }
}

impl DropCounts {
    /// Cookies dropped across all reasons.
    pub open spec fn sum(self) -> nat {
        (self.same_site_none_insecure + self.expired + self.opaque_partition + self.invalid_prefix
            + self.oversized) as nat
    }

    /// Total number of cookies dropped across all reasons.
    pub fn total(&self) -> (r: u32)
        requires
            self.sum() <= u32::MAX,
        ensures
            r as nat == self.sum(),
    {
        self.same_site_none_insecure + self.expired + self.opaque_partition + self.invalid_prefix
            + self.oversized
    }

    /// How often cookies were dropped for this reason.
    pub open spec fn of(self, reason: DropReason) -> nat {
        match reason {
            DropReason::SameSiteNoneInsecure => self.same_site_none_insecure as nat,
            DropReason::Expired => self.expired as nat,
            DropReason::OpaquePartition => self.opaque_partition as nat,
            DropReason::InvalidPrefix => self.invalid_prefix as nat,
            DropReason::Oversized => self.oversized as nat,
        }
    }
}

/// Approximate per-cookie byte ceiling (name + value); Chrome rejects ~4 KB.
pub const MAX_COOKIE_BYTES: usize = 4096;

/// Why a cookie is dropped.
#[derive(Debug, Clone, Copy, PartialEq, Eq, Structural)]
pub enum DropReason {
    /// `SameSite=None` without `secure`.
    SameSiteNoneInsecure,
    /// Past its expiry.
    Expired,
    /// Opaque partition key.
    OpaquePartition,
    /// Prefix constraints violated.
    InvalidPrefix,
    /// Too large.
    Oversized,
}

/// The number zero.
pub open spec fn zero() -> Scalar {
    Scalar { bits: 0 }
}

/// Whether a cookie lives as long as the browser: its expiry is negative.
pub open spec fn is_session(cookie: Cookie) -> bool {
    cookie.expires.less(zero())
}

/// Whether a persistent cookie is past its expiry.
pub open spec fn is_expired(cookie: Cookie, now: Scalar) -> bool {
    !is_session(cookie) && cookie.expires.less(now)
}

/// Whether the name's prefix, if it has one, agrees with the attributes:
/// `__Host-` needs a further name, `secure`, the path `/` and a host-only
/// domain; `__Secure-` needs a further name and `secure`.
pub open spec fn prefix_fits(cookie: Cookie) -> bool {
    let name = cookie.name@;
    if text::has_prefix(name, "__Host-"@) {
        &&& name.len() > "__Host-"@.len()
        &&& cookie.secure
        &&& cookie.path@ == "/"@
        &&& !(cookie.domain@.len() > 0 && cookie.domain@[0] == '.')
    } else if text::has_prefix(name, "__Secure-"@) {
        name.len() > "__Secure-"@.len() && cookie.secure
    } else {
        true
    }
}

/// The bytes of a cookie's name and value.
pub open spec fn cookie_bytes(cookie: Cookie) -> nat {
    vstd::utf8::encode_utf8(cookie.name@).len() + vstd::utf8::encode_utf8(cookie.value@).len()
}

/// Why a cookie is dropped, if it is: the first reason that applies.
pub open spec fn drop_reason(cookie: Cookie, now: Scalar) -> Option<DropReason> {
    if cookie.partition_key_opaque {
        Some(DropReason::OpaquePartition)
    } else if cookie.same_site == Some(SameSite::NoRestriction) && !cookie.secure {
        Some(DropReason::SameSiteNoneInsecure)
    } else if is_expired(cookie, now) {
        Some(DropReason::Expired)
    } else if !prefix_fits(cookie) {
        Some(DropReason::InvalidPrefix)
    } else if cookie_bytes(cookie) > MAX_COOKIE_BYTES {
        Some(DropReason::Oversized)
    } else {
        None
    }
}

/// A cookie as a set-parameter: every attribute verbatim, without the expiry
/// of a session cookie.
pub open spec fn param_of(cookie: Cookie) -> CookieParam {
    CookieParam {
        name: cookie.name,
        value: cookie.value,
        domain: cookie.domain,
        path: cookie.path,
        expires: if is_session(cookie) {
            None
        } else {
            Some(cookie.expires)
        },
        secure: cookie.secure,
        http_only: cookie.http_only,
        same_site: cookie.same_site,
        priority: cookie.priority,
        source_scheme: cookie.source_scheme,
        source_port: cookie.source_port,
        partition_key: cookie.partition_key,
    }
}

/// The set-parameters of the cookies that are not dropped, in order.
pub open spec fn params_of(cookies: Seq<Cookie>, now: Scalar) -> Seq<CookieParam>
    decreases cookies.len(),
{
    if cookies.len() == 0 {
        Seq::empty()
    } else if drop_reason(cookies.last(), now) is None {
        params_of(cookies.drop_last(), now).push(param_of(cookies.last()))
    } else {
        params_of(cookies.drop_last(), now)
    }
}

/// How many cookies are dropped for this reason.
pub open spec fn drops_of(cookies: Seq<Cookie>, now: Scalar, reason: DropReason) -> nat
    decreases cookies.len(),
{
    if cookies.len() == 0 {
        0
    } else {
        drops_of(cookies.drop_last(), now, reason) + if drop_reason(cookies.last(), now) == Some(
            reason,
        ) {
            1nat
        } else {
            0nat
        }
    }
}

fn count_drop(counts: &mut DropCounts, reason: DropReason)
    requires
        old(counts).sum() < u32::MAX,
    ensures
        final(counts).sum() == old(counts).sum() + 1,
        forall|other: DropReason| #[trigger]
            final(counts).of(other) == old(counts).of(other) + if other == reason {
                1nat
            } else {
                0nat
            },
{
    match reason {
        DropReason::SameSiteNoneInsecure => counts.same_site_none_insecure += 1,
        DropReason::Expired => counts.expired += 1,
        DropReason::OpaquePartition => counts.opaque_partition += 1,
        DropReason::InvalidPrefix => counts.invalid_prefix += 1,
        DropReason::Oversized => counts.oversized += 1,
    }
}

/// Whether the name's prefix agrees with the attributes. A captured cookie
/// that violates it is corrupt and would fail the whole `setCookies` batch.
pub fn prefix_ok(cookie: &Cookie) -> (r: bool)
    ensures
        r == prefix_fits(*cookie),
{
    if let Some(rest) = text::strip_prefix(cookie.name.as_str(), "__Host-") {
        let named = rest.as_str().unicode_len() > 0;
        return named && cookie.secure && text::same(cookie.path.as_str(), "/")
            && !text::starts_with_char(cookie.domain.as_str(), '.');
    }
    if let Some(rest) = text::strip_prefix(cookie.name.as_str(), "__Secure-") {
        let named = rest.as_str().unicode_len() > 0;
        return named && cookie.secure;
    }
    true
}

fn oversized(cookie: &Cookie) -> (r: bool)
    ensures
        r == (cookie_bytes(*cookie) > MAX_COOKIE_BYTES),
{
    let name: usize = cookie.name.as_str().as_bytes().len();
    let value: usize = cookie.value.as_str().as_bytes().len();
    name > MAX_COOKIE_BYTES || value > MAX_COOKIE_BYTES - name
}

/// Turns one captured cookie into a set-parameter, or says why it is dropped.
pub fn to_param(cookie: &Cookie, now_secs: Scalar) -> (r: Result<CookieParam, DropReason>)
    ensures
        match drop_reason(*cookie, now_secs) {
            Some(reason) => r == Err::<CookieParam, DropReason>(reason),
            None => r == Ok::<CookieParam, DropReason>(param_of(*cookie)),
        },
        r matches Ok(p) ==> {
            &&& p.name@ == cookie.name@
            &&& p.value@ == cookie.value@
            &&& p.domain@ == cookie.domain@
            &&& p.path@ == cookie.path@
            &&& p.secure == cookie.secure
            &&& p.http_only == cookie.http_only
            &&& p.same_site == cookie.same_site
            &&& p.priority == cookie.priority
            &&& p.source_scheme == cookie.source_scheme
            &&& p.source_port == cookie.source_port
            &&& p.partition_key == cookie.partition_key
            &&& p.expires is Some ==> p.expires == Some(cookie.expires)
            &&& p.expires is None <==> cookie.expires.less(Scalar { bits: 0 })
        },
{
    if cookie.partition_key_opaque {
        return Err(DropReason::OpaquePartition);
    }
    let none = match cookie.same_site {
        Some(SameSite::NoRestriction) => true,
        _ => false,
    };
    if none && !cookie.secure {
        return Err(DropReason::SameSiteNoneInsecure);
    }
    let session = cookie.expires.lt(Scalar { bits: 0 });
    if !session && cookie.expires.lt(now_secs) {
        return Err(DropReason::Expired);
    }
    if !prefix_ok(cookie) {
        return Err(DropReason::InvalidPrefix);
    }
    if oversized(cookie) {
        return Err(DropReason::Oversized);
    }
    Ok(
        CookieParam {
            name: cookie.name.clone(),
            value: cookie.value.clone(),
            domain: cookie.domain.clone(),
            path: cookie.path.clone(),
            expires: if session {
                None
            } else {
                Some(cookie.expires)
            },
            secure: cookie.secure,
            http_only: cookie.http_only,
            same_site: cookie.same_site,
            priority: cookie.priority.clone(),
            source_scheme: cookie.source_scheme.clone(),
            source_port: cookie.source_port,
            partition_key: cookie.partition_key.clone(),
        },
    )
}

/// Turns captured cookies into a safe `setCookies` payload, dropping only those
/// that cannot be faithfully and safely reproduced. `now_secs` is the current
/// time (seconds since epoch) used for the expiry check.
///
/// Every retained cookie carries all of its original security attributes
/// verbatim. One malformed cookie never aborts the batch.
pub fn sanitize(cookies: &[Cookie], now_secs: Scalar) -> (r: (Vec<CookieParam>, DropCounts))
    requires
        cookies@.len() <= u32::MAX,
    ensures
        r.0@ == params_of(cookies@, now_secs),
        forall|reason: DropReason| #[trigger] r.1.of(reason) == drops_of(cookies@, now_secs, reason),
        r.0@.len() + r.1.sum() == cookies@.len(),
{
    let mut params: Vec<CookieParam> = Vec::new();
    let mut dropped = DropCounts::default();
    let mut i: usize = 0;
    assert(cookies@.take(0) =~= Seq::empty());
    while i < cookies.len()
        invariant
            i <= cookies@.len() <= u32::MAX,
            params@ == params_of(cookies@.take(i as int), now_secs),
            forall|reason: DropReason| #[trigger]
                dropped.of(reason) == drops_of(cookies@.take(i as int), now_secs, reason),
            params@.len() + dropped.sum() == i,
        decreases cookies.len() - i,
    {
        proof {
            let t = cookies@.take(i + 1);
            assert(t.drop_last() =~= cookies@.take(i as int));
            assert(t.last() == cookies@[i as int]);
        }
        match to_param(&cookies[i], now_secs) {
            Ok(param) => params.push(param),
            Err(reason) => count_drop(&mut dropped, reason),
        }
        i += 1;
    }
    assert(cookies@.take(i as int) =~= cookies@);
    (params, dropped)
}

/// Every cookie that is kept carries the attributes of some captured cookie
/// that is not dropped, verbatim: nothing is rewritten to make it fit.
pub proof fn attributes_survive(cookies: Seq<Cookie>, now: Scalar, k: int)
    requires
        0 <= k < params_of(cookies, now).len(),
    ensures
        exists|i: int|
            0 <= i < cookies.len() && drop_reason(#[trigger] cookies[i], now) is None && params_of(
                cookies,
                now,
            )[k] == param_of(cookies[i]),
    decreases cookies.len(),
{
    let t = cookies.drop_last();
    if drop_reason(cookies.last(), now) is None && k == params_of(cookies, now).len() - 1 {
        assert(cookies[cookies.len() - 1] == cookies.last());
    } else {
        attributes_survive(t, now, k);
        let i = choose|i: int|
            0 <= i < t.len() && drop_reason(#[trigger] t[i], now) is None && params_of(t, now)[k]
                == param_of(t[i]);
        assert(cookies[i] == t[i]);
    }
}

/// One bad cookie never drops a good one: what is kept of a batch is what is
/// kept of its parts, and what is dropped of it adds up, reason by reason.
pub proof fn batches_are_independent(a: Seq<Cookie>, b: Seq<Cookie>, now: Scalar)
    ensures
        params_of(a + b, now) == params_of(a, now) + params_of(b, now),
        forall|reason: DropReason| #[trigger]
            drops_of(a + b, now, reason) == drops_of(a, now, reason) + drops_of(b, now, reason),
    decreases b.len(),
{
    if b.len() == 0 {
        assert(a + b =~= a);
        assert(params_of(a, now) + params_of(b, now) =~= params_of(a, now));
    } else {
        assert((a + b).drop_last() =~= a + b.drop_last());
        assert((a + b).last() == b.last());
        batches_are_independent(a, b.drop_last(), now);
        assert(params_of(a + b, now) =~= params_of(a, now) + params_of(b, now));
        assert forall|reason: DropReason| #[trigger] drops_of(a + b, now, reason) == drops_of(
            a,
            now,
            reason,
        ) + drops_of(b, now, reason) by {
            assert(drops_of(a + b.drop_last(), now, reason) == drops_of(a, now, reason) + drops_of(
                b.drop_last(),
                now,
                reason,
            ));
        }
    }
}

/// The word for a policy on the wire.
pub open spec fn policy_word(policy: SameSite) -> Seq<char> {
    match policy {
        SameSite::Strict => "Strict"@,
        SameSite::Lax => "Lax"@,
        SameSite::NoRestriction => "None"@,
    }
}

fn policy(p: SameSite) -> (r: &'static str)
    ensures
        r@ == policy_word(p),
{
    match p {
        SameSite::Strict => "Strict",
        SameSite::Lax => "Lax",
        SameSite::NoRestriction => "None",
    }
}

/// A partition key as JSON.
pub open spec fn partition_json(key: PartitionKey) -> JsonView {
    JsonView::Object(
        seq![
            ("topLevelSite"@, JsonView::Str(key.top_level_site@)),
            ("hasCrossSiteAncestor"@, JsonView::Bool(key.has_cross_site_ancestor)),
        ],
    )
}

fn partition(key: &PartitionKey) -> (r: Json)
    ensures
        r@ == partition_json(*key),
{
    let mut members: Vec<Member> = Vec::new();
    members.push(json::member("topLevelSite", Json::string(key.top_level_site.as_str())));
    members.push(json::member("hasCrossSiteAncestor", Json::Bool(key.has_cross_site_ancestor)));
    assert(json::members_view(members@) =~= partition_json(*key)->Object_0);
    Json::object(members)
}

/// A member, if there is a value for it.
pub open spec fn maybe(key: Seq<char>, value: Option<JsonView>) -> Seq<(Seq<char>, JsonView)> {
    match value {
        Some(v) => seq![(key, v)],
        None => Seq::empty(),
    }
}

/// A string as JSON, if there is one.
pub open spec fn text_json(s: Option<String>) -> Option<JsonView> {
    match s {
        Some(t) => Some(JsonView::Str(t@)),
        None => None,
    }
}

/// A cookie parameter as it is sent, member by member: what is absent is left
/// out. `expiry` is the text of the number of seconds in `expires`.
pub open spec fn param_members(p: CookieParam, expiry: Seq<char>) -> Seq<(Seq<char>, JsonView)> {
    seq![
        ("name"@, JsonView::Str(p.name@)),
        ("value"@, JsonView::Str(p.value@)),
        ("domain"@, JsonView::Str(p.domain@)),
        ("path"@, JsonView::Str(p.path@)),
    ] + maybe(
        "expires"@,
        if p.expires is Some {
            Some(JsonView::Real(expiry))
        } else {
            None
        },
    ) + seq![("secure"@, JsonView::Bool(p.secure)), ("httpOnly"@, JsonView::Bool(p.http_only))]
        + maybe(
        "sameSite"@,
        match p.same_site {
            Some(policy) => Some(JsonView::Str(policy_word(policy))),
            None => None,
        },
    ) + maybe("priority"@, text_json(p.priority)) + maybe(
        "sourceScheme"@,
        text_json(p.source_scheme),
    ) + maybe(
        "sourcePort"@,
        match p.source_port {
            Some(n) => Some(json::integer_form(n)),
            None => None,
        },
    ) + maybe(
        "partitionKey"@,
        match p.partition_key {
            Some(key) => Some(partition_json(key)),
            None => None,
        },
    )
}

fn add_member(members: &mut Vec<Member>, key: &str, value: Json)
    ensures
        json::members_view(final(members)@) == json::members_view(old(members)@) + maybe(
            key@,
            Some(value@),
        ),
{
    members.push(json::member(key, value));
    assert(json::members_view(members@) =~= json::members_view(old(members)@) + maybe(
        key@,
        Some(value@),
    ));
}

fn add_text(members: &mut Vec<Member>, key: &str, value: &Option<String>)
    ensures
        json::members_view(final(members)@) == json::members_view(old(members)@) + maybe(
            key@,
            text_json(*value),
        ),
{
    match value {
        Some(t) => {
            add_member(members, key, Json::string(t.as_str()));
        },
        None => {
            assert(json::members_view(members@) + Seq::empty() =~= json::members_view(members@));
        },
    }
}

/// A cookie parameter as it is sent. `expiry` is the text of the number of
/// seconds in `expires`, if there is one.
pub fn param_json(p: &CookieParam, expiry: &str) -> (r: Json)
    ensures
        r@ == JsonView::Object(param_members(*p, expiry@)),
{
    let mut members: Vec<Member> = Vec::new();
    members.push(json::member("name", Json::string(p.name.as_str())));
    members.push(json::member("value", Json::string(p.value.as_str())));
    members.push(json::member("domain", Json::string(p.domain.as_str())));
    members.push(json::member("path", Json::string(p.path.as_str())));
    let ghost scope = seq![
        ("name"@, JsonView::Str(p.name@)),
        ("value"@, JsonView::Str(p.value@)),
        ("domain"@, JsonView::Str(p.domain@)),
        ("path"@, JsonView::Str(p.path@)),
    ];
    assert(json::members_view(members@) =~= scope);
    if p.expires.is_some() {
        add_member(&mut members, "expires", Json::Real(expiry.to_owned()));
    }
    let ghost dated = scope + maybe(
        "expires"@,
        if p.expires is Some {
            Some(JsonView::Real(expiry@))
        } else {
            None
        },
    );
    assert(json::members_view(members@) =~= dated);
    members.push(json::member("secure", Json::Bool(p.secure)));
    members.push(json::member("httpOnly", Json::Bool(p.http_only)));
    let ghost flagged = dated + seq![
        ("secure"@, JsonView::Bool(p.secure)),
        ("httpOnly"@, JsonView::Bool(p.http_only)),
    ];
    assert(json::members_view(members@) =~= flagged);
    if let Some(s) = p.same_site {
        add_member(&mut members, "sameSite", Json::string(policy(s)));
    }
    let ghost placed = flagged + maybe(
        "sameSite"@,
        match p.same_site {
            Some(policy) => Some(JsonView::Str(policy_word(policy))),
            None => None,
        },
    );
    assert(json::members_view(members@) =~= placed);
    add_text(&mut members, "priority", &p.priority);
    add_text(&mut members, "sourceScheme", &p.source_scheme);
    let ghost sourced = placed + maybe("priority"@, text_json(p.priority)) + maybe(
        "sourceScheme"@,
        text_json(p.source_scheme),
    );
    assert(json::members_view(members@) == sourced);
    if let Some(n) = p.source_port {
        add_member(
            &mut members,
            "sourcePort",
            if n < 0 {
                Json::Int(n)
            } else {
                Json::UInt(n as u64)
            },
        );
    }
    let ghost with_port = sourced + maybe(
        "sourcePort"@,
        match p.source_port {
            Some(n) => Some(json::integer_form(n)),
            None => None,
        },
    );
    assert(json::members_view(members@) =~= with_port);
    if let Some(key) = &p.partition_key {
        add_member(&mut members, "partitionKey", partition(key));
    }
    assert(json::members_view(members@) =~= param_members(*p, expiry@));
    Json::object(members)
}

/// A set-parameter says of its cookie what the cookie says, attribute by
/// attribute; only the expiry is left out, and only if it is negative.
pub proof fn set_parameter_is_verbatim(cookie: Cookie)
    ensures
        ({
            let p = param_of(cookie);
            &&& p.name == cookie.name
            &&& p.value == cookie.value
            &&& p.domain == cookie.domain
            &&& p.path == cookie.path
            &&& p.secure == cookie.secure
            &&& p.http_only == cookie.http_only
            &&& p.same_site == cookie.same_site
            &&& p.priority == cookie.priority
            &&& p.source_scheme == cookie.source_scheme
            &&& p.source_port == cookie.source_port
            &&& p.partition_key == cookie.partition_key
            &&& cookie.expires.less(Scalar { bits: 0 }) ==> p.expires is None
            &&& !cookie.expires.less(Scalar { bits: 0 }) ==> p.expires == Some(cookie.expires)
        }),
{
}

/// A cookie is kept exactly if nothing speaks against it: its partition key can
/// be told, `SameSite=None` comes with `secure`, it is a session cookie or not
/// past its expiry, its name's prefix agrees with its attributes, and name and
/// value have at most 4096 bytes together.
pub proof fn cookie_is_kept_unless_unsafe(cookie: Cookie, now: Scalar)
    ensures
        ({
            let named_host = text::has_prefix(cookie.name@, "__Host-"@);
            let named_secure = text::has_prefix(cookie.name@, "__Secure-"@);
            let session = cookie.expires.less(Scalar { bits: 0 });
            let kept = drop_reason(cookie, now) is None;
            &&& kept ==> !cookie.partition_key_opaque
            &&& kept ==> (cookie.same_site == Some(SameSite::NoRestriction) ==> cookie.secure)
            &&& kept ==> session || !cookie.expires.less(now)
            &&& kept && named_host ==> cookie.secure && cookie.path@ == seq!['/']
                && cookie.name@.len() > 7 && !(cookie.domain@.len() > 0 && cookie.domain@[0] == '.')
            &&& kept && named_secure ==> cookie.secure && cookie.name@.len() > 9
            &&& kept ==> vstd::utf8::encode_utf8(cookie.name@).len() + vstd::utf8::encode_utf8(
                cookie.value@,
            ).len() <= 4096
            &&& !kept ==> {
                ||| cookie.partition_key_opaque
                ||| cookie.same_site == Some(SameSite::NoRestriction) && !cookie.secure
                ||| !session && cookie.expires.less(now)
                ||| named_host && (!cookie.secure || cookie.path@ != seq!['/']
                    || cookie.name@.len() == 7 || (cookie.domain@.len() > 0 && cookie.domain@[0]
                    == '.'))
                ||| named_secure && (!cookie.secure || cookie.name@.len() == 9)
                ||| vstd::utf8::encode_utf8(cookie.name@).len() + vstd::utf8::encode_utf8(
                    cookie.value@,
                ).len() > 4096
            }
        }),
{
    reveal_strlit("__Host-");
    reveal_strlit("__Secure-");
    reveal_strlit("/");
    assert("/"@ =~= seq!['/']);
    if text::has_prefix(cookie.name@, "__Host-"@) && text::has_prefix(
        cookie.name@,
        "__Secure-"@,
    ) {
        assert("__Host-"@[2] == cookie.name@.take(7)[2]);
        assert("__Secure-"@[2] == cookie.name@.take(9)[2]);
    }
}

/// A cookie that is dropped is counted under a reason that holds of it, and no
/// cookie that is kept is counted.
pub proof fn drops_are_counted_for_their_reason(cookie: Cookie, now: Scalar)
    ensures
        match drop_reason(cookie, now) {
            Some(DropReason::OpaquePartition) => cookie.partition_key_opaque,
            Some(DropReason::SameSiteNoneInsecure) => cookie.same_site == Some(
                SameSite::NoRestriction,
            ) && !cookie.secure,
            Some(DropReason::Expired) => cookie.expires.less(now) && !cookie.expires.less(
                Scalar { bits: 0 },
            ),
            Some(DropReason::InvalidPrefix) => text::has_prefix(cookie.name@, "__Host-"@)
                || text::has_prefix(cookie.name@, "__Secure-"@),
            Some(DropReason::Oversized) => vstd::utf8::encode_utf8(cookie.name@).len()
                + vstd::utf8::encode_utf8(cookie.value@).len() > 4096,
            None => true,
        },
        forall|reason: DropReason| #[trigger]
            drops_of(seq![cookie], now, reason) == (if drop_reason(cookie, now) == Some(reason) {
                1nat
            } else {
                0nat
            }),
{
    let one = seq![cookie];
    assert(one.drop_last() =~= Seq::empty());
    assert forall|reason: DropReason| #[trigger] drops_of(one, now, reason) == (if drop_reason(
        cookie,
        now,
    ) == Some(reason) {
        1nat
    } else {
        0nat
    }) by {
        assert(drops_of(one.drop_last(), now, reason) == 0);
    }
}

/// Each reason has its own counter.
pub proof fn counters_are_kept_apart(counts: DropCounts)
    ensures
        counts.of(DropReason::SameSiteNoneInsecure) == counts.same_site_none_insecure,
        counts.of(DropReason::Expired) == counts.expired,
        counts.of(DropReason::OpaquePartition) == counts.opaque_partition,
        counts.of(DropReason::InvalidPrefix) == counts.invalid_prefix,
        counts.of(DropReason::Oversized) == counts.oversized,
        counts.sum() == counts.same_site_none_insecure + counts.expired + counts.opaque_partition
            + counts.invalid_prefix + counts.oversized,
{
}

/// A batch of one cookie that is kept is that cookie's parameter; of one that
/// is dropped, nothing. Together with the law on batches this says which
/// cookies are kept, in which order.
pub proof fn batch_of_one(cookie: Cookie, now: Scalar)
    ensures
        drop_reason(cookie, now) is None ==> params_of(seq![cookie], now).len() == 1 && ({
            let p = params_of(seq![cookie], now)[0];
            &&& p.name == cookie.name && p.value == cookie.value && p.domain == cookie.domain
                && p.path == cookie.path
            &&& p.secure == cookie.secure && p.http_only == cookie.http_only && p.same_site
                == cookie.same_site && p.partition_key == cookie.partition_key
            &&& p.priority == cookie.priority && p.source_scheme == cookie.source_scheme
                && p.source_port == cookie.source_port
        }),
        drop_reason(cookie, now) is Some ==> params_of(seq![cookie], now).len() == 0,
{
    let one = seq![cookie];
    assert(one.drop_last() =~= Seq::empty());
    assert(params_of(one.drop_last(), now).len() == 0);
}

proof fn keys_of_both(
    a: Seq<(Seq<char>, JsonView)>,
    b: Seq<(Seq<char>, JsonView)>,
    key: Seq<char>,
)
    ensures
        json::has_key(a + b, key) <==> json::has_key(a, key) || json::has_key(b, key),
        forall|m: (Seq<char>, JsonView)| #[trigger]
            (a + b).contains(m) <==> a.contains(m) || b.contains(m),
{
    let c = a + b;
    if json::has_key(a, key) {
        let i = choose|i: int| 0 <= i < a.len() && (#[trigger] a[i]).0 == key;
        assert(c[i].0 == key);
    }
    if json::has_key(b, key) {
        let i = choose|i: int| 0 <= i < b.len() && (#[trigger] b[i]).0 == key;
        assert(c[a.len() + i].0 == key);
    }
    if json::has_key(c, key) {
        let i = choose|i: int| 0 <= i < c.len() && (#[trigger] c[i]).0 == key;
        if i < a.len() {
            assert(a[i].0 == key);
        } else {
            assert(b[i - a.len()].0 == key);
        }
    }
    assert forall|m: (Seq<char>, JsonView)| #[trigger] c.contains(m) <==> a.contains(m)
        || b.contains(m) by {
        if a.contains(m) {
            let i = choose|i: int| 0 <= i < a.len() && a[i] == m;
            assert(c[i] == m);
        }
        if b.contains(m) {
            let i = choose|i: int| 0 <= i < b.len() && b[i] == m;
            assert(c[a.len() + i] == m);
        }
        if c.contains(m) {
            let i = choose|i: int| 0 <= i < c.len() && c[i] == m;
            if i < a.len() {
                assert(a[i] == m);
            } else {
                assert(b[i - a.len()] == m);
            }
        }
    }
}

proof fn one_maybe(key: Seq<char>, value: Option<JsonView>)
    ensures
        value matches Some(v) ==> maybe(key, value).contains((key, v)),
        forall|k: Seq<char>| #[trigger]
            json::has_key(maybe(key, value), k) <==> value is Some && k == key,
{
    if let Some(v) = value {
        assert(maybe(key, value)[0] == (key, v));
        assert forall|k: Seq<char>| #[trigger] json::has_key(maybe(key, value), k) <==> k == key by {
            if k == key {
                assert(maybe(key, value)[0].0 == key);
            }
        }
    }
}

/// What is sent of a cookie is what its parameter says, under the names that
/// the protocol has for it: name, value, scope and flags always; each other
/// attribute if there is one.
pub proof fn sent_cookie_says_what_its_parameter_says(p: CookieParam, expiry: Seq<char>)
    ensures
        ({
            let members = param_members(p, expiry);
            &&& members.contains(("name"@, JsonView::Str(p.name@)))
            &&& members.contains(("value"@, JsonView::Str(p.value@)))
            &&& members.contains(("domain"@, JsonView::Str(p.domain@)))
            &&& members.contains(("path"@, JsonView::Str(p.path@)))
            &&& members.contains(("secure"@, JsonView::Bool(p.secure)))
            &&& members.contains(("httpOnly"@, JsonView::Bool(p.http_only)))
            &&& p.expires is Some ==> members.contains(("expires"@, JsonView::Real(expiry)))
            &&& p.same_site == Some(SameSite::Strict) ==> members.contains(
                ("sameSite"@, JsonView::Str("Strict"@)),
            )
            &&& p.same_site == Some(SameSite::Lax) ==> members.contains(
                ("sameSite"@, JsonView::Str("Lax"@)),
            )
            &&& p.same_site == Some(SameSite::NoRestriction) ==> members.contains(
                ("sameSite"@, JsonView::Str("None"@)),
            )
            &&& p.priority matches Some(t) ==> members.contains(("priority"@, JsonView::Str(t@)))
            &&& p.source_scheme matches Some(t) ==> members.contains(
                ("sourceScheme"@, JsonView::Str(t@)),
            )
            &&& p.source_port matches Some(n) ==> members.contains(
                (
                    "sourcePort"@,
                    if n < 0 {
                        JsonView::Int(n)
                    } else {
                        JsonView::UInt(n as u64)
                    },
                ),
            )
            &&& p.partition_key matches Some(key) ==> members.contains(
                (
                    "partitionKey"@,
                    JsonView::Object(
                        seq![
                            ("topLevelSite"@, JsonView::Str(key.top_level_site@)),
                            ("hasCrossSiteAncestor"@, JsonView::Bool(key.has_cross_site_ancestor)),
                        ],
                    ),
                ),
            )
        }),
{
    let scope = seq![
        ("name"@, JsonView::Str(p.name@)),
        ("value"@, JsonView::Str(p.value@)),
        ("domain"@, JsonView::Str(p.domain@)),
        ("path"@, JsonView::Str(p.path@)),
    ];
    let expires = if p.expires is Some {
        Some(JsonView::Real(expiry))
    } else {
        None
    };
    let flags = seq![("secure"@, JsonView::Bool(p.secure)), ("httpOnly"@, JsonView::Bool(p.http_only))];
    let policy = match p.same_site {
        Some(policy) => Some(JsonView::Str(policy_word(policy))),
        None => None,
    };
    let port = match p.source_port {
        Some(n) => Some(json::integer_form(n)),
        None => None,
    };
    let partition = match p.partition_key {
        Some(key) => Some(partition_json(key)),
        None => None,
    };
    let m1 = scope + maybe("expires"@, expires);
    let m2 = m1 + flags;
    let m3 = m2 + maybe("sameSite"@, policy);
    let m4 = m3 + maybe("priority"@, text_json(p.priority));
    let m5 = m4 + maybe("sourceScheme"@, text_json(p.source_scheme));
    let m6 = m5 + maybe("sourcePort"@, port);
    let m7 = m6 + maybe("partitionKey"@, partition);
    assert(m7 == param_members(p, expiry));
    one_maybe("expires"@, expires);
    one_maybe("sameSite"@, policy);
    one_maybe("priority"@, text_json(p.priority));
    one_maybe("sourceScheme"@, text_json(p.source_scheme));
    one_maybe("sourcePort"@, port);
    one_maybe("partitionKey"@, partition);
    assert(scope.contains(scope[0]) && scope.contains(scope[1]) && scope.contains(scope[2])
        && scope.contains(scope[3]));
    assert(flags.contains(flags[0]) && flags.contains(flags[1]));
    keys_through(scope, maybe("expires"@, expires), flags, "name"@);
    keys_of_both(m2, maybe("sameSite"@, policy), "name"@);
    keys_of_both(m3, maybe("priority"@, text_json(p.priority)), "name"@);
    keys_of_both(m4, maybe("sourceScheme"@, text_json(p.source_scheme)), "name"@);
    keys_of_both(m5, maybe("sourcePort"@, port), "name"@);
    keys_of_both(m6, maybe("partitionKey"@, partition), "name"@);
    assert(m7.contains(scope[0]) && m7.contains(scope[1]) && m7.contains(scope[2]) && m7.contains(
        scope[3],
    ));
    assert(m7.contains(flags[0]) && m7.contains(flags[1]));
    if let Some(v) = expires {
        assert(m2.contains(("expires"@, v)));
    }
    if let Some(v) = policy {
        assert(m3.contains(("sameSite"@, v)));
    }
    if let Some(v) = text_json(p.priority) {
        assert(m4.contains(("priority"@, v)));
    }
    if let Some(v) = text_json(p.source_scheme) {
        assert(m5.contains(("sourceScheme"@, v)));
    }
    if let Some(v) = port {
        assert(m6.contains(("sourcePort"@, v)));
    }
    if let Some(v) = partition {
        assert(m7.contains(("partitionKey"@, v)));
    }
}

/// What is absent of a cookie is left out: a session cookie is sent without an
/// expiry, one without a policy without one, and one that is not partitioned
/// without a partition key. Nothing is sent beyond what is there.
pub proof fn absent_attributes_are_not_sent(p: CookieParam, expiry: Seq<char>)
    ensures
        json::has_key(param_members(p, expiry), "expires"@) ==> p.expires is Some,
        json::has_key(param_members(p, expiry), "sameSite"@) ==> p.same_site is Some,
        json::has_key(param_members(p, expiry), "partitionKey"@) ==> p.partition_key is Some,
        param_members(p, expiry).len() == 6 + (if p.expires is Some {
            1int
        } else {
            0
        }) + (if p.same_site is Some {
            1int
        } else {
            0
        }) + (if p.priority is Some {
            1int
        } else {
            0
        }) + (if p.source_scheme is Some {
            1int
        } else {
            0
        }) + (if p.source_port is Some {
            1int
        } else {
            0
        }) + (if p.partition_key is Some {
            1int
        } else {
            0
        }),
{
    reveal_strlit("expires");
    reveal_strlit("sameSite");
    reveal_strlit("partitionKey");
    assert("expires"@.len() == 7 && "sameSite"@.len() == 8 && "partitionKey"@.len() == 12);
    absent_key(p, expiry, "expires"@);
    absent_key(p, expiry, "sameSite"@);
    absent_key(p, expiry, "partitionKey"@);
}

proof fn absent_key(p: CookieParam, expiry: Seq<char>, key: Seq<char>)
    requires
        key == "expires"@ || key == "sameSite"@ || key == "partitionKey"@,
        key == "expires"@ ==> key.len() == 7,
        key == "sameSite"@ ==> key.len() == 8 && key[0] == 's',
        key == "partitionKey"@ ==> key.len() == 12 && key[0] == 'p',
    ensures
        json::has_key(param_members(p, expiry), key) ==> (key == "expires"@ && p.expires is Some)
            || (key == "sameSite"@ && p.same_site is Some) || (key == "partitionKey"@
            && p.partition_key is Some),
{
    reveal_strlit("name");
    reveal_strlit("value");
    reveal_strlit("domain");
    reveal_strlit("path");
    reveal_strlit("expires");
    reveal_strlit("secure");
    reveal_strlit("httpOnly");
    reveal_strlit("sameSite");
    reveal_strlit("priority");
    reveal_strlit("sourceScheme");
    reveal_strlit("sourcePort");
    reveal_strlit("partitionKey");
    let scope = seq![
        ("name"@, JsonView::Str(p.name@)),
        ("value"@, JsonView::Str(p.value@)),
        ("domain"@, JsonView::Str(p.domain@)),
        ("path"@, JsonView::Str(p.path@)),
    ];
    let expires = if p.expires is Some {
        Some(JsonView::Real(expiry))
    } else {
        None
    };
    let flags = seq![("secure"@, JsonView::Bool(p.secure)), ("httpOnly"@, JsonView::Bool(p.http_only))];
    let policy = match p.same_site {
        Some(policy) => Some(JsonView::Str(policy_word(policy))),
        None => None,
    };
    let port = match p.source_port {
        Some(n) => Some(json::integer_form(n)),
        None => None,
    };
    let partition = match p.partition_key {
        Some(key) => Some(partition_json(key)),
        None => None,
    };
    let m1 = scope + maybe("expires"@, expires);
    let m2 = m1 + flags;
    let m3 = m2 + maybe("sameSite"@, policy);
    let m4 = m3 + maybe("priority"@, text_json(p.priority));
    let m5 = m4 + maybe("sourceScheme"@, text_json(p.source_scheme));
    let m6 = m5 + maybe("sourcePort"@, port);
    let m7 = m6 + maybe("partitionKey"@, partition);
    assert(m7 == param_members(p, expiry));
    one_maybe("expires"@, expires);
    one_maybe("sameSite"@, policy);
    one_maybe("priority"@, text_json(p.priority));
    one_maybe("sourceScheme"@, text_json(p.source_scheme));
    one_maybe("sourcePort"@, port);
    one_maybe("partitionKey"@, partition);
    keys_through(scope, maybe("expires"@, expires), flags, key);
    keys_of_both(m2, maybe("sameSite"@, policy), key);
    keys_of_both(m3, maybe("priority"@, text_json(p.priority)), key);
    keys_of_both(m4, maybe("sourceScheme"@, text_json(p.source_scheme)), key);
    keys_of_both(m5, maybe("sourcePort"@, port), key);
    keys_of_both(m6, maybe("partitionKey"@, partition), key);
    assert(!json::has_key(scope, key)) by {
        assert forall|i: int| 0 <= i < scope.len() implies (#[trigger] scope[i]).0 != key by {
            assert(scope[i].0.len() < 7);
        }
    }
    assert(!json::has_key(flags, key)) by {
        assert forall|i: int| 0 <= i < flags.len() implies (#[trigger] flags[i]).0 != key by {
            assert(flags[i].0[0] == (if i == 0 {
                's'
            } else {
                'h'
            }));
        }
    }
    assert("priority"@ != key && "sourcePort"@ != key);
    assert("sourceScheme"@ != key) by {
        assert("sourceScheme"@[0] == 's');
    }
}

proof fn keys_through(
    a: Seq<(Seq<char>, JsonView)>,
    b: Seq<(Seq<char>, JsonView)>,
    c: Seq<(Seq<char>, JsonView)>,
    key: Seq<char>,
)
    ensures
        json::has_key(a + b + c, key) <==> json::has_key(a, key) || json::has_key(b, key)
            || json::has_key(c, key),
        forall|m: (Seq<char>, JsonView)| #[trigger]
            (a + b + c).contains(m) <==> a.contains(m) || b.contains(m) || c.contains(m),
{
    keys_of_both(a, b, key);
    keys_of_both(a + b, c, key);
}

} // verus!
