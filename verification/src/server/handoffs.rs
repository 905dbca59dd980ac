//! What the answers of the profile hand-off store say about every call that
//! was made before: the store has no other memory than its calls.

use crate::profile::payload::ProfilePayload;
use crate::server::profiles::{is_fresh, Slot, StoreView};
use vstd::prelude::*;

verus! {

/// A call on the store, with the time at which it was made.
pub enum StoreCall {
    /// A profile is dropped off; this token was minted for it, if any.
    DropOff(Option<Seq<char>>, ProfilePayload, u128),
    /// A profile is claimed by its token.
    Claim(Seq<char>, u128),
    /// A captured profile is deposited under a token.
    Deposit(Seq<char>, ProfilePayload, u128),
    /// A captured profile is picked up by its token.
    PickUp(Seq<char>, u128),
}

impl StoreCall {
    /// When the call was made.
    pub open spec fn at(self) -> u128 {
        match self {
            StoreCall::DropOff(_, _, now) => now,
            StoreCall::Claim(_, now) => now,
            StoreCall::Deposit(_, _, now) => now,
            StoreCall::PickUp(_, now) => now,
        }
    }
}

/// A store that nobody has used.
pub open spec fn new_store(ttl: u128, max_pending: nat) -> StoreView {
    StoreView { held: Map::empty(), ttl, max_pending }
}

/// The store after one call.
pub open spec fn after_call(s: StoreView, call: StoreCall) -> StoreView {
    match call {
        StoreCall::DropOff(minted, payload, now) => s.dropped_off(minted, payload, now).1,
        StoreCall::Claim(token, now) => s.claimed(token, now).1,
        StoreCall::Deposit(token, payload, now) => s.deposited(token, payload, now),
        StoreCall::PickUp(token, now) => s.picked_up(token, now).1,
    }
}

/// The store `s` after these calls.
pub open spec fn after_calls(s: StoreView, calls: Seq<StoreCall>) -> StoreView
    decreases calls.len(),
{
    if calls.len() == 0 {
        s
    } else {
        after_call(after_calls(s, calls.drop_last()), calls.last())
    }
}

/// Whether the calls stand in the order of their times, none later than `now`.
pub open spec fn in_order(calls: Seq<StoreCall>, now: u128) -> bool {
    &&& forall|i: int, j: int|
        0 <= i <= j < calls.len() ==> (#[trigger] calls[i]).at() <= (#[trigger] calls[j]).at()
    &&& forall|i: int| 0 <= i < calls.len() ==> (#[trigger] calls[i]).at() <= now
}

/// The store as the `i`th call found it.
pub open spec fn found_by(s: StoreView, calls: Seq<StoreCall>, i: int) -> StoreView {
    after_calls(s, calls.take(i))
}

/// Whether the `i`th call dropped `payload` off and was given `token` for it.
pub open spec fn gave_token(
    s: StoreView,
    calls: Seq<StoreCall>,
    i: int,
    token: Seq<char>,
    payload: ProfilePayload,
) -> bool {
    0 <= i < calls.len() && match calls[i] {
        StoreCall::DropOff(minted, p, now) => p == payload && found_by(s, calls, i).dropped_off(
            minted,
            p,
            now,
        ).0 == Some(token),
        _ => false,
    }
}

/// Whether the `i`th call gave out `token`, for whatever profile.
pub open spec fn renewed(s: StoreView, calls: Seq<StoreCall>, i: int, token: Seq<char>) -> bool {
    exists|payload: ProfilePayload| gave_token(s, calls, i, token, payload)
}

/// Whether the `i`th call claimed `token` and got its profile.
pub open spec fn claim_answered(
    s: StoreView,
    calls: Seq<StoreCall>,
    i: int,
    token: Seq<char>,
) -> bool {
    0 <= i < calls.len() && match calls[i] {
        StoreCall::Claim(t, now) => t == token && found_by(s, calls, i).claimed(t, now).0 is Some,
        _ => false,
    }
}

/// Whether the `i`th call is a deposit under `token`.
pub open spec fn deposits(calls: Seq<StoreCall>, i: int, token: Seq<char>) -> bool {
    0 <= i < calls.len() && match calls[i] {
        StoreCall::Deposit(t, _, _) => t == token,
        _ => false,
    }
}

/// Whether the `i`th call deposited `payload` under `token`.
pub open spec fn deposited(
    calls: Seq<StoreCall>,
    i: int,
    token: Seq<char>,
    payload: ProfilePayload,
) -> bool {
    0 <= i < calls.len() && match calls[i] {
        StoreCall::Deposit(t, p, _) => t == token && p == payload,
        _ => false,
    }
}

/// Whether the `i`th call picked `token` up and got its profile.
pub open spec fn pick_up_answered(
    s: StoreView,
    calls: Seq<StoreCall>,
    i: int,
    token: Seq<char>,
) -> bool {
    0 <= i < calls.len() && match calls[i] {
        StoreCall::PickUp(t, now) => t == token && found_by(s, calls, i).picked_up(t, now).0
            is Some,
        _ => false,
    }
}

/// Whether what was done at `at` is less than `ttl` ago at `now`.
pub open spec fn recent(at: u128, now: u128, ttl: u128) -> bool {
    now < at + ttl
}

/// Whether the profile under `token` is `payload` and waits to be claimed at
/// `now`: the `i`th call dropped it off for this token, less than the time to
/// live ago, and since then no call claimed it or gave the token out again.
pub open spec fn awaits_claim(
    s: StoreView,
    calls: Seq<StoreCall>,
    i: int,
    token: Seq<char>,
    payload: ProfilePayload,
    now: u128,
) -> bool {
    &&& gave_token(s, calls, i, token, payload)
    &&& recent(calls[i].at(), now, s.ttl)
    &&& forall|j: int|
        i < j < calls.len() ==> !(#[trigger] claim_answered(s, calls, j, token)) && !renewed(
            s,
            calls,
            j,
            token,
        )
}

/// Whether the profile under `token` is out at `now`: the `k`th call claimed
/// it, less than the time to live ago, and since then no call deposited a
/// result under the token or gave it out again.
pub open spec fn awaits_result(
    s: StoreView,
    calls: Seq<StoreCall>,
    k: int,
    token: Seq<char>,
    now: u128,
) -> bool {
    &&& claim_answered(s, calls, k, token)
    &&& recent(calls[k].at(), now, s.ttl)
    &&& forall|j: int|
        k < j < calls.len() ==> !(#[trigger] deposits(calls, j, token)) && !renewed(
            s,
            calls,
            j,
            token,
        )
}

/// Whether the result under `token` is `payload` and waits to be picked up at
/// `now`: the `i`th call deposited it, less than the time to live ago, as the
/// first one after a claim that was answered, in its time; and since then no
/// call picked it up or gave the token out again.
pub open spec fn awaits_pick_up(
    s: StoreView,
    calls: Seq<StoreCall>,
    i: int,
    token: Seq<char>,
    payload: ProfilePayload,
    now: u128,
) -> bool {
    &&& deposited(calls, i, token, payload)
    &&& recent(calls[i].at(), now, s.ttl)
    &&& exists|k: int| awaits_result(s, calls.take(i), k, token, calls[i].at())
    &&& forall|j: int|
        i < j < calls.len() ==> !(#[trigger] pick_up_answered(s, calls, j, token)) && !renewed(
            s,
            calls,
            j,
            token,
        )
}

/// Whether the `i`th call was a deposit under `token` that the store kept.
spec fn deposit_kept(s: StoreView, calls: Seq<StoreCall>, i: int, token: Seq<char>) -> bool {
    deposits(calls, i, token) && live(
        found_by(s, calls, i),
        token,
        calls[i].at(),
    ) && found_by(s, calls, i).held[token].slot is InFlight
}

/// Whether the store holds something under `token` that has not expired.
spec fn live(s: StoreView, token: Seq<char>, now: u128) -> bool {
    s.held.contains_key(token) && is_fresh(s.held[token], now, s.ttl)
}

/// Whether the `i`th call changed where `token` stands.
spec fn told(s: StoreView, calls: Seq<StoreCall>, i: int, token: Seq<char>) -> bool {
    ||| renewed(s, calls, i, token)
    ||| claim_answered(s, calls, i, token)
    ||| deposit_kept(s, calls, i, token)
    ||| pick_up_answered(s, calls, i, token)
}

/// Whether the `i`th call is the last one that changed where `token` stands.
spec fn told_last(s: StoreView, calls: Seq<StoreCall>, i: int, token: Seq<char>) -> bool {
    &&& told(s, calls, i, token)
    &&& forall|j: int| i < j < calls.len() ==> !#[trigger] told(s, calls, j, token)
}

/// Where a hand-off stands after a call that changed it.
spec fn told_slot(call: StoreCall) -> Option<Slot> {
    match call {
        StoreCall::DropOff(_, payload, _) => Some(Slot::Pending(payload)),
        StoreCall::Claim(_, _) => Some(Slot::InFlight),
        StoreCall::Deposit(_, payload, _) => Some(Slot::Ready(payload)),
        StoreCall::PickUp(_, _) => None,
    }
}

proof fn told_in_front(s: StoreView, calls: Seq<StoreCall>, i: int, token: Seq<char>)
    requires
        0 <= i < calls.len() - 1,
    ensures
        found_by(s, calls, i) == found_by(s, calls.drop_last(), i),
        forall|payload: ProfilePayload| #[trigger]
            gave_token(s, calls, i, token, payload) == gave_token(
                s,
                calls.drop_last(),
                i,
                token,
                payload,
            ),
        renewed(s, calls, i, token) == renewed(s, calls.drop_last(), i, token),
        claim_answered(s, calls, i, token) == claim_answered(s, calls.drop_last(), i, token),
        deposits(calls, i, token) == deposits(calls.drop_last(), i, token),
        deposit_kept(s, calls, i, token) == deposit_kept(s, calls.drop_last(), i, token),
        pick_up_answered(s, calls, i, token) == pick_up_answered(s, calls.drop_last(), i, token),
        told(s, calls, i, token) == told(s, calls.drop_last(), i, token),
{
    let front = calls.drop_last();
    assert(calls.take(i) =~= front.take(i));
    assert(calls[i] == front[i]);
    assert forall|payload: ProfilePayload| #[trigger]
        gave_token(s, calls, i, token, payload) == gave_token(s, front, i, token, payload) by {}
    if renewed(s, calls, i, token) {
        let payload = choose|payload: ProfilePayload| gave_token(s, calls, i, token, payload);
        assert(gave_token(s, front, i, token, payload));
    }
    if renewed(s, front, i, token) {
        let payload = choose|payload: ProfilePayload| gave_token(s, front, i, token, payload);
        assert(gave_token(s, calls, i, token, payload));
    }
}

/// What the store holds under a token, and has not expired, is what the last
/// call that changed it put there.
proof fn store_remembers_the_last_change(
    ttl: u128,
    max_pending: nat,
    calls: Seq<StoreCall>,
    token: Seq<char>,
    now: u128,
)
    requires
        in_order(calls, now),
    ensures
        ({
            let s = new_store(ttl, max_pending);
            let v = after_calls(s, calls);
            &&& v.ttl == ttl
            &&& live(v, token, now) ==> exists|i: int| #[trigger]
                told_last(s, calls, i, token) && told_slot(calls[i]) == Some(v.held[token].slot)
                    && v.held[token].at == calls[i].at()
            &&& forall|i: int| #[trigger]
                told_last(s, calls, i, token) && told_slot(calls[i]) is Some && recent(
                    calls[i].at(),
                    now,
                    ttl,
                ) ==> live(v, token, now) && Some(v.held[token].slot) == told_slot(calls[i])
                    && v.held[token].at == calls[i].at()
        }),
    decreases calls.len(),
{
    let s = new_store(ttl, max_pending);
    let v = after_calls(s, calls);
    if calls.len() > 0 {
        let front = calls.drop_last();
        let last = calls.last();
        let n = front.len() as int;
        let t = last.at();
        let u = after_calls(s, front);
        assert(calls[n] == last);
        assert(in_order(front, t)) by {
            assert forall|i: int, j: int| 0 <= i <= j < front.len() implies (
            #[trigger] front[i]).at() <= (#[trigger] front[j]).at() by {
                assert(calls[i].at() <= calls[j].at());
            }
            assert forall|i: int| 0 <= i < front.len() implies (#[trigger] front[i]).at() <= t by {
                assert(calls[i].at() <= calls[n].at());
            }
        }
        assert(calls.take(n) =~= front);
        assert(t <= now);
        store_remembers_the_last_change(ttl, max_pending, front, token, t);
        assert forall|i: int| 0 <= i < n implies told(s, calls, i, token) == #[trigger] told(
            s,
            front,
            i,
            token,
        ) by {
            told_in_front(s, calls, i, token);
        }
        if told(s, calls, n, token) {
            assert(told_last(s, calls, n, token));
            match last {
                StoreCall::DropOff(_, payload, _) => {
                    assert(renewed(s, calls, n, token));
                    let p = choose|p: ProfilePayload| gave_token(s, calls, n, token, p);
                },
                _ => {
                    assert(!renewed(s, calls, n, token)) by {
                        if renewed(s, calls, n, token) {
                            let p = choose|p: ProfilePayload| gave_token(s, calls, n, token, p);
                        }
                    }
                },
            }
            assert forall|i: int| #[trigger] told_last(s, calls, i, token) implies i == n by {
                assert(told(s, calls, i, token));
                if i < n {
                    assert(told(s, calls, n, token));
                } else if i > n {
                    assert(!told(s, calls, i, token)) by {
                        if renewed(s, calls, i, token) {
                            let p = choose|p: ProfilePayload| gave_token(s, calls, i, token, p);
                        }
                    }
                }
            }
        } else {
            assert forall|i: int| 0 <= i < n implies told_last(s, calls, i, token)
                == #[trigger] told_last(s, front, i, token) by {
                assert(told(s, calls, i, token) == told(s, front, i, token));
                if told_last(s, front, i, token) {
                    assert forall|j: int| i < j < calls.len() implies !#[trigger] told(
                        s,
                        calls,
                        j,
                        token,
                    ) by {
                        if j < n {
                            assert(!told(s, front, j, token));
                        }
                    }
                }
                if told_last(s, calls, i, token) {
                    assert forall|j: int| i < j < front.len() implies !#[trigger] told(
                        s,
                        front,
                        j,
                        token,
                    ) by {
                        assert(!told(s, calls, j, token));
                    }
                }
            }
            // Nothing under this token changed but for what has expired.
            assert(live(u, token, t) ==> v.held.contains_key(token) && v.held[token]
                == u.held[token]) by {
                match last {
                    StoreCall::DropOff(minted, payload, at) => {
                        if u.dropped_off(minted, payload, at).0 == Some(token) {
                            assert(gave_token(s, calls, n, token, payload));
                            assert(renewed(s, calls, n, token));
                        }
                    },
                    _ => {},
                }
            }
            assert(v.held.contains_key(token) && is_fresh(v.held[token], now, ttl) ==> live(
                u,
                token,
                t,
            )) by {
                match last {
                    StoreCall::DropOff(minted, payload, at) => {
                        if u.dropped_off(minted, payload, at).0 == Some(token) {
                            assert(gave_token(s, calls, n, token, payload));
                            assert(renewed(s, calls, n, token));
                        }
                    },
                    _ => {},
                }
            }
            if live(v, token, now) {
                let i = choose|i: int| #[trigger]
                    told_last(s, front, i, token) && told_slot(front[i]) == Some(
                        u.held[token].slot,
                    ) && u.held[token].at == front[i].at();
                within(s, front, i, token);
                assert(front[i] == calls[i]);
                assert(told_last(s, calls, i, token));
            }
            assert forall|i: int| #[trigger]
                told_last(s, calls, i, token) && told_slot(calls[i]) is Some && recent(
                    calls[i].at(),
                    now,
                    ttl,
                ) implies live(v, token, now) && Some(v.held[token].slot) == told_slot(calls[i])
                && v.held[token].at == calls[i].at() by {
                within(s, calls, i, token);
                assert(i < n);
                assert(told_last(s, front, i, token));
                assert(front[i] == calls[i]);
                assert(recent(front[i].at(), t, ttl));
            }
        }
    } else {
        assert forall|i: int| !#[trigger] told_last(s, calls, i, token) by {
            if told_last(s, calls, i, token) {
                within(s, calls, i, token);
            }
        }
    }
}

proof fn within(s: StoreView, calls: Seq<StoreCall>, i: int, token: Seq<char>)
    requires
        told(s, calls, i, token),
    ensures
        0 <= i < calls.len(),
{
    if renewed(s, calls, i, token) {
        let p = choose|p: ProfilePayload| gave_token(s, calls, i, token, p);
    }
}

/// Whether a call may change where `token` stands, when this one changed it
/// last.
spec fn follows(
    s: StoreView,
    calls: Seq<StoreCall>,
    last: StoreCall,
    j: int,
    token: Seq<char>,
) -> bool {
    renewed(s, calls, j, token) || match last {
        StoreCall::DropOff(_, _, _) => claim_answered(s, calls, j, token),
        StoreCall::Claim(_, _) => deposits(calls, j, token),
        StoreCall::Deposit(_, _, _) => pick_up_answered(s, calls, j, token),
        StoreCall::PickUp(_, _) => false,
    }
}

/// A hand-off goes its way in order: what a call put under a token stays until
/// the next call of its way.
proof fn change_stays_until_the_next(
    ttl: u128,
    max_pending: nat,
    calls: Seq<StoreCall>,
    e: int,
    token: Seq<char>,
    now: u128,
)
    requires
        in_order(calls, now),
        told(new_store(ttl, max_pending), calls, e, token),
        forall|j: int|
            e < j < calls.len() ==> !#[trigger] follows(
                new_store(ttl, max_pending),
                calls,
                calls[e],
                j,
                token,
            ),
    ensures
        told_last(new_store(ttl, max_pending), calls, e, token),
    decreases calls.len(),
{
    let s = new_store(ttl, max_pending);
    within(s, calls, e, token);
    let front = calls.drop_last();
    let n = front.len() as int;
    if e < n {
        let last = calls.last();
        let t = last.at();
        let u = after_calls(s, front);
        assert(calls[n] == last);
        assert(calls.take(n) =~= front);
        assert(front[e] == calls[e]);
        assert(in_order(front, t)) by {
            assert forall|i: int, j: int| 0 <= i <= j < front.len() implies (
            #[trigger] front[i]).at() <= (#[trigger] front[j]).at() by {
                assert(calls[i].at() <= calls[j].at());
            }
            assert forall|i: int| 0 <= i < front.len() implies (#[trigger] front[i]).at() <= t by {
                assert(calls[i].at() <= calls[n].at());
            }
        }
        told_in_front(s, calls, e, token);
        assert forall|j: int| e < j < front.len() implies !#[trigger] follows(
            s,
            front,
            front[e],
            j,
            token,
        ) by {
            told_in_front(s, calls, j, token);
            assert(!follows(s, calls, calls[e], j, token));
        }
        change_stays_until_the_next(ttl, max_pending, front, e, token, t);
        store_remembers_the_last_change(ttl, max_pending, front, token, t);
        if live(u, token, t) {
            let i = choose|i: int| #[trigger]
                told_last(s, front, i, token) && told_slot(front[i]) == Some(u.held[token].slot)
                    && u.held[token].at == front[i].at();
            within(s, front, i, token);
            assert(i == e) by {
                if i < e {
                    assert(told(s, front, e, token));
                } else if e < i {
                    assert(told(s, front, i, token));
                }
            }
        }
        assert(!follows(s, calls, calls[e], n, token));
        assert(!told(s, calls, n, token));
        assert forall|j: int| e < j < calls.len() implies !#[trigger] told(s, calls, j, token) by {
            if j < n {
                told_in_front(s, calls, j, token);
                assert(!told(s, front, j, token));
            }
        }
    }
}

/// What the store holds under a token, and has not expired, in terms of the
/// calls before.
proof fn standing(
    ttl: u128,
    max_pending: nat,
    calls: Seq<StoreCall>,
    token: Seq<char>,
    now: u128,
)
    requires
        in_order(calls, now),
    ensures
        ({
            let s = new_store(ttl, max_pending);
            let v = after_calls(s, calls);
            &&& forall|p: ProfilePayload|
                live(v, token, now) && v.held[token].slot == Slot::Pending(p) <==> exists|i: int|
                    #[trigger] awaits_claim(s, calls, i, token, p, now)
            &&& live(v, token, now) && v.held[token].slot is InFlight <==> exists|k: int|
                #[trigger] awaits_result(s, calls, k, token, now)
        }),
{
    let s = new_store(ttl, max_pending);
    let v = after_calls(s, calls);
    store_remembers_the_last_change(ttl, max_pending, calls, token, now);
    if live(v, token, now) {
        let i = choose|i: int| #[trigger]
            told_last(s, calls, i, token) && told_slot(calls[i]) == Some(v.held[token].slot)
                && v.held[token].at == calls[i].at();
        within(s, calls, i, token);
        assert(recent(calls[i].at(), now, ttl));
        assert forall|j: int| i < j < calls.len() implies !(#[trigger] claim_answered(
            s,
            calls,
            j,
            token,
        )) && !renewed(s, calls, j, token) by {
            assert(!told(s, calls, j, token));
        }
        match v.held[token].slot {
            Slot::Pending(p) => {
                let q = choose|q: ProfilePayload| gave_token(s, calls, i, token, q);
                assert(renewed(s, calls, i, token));
                assert(gave_token(s, calls, i, token, p));
                assert(awaits_claim(s, calls, i, token, p, now));
            },
            Slot::InFlight => {
                assert(claim_answered(s, calls, i, token)) by {
                    if renewed(s, calls, i, token) {
                        let q = choose|q: ProfilePayload| gave_token(s, calls, i, token, q);
                    }
                }
                in_flight_saw_no_deposit(ttl, max_pending, calls, i, token, now);
                assert(awaits_result(s, calls, i, token, now)) by {
                    assert forall|j: int| i < j < calls.len() implies !#[trigger] renewed(
                        s,
                        calls,
                        j,
                        token,
                    ) by {
                        assert(!told(s, calls, j, token));
                    }
                }
            },
            Slot::Ready(_) => {},
        }
    }
    assert forall|p: ProfilePayload, i: int| #[trigger]
        awaits_claim(s, calls, i, token, p, now) implies live(v, token, now)
        && v.held[token].slot == Slot::Pending(p) by {
        assert(renewed(s, calls, i, token));
        assert forall|j: int| i < j < calls.len() implies !#[trigger] follows(
            s,
            calls,
            calls[i],
            j,
            token,
        ) by {
            assert(!claim_answered(s, calls, j, token));
        }
        change_stays_until_the_next(ttl, max_pending, calls, i, token, now);
    }
    assert forall|k: int| #[trigger] awaits_result(s, calls, k, token, now) implies live(
        v,
        token,
        now,
    ) && v.held[token].slot is InFlight by {
        assert forall|j: int| k < j < calls.len() implies !#[trigger] follows(
            s,
            calls,
            calls[k],
            j,
            token,
        ) by {
            assert(!deposits(calls, j, token));
        }
        change_stays_until_the_next(ttl, max_pending, calls, k, token, now);
    }
}

/// A claim that was the last change under a token, and has not expired, was
/// followed by no deposit: that would have been kept.
proof fn in_flight_saw_no_deposit(
    ttl: u128,
    max_pending: nat,
    calls: Seq<StoreCall>,
    k: int,
    token: Seq<char>,
    now: u128,
)
    requires
        in_order(calls, now),
        told_last(new_store(ttl, max_pending), calls, k, token),
        claim_answered(new_store(ttl, max_pending), calls, k, token),
        recent(calls[k].at(), now, ttl),
    ensures
        forall|j: int| k < j < calls.len() ==> !#[trigger] deposits(calls, j, token),
{
    let s = new_store(ttl, max_pending);
    assert forall|j: int| k < j < calls.len() implies !#[trigger] deposits(calls, j, token) by {
        if deposits(calls, j, token) {
            let front = calls.take(j);
            let t = calls[j].at();
            prefix_in_order(calls, j, now);
            assert(front[k] == calls[k]);
            assert forall|i: int| 0 <= i < j implies told(s, front, i, token) == #[trigger] told(
                s,
                calls,
                i,
                token,
            ) by {
                told_in_prefix(s, calls, j, i, token);
            }
            assert(told(s, calls, k, token));
            assert(told_last(s, front, k, token)) by {
                assert forall|i: int| k < i < front.len() implies !#[trigger] told(
                    s,
                    front,
                    i,
                    token,
                ) by {
                    assert(!told(s, calls, i, token));
                }
            }
            assert(calls[j].at() <= now);
            store_remembers_the_last_change(ttl, max_pending, front, token, t);
            assert(recent(front[k].at(), t, ttl));
            assert(deposit_kept(s, calls, j, token));
            assert(told(s, calls, j, token));
        }
    }
}

proof fn prefix_in_order(calls: Seq<StoreCall>, j: int, now: u128)
    requires
        in_order(calls, now),
        0 <= j < calls.len(),
    ensures
        in_order(calls.take(j), calls[j].at()),
        calls[j].at() <= now,
{
    let front = calls.take(j);
    assert forall|a: int, b: int| 0 <= a <= b < front.len() implies (#[trigger] front[a]).at()
        <= (#[trigger] front[b]).at() by {
        assert(calls[a].at() <= calls[b].at());
    }
    assert forall|a: int| 0 <= a < front.len() implies (#[trigger] front[a]).at()
        <= calls[j].at() by {
        assert(calls[a].at() <= calls[j].at());
    }
}

proof fn told_in_prefix(s: StoreView, calls: Seq<StoreCall>, j: int, i: int, token: Seq<char>)
    requires
        0 <= i < j <= calls.len(),
    ensures
        renewed(s, calls, i, token) == renewed(s, calls.take(j), i, token),
        claim_answered(s, calls, i, token) == claim_answered(s, calls.take(j), i, token),
        told(s, calls, i, token) == told(s, calls.take(j), i, token),
    decreases calls.len(),
{
    if j == calls.len() {
        assert(calls.take(j) =~= calls);
    } else {
        told_in_front(s, calls, i, token);
        told_in_prefix(s, calls.drop_last(), j, i, token);
        assert(calls.drop_last().take(j) =~= calls.take(j));
    }
}

/// Whatever calls were made before: a claim gets a profile exactly if that was
/// dropped off for this token less than the time to live ago and no claim got
/// it since; otherwise it gets nothing, and what has not expired stays as it
/// is.
pub proof fn claim_is_answered_by_the_calls_before(
    ttl: u128,
    max_pending: nat,
    calls: Seq<StoreCall>,
    token: Seq<char>,
    now: u128,
)
    requires
        in_order(calls, now),
    ensures
        ({
            let s = new_store(ttl, max_pending);
            let v = after_calls(s, calls);
            &&& forall|p: ProfilePayload|
                v.claimed(token, now).0 == Some(p) <==> exists|i: int| #[trigger]
                    awaits_claim(s, calls, i, token, p, now)
            &&& v.claimed(token, now).0 is None ==> v.claimed(token, now).1 == v.swept(now)
        }),
{
    let s = new_store(ttl, max_pending);
    let v = after_calls(s, calls);
    store_remembers_the_last_change(ttl, max_pending, calls, token, now);
    standing(ttl, max_pending, calls, token, now);
    assert forall|p: ProfilePayload|
        v.claimed(token, now).0 == Some(p) <==> exists|i: int| #[trigger]
            awaits_claim(s, calls, i, token, p, now) by {
        assert(v.claimed(token, now).0 == Some(p) <==> live(v, token, now) && v.held[token].slot
            == Slot::Pending(p));
    }
}

/// Of all claims under a token, at most one gets a profile, unless the token
/// was given out again in between.
pub proof fn token_is_claimed_once(
    ttl: u128,
    max_pending: nat,
    calls: Seq<StoreCall>,
    token: Seq<char>,
    i: int,
    j: int,
    now: u128,
)
    requires
        in_order(calls, now),
        i < j,
        claim_answered(new_store(ttl, max_pending), calls, i, token),
        claim_answered(new_store(ttl, max_pending), calls, j, token),
    ensures
        exists|k: int| i < k < j && #[trigger] renewed(new_store(ttl, max_pending), calls, k, token),
{
    let s = new_store(ttl, max_pending);
    let front = calls.take(j);
    let t = calls[j].at();
    prefix_in_order(calls, j, now);
    claim_is_answered_by_the_calls_before(ttl, max_pending, front, token, t);
    let p = found_by(s, calls, j).claimed(token, t).0->0;
    let k = choose|k: int| #[trigger] awaits_claim(s, front, k, token, p, t);
    assert(renewed(s, front, k, token));
    told_in_prefix(s, calls, j, k, token);
    told_in_prefix(s, calls, j, i, token);
    if k < i {
        assert(!claim_answered(s, front, i, token));
    }
    if k == i {
        let q = choose|q: ProfilePayload| gave_token(s, front, k, token, q);
    }
    assert(i < k < j && renewed(s, calls, k, token));
}

/// Whatever calls were made before: a deposit is kept exactly if the token was
/// claimed less than the time to live ago and this is the first deposit since;
/// otherwise nothing changes.
pub proof fn deposit_is_kept_by_the_calls_before(
    ttl: u128,
    max_pending: nat,
    calls: Seq<StoreCall>,
    token: Seq<char>,
    payload: ProfilePayload,
    now: u128,
)
    requires
        in_order(calls, now),
    ensures
        ({
            let s = new_store(ttl, max_pending);
            let v = after_calls(s, calls);
            v.deposited(token, payload, now) == (if exists|k: int| #[trigger]
                awaits_result(s, calls, k, token, now) {
                v.with(token, Slot::Ready(payload), now)
            } else {
                v
            })
        }),
{
    store_remembers_the_last_change(ttl, max_pending, calls, token, now);
    standing(ttl, max_pending, calls, token, now);
}

/// Whatever calls were made before: a pick-up gets a profile exactly if that
/// was deposited under this token less than the time to live ago, as the first
/// deposit after a claim that was answered and in its time, and no pick-up got
/// it since; the entry is then gone. Otherwise it gets nothing, and what has
/// not expired stays as it is.
pub proof fn pick_up_is_answered_by_the_calls_before(
    ttl: u128,
    max_pending: nat,
    calls: Seq<StoreCall>,
    token: Seq<char>,
    now: u128,
)
    requires
        in_order(calls, now),
    ensures
        ({
            let s = new_store(ttl, max_pending);
            let v = after_calls(s, calls);
            &&& forall|q: ProfilePayload|
                v.picked_up(token, now).0 == Some(q) <==> exists|i: int| #[trigger]
                    awaits_pick_up(s, calls, i, token, q, now)
            &&& v.picked_up(token, now).0 is Some ==> v.picked_up(token, now).1 == v.swept(
                now,
            ).without(token)
            &&& v.picked_up(token, now).0 is None ==> v.picked_up(token, now).1 == v.swept(now)
        }),
{
    let s = new_store(ttl, max_pending);
    let v = after_calls(s, calls);
    store_remembers_the_last_change(ttl, max_pending, calls, token, now);
    assert forall|q: ProfilePayload|
        v.picked_up(token, now).0 == Some(q) <==> exists|i: int| #[trigger]
            awaits_pick_up(s, calls, i, token, q, now) by {
        assert(v.picked_up(token, now).0 == Some(q) <==> live(v, token, now) && v.held[token].slot
            == Slot::Ready(q));
        if v.picked_up(token, now).0 == Some(q) {
            let i = choose|i: int| #[trigger]
                told_last(s, calls, i, token) && told_slot(calls[i]) == Some(v.held[token].slot)
                    && v.held[token].at == calls[i].at();
            within(s, calls, i, token);
            assert(deposit_kept(s, calls, i, token)) by {
                if renewed(s, calls, i, token) {
                    let p = choose|p: ProfilePayload| gave_token(s, calls, i, token, p);
                }
            }
            assert forall|j: int| i < j < calls.len() implies !(#[trigger] pick_up_answered(
                s,
                calls,
                j,
                token,
            )) && !renewed(s, calls, j, token) by {
                assert(!told(s, calls, j, token));
            }
            prefix_in_order(calls, i, now);
            standing(ttl, max_pending, calls.take(i), token, calls[i].at());
            assert(awaits_pick_up(s, calls, i, token, q, now));
        }
        if exists|i: int| #[trigger] awaits_pick_up(s, calls, i, token, q, now) {
            let i = choose|i: int| #[trigger] awaits_pick_up(s, calls, i, token, q, now);
            prefix_in_order(calls, i, now);
            standing(ttl, max_pending, calls.take(i), token, calls[i].at());
            assert(deposit_kept(s, calls, i, token));
            assert forall|j: int| i < j < calls.len() implies !#[trigger] follows(
                s,
                calls,
                calls[i],
                j,
                token,
            ) by {
                assert(!pick_up_answered(s, calls, j, token));
            }
            change_stays_until_the_next(ttl, max_pending, calls, i, token, now);
        }
    }
}

} // verus!
