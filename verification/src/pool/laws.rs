//! What the pool's operations come to, counted in slots, tickets and sessions.

use crate::pool::{
    age_of, culled_of, kept_of, millis_of, sessions_of, Admission, ClaimError, Claimed, PoolOptions,
    PoolMove, PoolStats, PoolView, Search, SearchEvent, WaitEvent, WaitStep, Warm,
};
use vstd::prelude::*;

verus! {

/// A warm launch is begun exactly if an open pool has less stock than it wants
/// and the browsers that claims use, that are parked and that are being
/// launched are fewer than the ceiling. So it never takes them beyond it, and
/// nothing else changes.
pub proof fn warm_launch_stays_within_the_ceiling<S>(v: PoolView<S>)
    requires
        v.wf(),
    ensures
        ({
            let browsers = v.granted.len() + v.starting + v.inline + v.held + v.warm.len()
                + v.launching;
            let w = v.with_launch();
            &&& w.launching == v.launching + 1 <==> !v.closed && v.warm.len() + v.launching
                < v.options.min_ready && browsers < v.options.max_sessions
            &&& v.wanted() > 0 && !v.closed <==> w.launching == v.launching + 1
            &&& w.launching == v.launching + 1 || w.launching == v.launching
            &&& w.launching == v.launching + 1 ==> w.granted.len() + w.starting + w.inline + w.held
                + w.warm.len() + w.launching <= w.options.max_sessions
            &&& w == (PoolView { launching: w.launching, ..v })
        }),
{
    assert(v.with_launch() =~= (PoolView { launching: v.with_launch().launching, ..v }));
}

/// A claim is admitted exactly if the pool is open and the slots in use are
/// fewer than the ceiling; it is refused exactly if the pool is closed, or no
/// slot is free and the line is full; otherwise it waits, behind everybody,
/// under a ticket that nobody else has.
pub proof fn claims_are_admitted_up_to_the_ceiling<S>(v: PoolView<S>)
    requires
        v.wf(),
        v.next_ticket < u64::MAX,
    ensures
        ({
            let used = v.granted.len() + v.starting + v.inline + v.held;
            let line = v.waiting.len() + v.granted.len();
            let (r, w) = v.claim_of();
            &&& r == Ok::<Admission, ClaimError>(Admission::Admitted) <==> !v.closed && used
                < v.options.max_sessions
            &&& r == Err::<Admission, ClaimError>(ClaimError::Closed) <==> v.closed
            &&& (r matches Err(ClaimError::QueueFull { .. })) <==> !v.closed && used
                >= v.options.max_sessions && line >= v.options.max_queue
            &&& r matches Err(ClaimError::QueueFull { max_queue }) ==> max_queue
                == v.options.max_queue
            &&& r is Err ==> w == v
            &&& r == Ok::<Admission, ClaimError>(Admission::Admitted) ==> w == (PoolView {
                available: (v.available - 1) as nat,
                starting: v.starting + 1,
                ..v
            })
            &&& r matches Ok(Admission::Wait(t)) ==> !v.waiting.contains(t) && !v.granted.contains(t)
                && w.waiting == v.waiting.push(t) && w.granted == v.granted && w.available
                == v.available && w.starting == v.starting && w.held == v.held && w.inline
                == v.inline && w.next_ticket > t
        }),
{
    let t = v.next_ticket as u64;
    assert(!v.waiting.contains(t)) by {
        if v.waiting.contains(t) {
            let k = choose|k: int| 0 <= k < v.waiting.len() && v.waiting[k] == t;
            assert(v.waiting[k] < v.next_ticket);
        }
    }
    assert(!v.granted.contains(t)) by {
        if v.granted.contains(t) {
            let k = choose|k: int| 0 <= k < v.granted.len() && v.granted[k] == t;
            assert(v.granted[k] < v.next_ticket);
        }
    }
}

/// What a claim in the line is told: one that goes away is gone; in a closed
/// pool everybody is refused; one that was given a slot has it, even when its
/// time is up; one whose time is up without a slot is told how many whole
/// milliseconds it waited; any other waits on, and nothing changes.
pub proof fn waiting_ends_in_order<S>(v: PoolView<S>, t: u64, event: WaitEvent)
    requires
        v.wf(),
        v.in_line(t),
    ensures
        ({
            let (r, w) = v.wait_of(t, event);
            &&& r == Ok::<WaitStep, ClaimError>(WaitStep::Gone) <==> event is Cancelled
            &&& r == Err::<WaitStep, ClaimError>(ClaimError::Closed) <==> !(event is Cancelled)
                && v.closed
            &&& r == Ok::<WaitStep, ClaimError>(WaitStep::Admitted) <==> !(event is Cancelled)
                && !v.closed && v.granted.contains(t)
            &&& (r matches Err(ClaimError::QueueTimeout { .. })) <==> event is Elapsed && !v.closed
                && v.waiting.contains(t)
            &&& r matches Err(ClaimError::QueueTimeout { waited_ms }) ==> (event matches
                WaitEvent::Elapsed(ns) && (waited_ms < u64::MAX ==> waited_ms * 1_000_000 <= ns < (
            waited_ms + 1) * 1_000_000) && (waited_ms == u64::MAX ==> ns >= u64::MAX * 1_000_000))
            &&& r == Ok::<WaitStep, ClaimError>(WaitStep::Waiting) ==> w == v
            &&& r != Ok::<WaitStep, ClaimError>(WaitStep::Waiting) ==> !w.waiting.contains(t)
                && !w.granted.contains(t)
            &&& r == Ok::<WaitStep, ClaimError>(WaitStep::Admitted) ==> w.starting == v.starting + 1
                && w.available == v.available && w.waiting == v.waiting
            &&& r != Ok::<WaitStep, ClaimError>(WaitStep::Admitted) ==> w.starting == v.starting
            &&& w.held == v.held && w.inline == v.inline && w.warm == v.warm && w.options
                == v.options
            &&& forall|x: u64| #[trigger] w.waiting.contains(x) ==> v.waiting.contains(x)
            &&& forall|x: u64|
                x != t && (v.waiting.contains(x) || v.granted.contains(x)) ==> #[trigger]
                    w.waiting.contains(x) || w.granted.contains(x)
        }),
{
    crate::pool::line_splits(v.waiting, v.granted);
    crate::pool::without_facts(v.granted, t);
    crate::pool::without_facts(v.waiting, t);
    let (r, w) = v.wait_of(t, event);
    let g = PoolView { granted: crate::pool::without(v.granted, t), ..v };
    if v.granted.contains(t) && (event is Cancelled || v.closed) {
        slot_back_keeps_the_line(g);
    }
    match event {
        WaitEvent::Elapsed(ns) => {
            whole_milliseconds(ns as nat);
        },
        _ => {},
    }
}

proof fn slot_back_keeps_the_line<S>(v: PoolView<S>)
    ensures
        ({
            let w = v.with_slot_back();
            &&& forall|x: u64| #[trigger] w.waiting.contains(x) ==> v.waiting.contains(x)
            &&& forall|x: u64| #[trigger]
                w.granted.contains(x) ==> v.granted.contains(x) || v.waiting.contains(x)
            &&& forall|x: u64|
                v.waiting.contains(x) || v.granted.contains(x) ==> #[trigger] w.waiting.contains(x)
                    || w.granted.contains(x)
        }),
{
    let w = v.with_slot_back();
    if v.surplus == 0 && !v.closed && v.waiting.len() > 0 {
        assert forall|x: u64| #[trigger] w.waiting.contains(x) implies v.waiting.contains(x) by {
            let k = choose|k: int| 0 <= k < w.waiting.len() && w.waiting[k] == x;
            assert(v.waiting[k + 1] == x);
        }
        assert forall|x: u64| #[trigger] w.granted.contains(x) implies v.granted.contains(x)
            || v.waiting.contains(x) by {
            let k = choose|k: int| 0 <= k < w.granted.len() && w.granted[k] == x;
            if k < v.granted.len() {
                assert(v.granted[k] == x);
            } else {
                assert(v.waiting[0] == x);
            }
        }
        assert forall|x: u64| v.waiting.contains(x) || v.granted.contains(x) implies #[trigger]
        w.waiting.contains(x) || w.granted.contains(x) by {
            if v.granted.contains(x) {
                let k = choose|k: int| 0 <= k < v.granted.len() && v.granted[k] == x;
                assert(w.granted[k] == x);
            } else {
                let k = choose|k: int| 0 <= k < v.waiting.len() && v.waiting[k] == x;
                if k == 0 {
                    assert(w.granted[v.granted.len() as int] == x);
                } else {
                    assert(w.waiting[k - 1] == x);
                }
            }
        }
    }
}

/// A duration is told in whole milliseconds: the most that it holds, as far as
/// they can be told.
pub proof fn whole_milliseconds(ns: nat)
    ensures
        millis_of(ns) <= u64::MAX,
        millis_of(ns) * 1_000_000 <= ns,
        millis_of(ns) < u64::MAX ==> ns < (millis_of(ns) + 1) * 1_000_000,
{
}

/// A slot that comes back is not lost and not doubled: it is free, or belongs
/// to the first claim in the line, or was one too many. The claim that is
/// served is the one that came first.
pub proof fn released_slot_goes_to_the_first_in_line<S>(v: PoolView<S>)
    requires
        v.wf(),
        v.held > 0,
    ensures
        ({
            let w = v.with_released();
            &&& w.held == v.held - 1
            &&& w.nudge
            &&& v.surplus > 0 ==> w.surplus == v.surplus - 1 && w.available == v.available
                && w.granted == v.granted && w.waiting == v.waiting
            &&& v.surplus == 0 && !v.closed && v.waiting.len() > 0 ==> w.granted == v.granted.push(
                v.waiting[0],
            ) && w.waiting == v.waiting.skip(1) && w.available == v.available && w.surplus == 0
            &&& v.surplus == 0 && (v.closed || v.waiting.len() == 0) ==> w.available == v.available
                + 1 && w.granted == v.granted && w.waiting == v.waiting && w.surplus == 0
            &&& w.starting == v.starting && w.inline == v.inline && w.warm == v.warm && w.closed
                == v.closed && w.options == v.options && w.launching == v.launching
        }),
{
}

/// A session that was launched for a claim is the one that the claim gets; a
/// launch that failed is told with its reason, and its slot comes back.
pub proof fn inline_launch_serves_its_claim<S>(v: PoolView<S>, outcome: Result<S, String>)
    requires
        v.wf(),
        v.inline > 0,
    ensures
        ({
            let (r, w) = v.search_of(SearchEvent::Launched(outcome));
            &&& outcome matches Ok(session) ==> r == Search::Got(
                Claimed { session: Some(session) },
            ) && w.held == v.held + 1 && w.available == v.available && w.granted == v.granted
            &&& outcome matches Err(m) ==> r == Search::<S>::Failed(
                ClaimError::Launch { message: m },
            ) && w.held == v.held && w.available + w.granted.len() + v.surplus == v.available
                + v.granted.len() + w.surplus + 1
            &&& w.inline == v.inline - 1
            &&& w.starting == v.starting && w.warm == v.warm && w.options == v.options
        }),
{
}

/// A parked session that a claim found alive is the one that it gets; one that
/// it found dead is given up, by name.
pub proof fn checked_session_is_taken_or_given_up<S>(v: PoolView<S>, session: S)
    requires
        v.wf(),
        v.starting > 0,
    ensures
        v.search_of(SearchEvent::Checked(session, true)).0 == Search::Got(
            Claimed { session: Some(session) },
        ),
        v.search_of(SearchEvent::Checked(session, true)).1 == (PoolView {
            starting: (v.starting - 1) as nat,
            held: v.held + 1,
            ..v
        }),
        match v.search_of(SearchEvent::Checked(session, false)).0 {
            Search::Check { discard, session: next } => discard == Some(session) && v.warm.len() > 0
                && next == v.warm[0].session,
            Search::Launch { discard } => discard == Some(session) && v.warm.len() == 0,
            _ => false,
        },
        v.search_of(SearchEvent::Checked(session, false)).1.held == v.held,
{
}

/// What stays when the stock is culled stood in it, in the same order: every
/// session that stays is alive and younger than the greatest age, and one that
/// has been idle too long stays only while fewer than wanted stay before it.
pub proof fn culling_keeps_only_the_fit<S>(
    warm: Seq<Warm<S>>,
    alive: Seq<bool>,
    now: u128,
    options: PoolOptions,
    k: int,
)
    requires
        alive.len() >= warm.len(),
        0 <= k < kept_of(warm, alive, now, options).len(),
    ensures
        exists|i: int|
            0 <= i < warm.len() && kept_of(warm, alive, now, options)[k] == #[trigger] warm[i]
                && alive[i] && now < warm[i].ready_at + options.warm_max_age && (now
                < warm[i].ready_at + options.warm_idle || k < options.min_ready) && k <= i,
    decreases warm.len(),
{
    let front = warm.drop_last();
    let kept = kept_of(front, alive, now, options);
    if k < kept.len() {
        culling_keeps_only_the_fit(front, alive, now, options, k);
        let i = choose|i: int|
            0 <= i < front.len() && kept[k] == #[trigger] front[i] && alive[i] && now
                < front[i].ready_at + options.warm_max_age && (now < front[i].ready_at
                + options.warm_idle || k < options.min_ready) && k <= i;
        assert(front[i] == warm[i]);
    } else {
        kept_is_no_longer(front, alive, now, options);
        assert(warm[warm.len() - 1] == warm.last());
    }
}

proof fn kept_is_no_longer<S>(
    warm: Seq<Warm<S>>,
    alive: Seq<bool>,
    now: u128,
    options: PoolOptions,
)
    ensures
        kept_of(warm, alive, now, options).len() <= warm.len(),
    decreases warm.len(),
{
    if warm.len() > 0 {
        kept_is_no_longer(warm.drop_last(), alive, now, options);
    }
}

/// A live session that is neither too old nor idle too long stays when the
/// stock is culled.
pub proof fn culling_spares_the_young<S>(
    warm: Seq<Warm<S>>,
    alive: Seq<bool>,
    now: u128,
    options: PoolOptions,
    i: int,
)
    requires
        0 <= i < warm.len() <= alive.len(),
        alive[i],
        warm[i].ready_at <= now < warm[i].ready_at + options.warm_max_age,
        now < warm[i].ready_at + options.warm_idle,
    ensures
        kept_of(warm, alive, now, options).contains(warm[i]),
    decreases warm.len(),
{
    let front = warm.drop_last();
    let kept = kept_of(front, alive, now, options);
    let all = kept_of(warm, alive, now, options);
    if i < front.len() {
        assert(front[i] == warm[i]);
        culling_spares_the_young(front, alive, now, options, i);
        let k = choose|k: int| 0 <= k < kept.len() && kept[k] == warm[i];
        assert(all[k] == warm[i]);
    } else {
        assert(all[all.len() - 1] == warm[i]);
    }
}

/// A live session that is not too old leaves only for having been idle too
/// long, and only when as many as are wanted stay.
pub proof fn culling_leaves_the_wanted_stock<S>(
    warm: Seq<Warm<S>>,
    alive: Seq<bool>,
    now: u128,
    options: PoolOptions,
    i: int,
)
    requires
        0 <= i < warm.len() <= alive.len(),
        alive[i],
        warm[i].ready_at <= now < warm[i].ready_at + options.warm_max_age,
    ensures
        kept_of(warm, alive, now, options).contains(warm[i]) || (kept_of(
            warm,
            alive,
            now,
            options,
        ).len() >= options.min_ready && now >= warm[i].ready_at + options.warm_idle),
    decreases warm.len(),
{
    let front = warm.drop_last();
    let kept = kept_of(front, alive, now, options);
    let all = kept_of(warm, alive, now, options);
    if i < front.len() {
        assert(front[i] == warm[i]);
        culling_leaves_the_wanted_stock(front, alive, now, options, i);
        if kept.contains(warm[i]) {
            let k = choose|k: int| 0 <= k < kept.len() && kept[k] == warm[i];
            assert(all[k] == warm[i]);
        }
    } else if all.len() > kept.len() {
        assert(all[all.len() - 1] == warm[i]);
    }
}

/// Every parked session is kept or culled, once: the sessions that leave and
/// those that stay are together those that were there.
pub proof fn culling_loses_nothing<S>(
    warm: Seq<Warm<S>>,
    alive: Seq<bool>,
    now: u128,
    options: PoolOptions,
)
    ensures
        sessions_of(warm).to_multiset() == culled_of(warm, alive, now, options).to_multiset().add(
            sessions_of(kept_of(warm, alive, now, options)).to_multiset(),
        ),
        culled_of(warm, alive, now, options).len() + kept_of(warm, alive, now, options).len()
            == warm.len(),
    decreases warm.len(),
{
    crate::pool::culling_splits(warm, alive, now, options);
    if warm.len() > 0 {
        culling_loses_nothing(warm.drop_last(), alive, now, options);
    }
}

/// A session that a warm launch gave is parked last, with the time at which it
/// came, if the pool is open; the pause after failures starts over.
pub proof fn launched_session_is_parked<S>(v: PoolView<S>, session: S, now: u128)
    requires
        v.wf(),
        v.launching > 0,
    ensures
        ({
            let w = v.with_launched(session, now);
            &&& w.launching == v.launching - 1
            &&& w.backoff_ms == 200
            &&& !v.closed ==> w.warm == v.warm.push(Warm { session, ready_at: now })
            &&& v.closed ==> w.warm == v.warm
            &&& w.available == v.available && w.held == v.held && w.waiting == v.waiting
                && w.granted == v.granted && w.starting == v.starting && w.inline == v.inline
                && w.options == v.options && w.closed == v.closed
        }),
{
}

/// The pause after failed warm launches starts at 200 milliseconds, doubles
/// with each failure in a row, and never exceeds ten seconds.
pub proof fn failed_launches_back_off<S>(v: PoolView<S>, options: PoolOptions)
    requires
        v.wf(),
        v.launching > 0,
    ensures
        PoolView::<S>::fresh(options).backoff_ms == 200,
        v.with_missed().backoff_ms <= 10_000,
        v.with_missed().backoff_ms == 2 * v.backoff_ms || (v.with_missed().backoff_ms == 10_000
            && 2 * v.backoff_ms > 10_000),
        v.with_missed() == (PoolView {
            launching: (v.launching - 1) as nat,
            backoff_ms: v.with_missed().backoff_ms,
            ..v
        }),
{
    assert(v.with_missed() =~= (PoolView {
        launching: (v.launching - 1) as nat,
        backoff_ms: v.with_missed().backoff_ms,
        ..v
    }));
}

/// Closing stops intake and empties the stock, and leaves claims and launches
/// as they are.
pub proof fn closing_only_stops_intake<S>(v: PoolView<S>)
    ensures
        v.with_closed().closed,
        v.with_closed().warm.len() == 0,
        v.with_closed().nudge,
        v.with_closed() == (PoolView { closed: true, warm: Seq::empty(), nudge: true, ..v }),
        sessions_of(v.warm).len() == v.warm.len(),
        forall|i: int|
            0 <= i < v.warm.len() ==> #[trigger] sessions_of(v.warm)[i] == v.warm[i].session,
{
}

/// The counters say how many slots claims have, how many claims are in the
/// line, what is parked, how the pool is sized, and whether it takes claims.
pub proof fn counters_count<S>(v: PoolView<S>, stats: PoolStats)
    requires
        v.shows(stats),
    ensures
        stats.running == v.granted.len() + v.starting + v.inline + v.held,
        stats.queued == v.waiting.len() + v.granted.len(),
        stats.warm == v.warm.len(),
        stats.max_sessions == v.options.max_sessions,
        stats.max_queue == v.options.max_queue,
        stats.accepting <==> !v.closed,
{
}

/// A new pool has every slot free, nobody in line, no stock, and its options.
pub proof fn new_pool_is_empty<S>(options: PoolOptions)
    ensures
        ({
            let v = PoolView::<S>::fresh(options);
            &&& v.options == options
            &&& v.available == options.max_sessions
            &&& v.waiting.len() == 0 && v.granted.len() == 0 && v.warm.len() == 0
            &&& v.starting == 0 && v.inline == 0 && v.held == 0 && v.launching == 0 && v.surplus
                == 0
            &&& !v.closed && !v.nudge
        }),
{
}

/// Resizing ends no session and turns nobody away: what claims have stays, the
/// line keeps its order, and the slots that are there are the ceiling's, or
/// those in use if they are more.
pub proof fn resizing_disturbs_nobody<S>(v: PoolView<S>, options: PoolOptions)
    requires
        v.wf(),
        v.can_resize(options),
    ensures
        ({
            let w = v.with_size(options);
            let used = v.granted.len() + v.starting + v.inline + v.held;
            &&& w.options == options
            &&& w.held == v.held && w.starting == v.starting && w.inline == v.inline && w.warm
                == v.warm && w.launching == v.launching && w.closed == v.closed && w.next_ticket
                == v.next_ticket && w.backoff_ms == v.backoff_ms
            &&& w.granted + w.waiting == v.granted + v.waiting
            &&& v.granted.len() <= w.granted.len()
            &&& used < options.max_sessions ==> w.surplus == 0 && w.available + w.granted.len()
                + w.starting + w.inline + w.held == options.max_sessions
            &&& used >= options.max_sessions ==> w.available == 0 && w.granted == v.granted
                && w.surplus == used - options.max_sessions
            &&& w.available > 0 && !w.closed ==> w.waiting.len() == 0
        }),
{
    let w = v.with_size(options);
    assert(w.granted + w.waiting =~= v.granted + v.waiting);
}

/// Whatever is idle for less time than another is younger than it, at any time.
pub proof fn ages_follow_the_clock<S>(a: Warm<S>, b: Warm<S>, now: u128)
    requires
        a.ready_at <= b.ready_at <= now,
    ensures
        age_of(a, now) - age_of(b, now) == b.ready_at - a.ready_at,
        age_of(b, now) + b.ready_at == now,
{
}

/// A session that was parked at this moment or later has no age yet.
pub proof fn nothing_is_older_than_its_parking<S>(a: Warm<S>, now: u128)
    requires
        now <= a.ready_at,
    ensures
        age_of(a, now) == 0,
{
}

/// A claim that looks at the stock takes the session that has been parked
/// longest, and that one only; nothing else of the stock changes.
pub proof fn looking_takes_one_session<S>(v: PoolView<S>, discard: Option<S>)
    requires
        v.wf(),
        v.warm.len() > 0,
    ensures
        v.looked(discard).0 == (Search::Check { discard, session: v.warm[0].session }),
        v.looked(discard).1.warm.len() == v.warm.len() - 1,
        forall|i: int|
            0 <= i < v.warm.len() - 1 ==> #[trigger] v.looked(discard).1.warm[i] == v.warm[i + 1],
        v.looked(discard).1.starting == v.starting && v.looked(discard).1.held == v.held
            && v.looked(discard).1.inline == v.inline && v.looked(discard).1.launching
            == v.launching && v.looked(discard).1.available == v.available,
{
}

/// Whatever makes room for a warm launch, or a need for one, nudges the
/// replenisher: a session taken out of the stock, a launch for a claim, a
/// destroyed session, another size, and the end of the pool.
pub proof fn replenisher_is_nudged<S>(v: PoolView<S>, discard: Option<S>, options: PoolOptions)
    ensures
        v.looked(discard).1.nudge,
        v.with_inline().nudge,
        v.with_released().nudge,
        v.with_size(options).nudge,
        v.with_closed().nudge,
        !v.moved(PoolMove::TakeNudge).nudge,
        !PoolView::<S>::fresh(options).nudge,
{
}

/// A claim is in the line while it waits and while a slot is reserved for it.
pub proof fn claim_is_in_line_until_it_is_served<S>(v: PoolView<S>, t: u64)
    ensures
        v.waiting.contains(t) ==> v.in_line(t),
        v.granted.contains(t) ==> v.in_line(t),
        v.in_line(t) ==> v.waiting.contains(t) || v.granted.contains(t),
{
}

} // verus!
