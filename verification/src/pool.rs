//! Warm session pool: pre-launched browsers, claim-once, destroy-after.
//!
//! The pool decides who gets a session and when one is launched or destroyed;
//! launching, destroying and waiting are done by its owner, who reports back
//! what happened. Every claim hands out a session that no other claim has
//! seen, and its capacity comes back only after the session was destroyed.
//!
//! Points in time and durations are nanoseconds.

use crate::text;
use vstd::multiset::Multiset;
use vstd::prelude::*;

pub mod laws;

verus! {

/// Milliseconds of the first pause after a failed warm launch.
pub const BACKOFF_START_MS: u64 = 200;

/// Milliseconds that the pause between failed warm launches never exceeds.
pub const BACKOFF_LIMIT_MS: u64 = 10_000;

/// Nanoseconds after which an idle replenisher looks again at the latest.
pub const REPLENISH_TICK_NS: u128 = 10_000_000_000;

/// Pool sizing knobs (mirrors the `pool.*` config block).
#[derive(Debug, Clone, Copy)]
pub struct PoolOptions {
    /// Warm sessions kept ready ahead of demand.
    pub min_ready: usize,
    /// Hard ceiling of concurrently claimed sessions.
    pub max_sessions: usize,
    /// Maximum claimers allowed to wait; more are rejected immediately.
    pub max_queue: usize,
    /// How long a queued claimer waits before rejection.
    pub queue_timeout: u128,
    /// Warm sessions above `min_ready` idle longer than this are culled.
    pub warm_idle: u128,
    /// Any warm session older than this is recycled.
    pub warm_max_age: u128,
}

/// Why a claim failed.
#[derive(Debug)]
pub enum ClaimError {
    /// The waiting line is full.
    QueueFull {
        /// The configured queue bound.
        max_queue: usize,
    },
    /// The claimer waited the full queue timeout without a slot opening.
    QueueTimeout {
        /// How long the claimer waited, in milliseconds.
        waited_ms: u64,
    },
    /// The pool is draining; no new sessions.
    Closed,
    /// No warm session was available and the inline launch failed.
    Launch {
        /// Factory-reported failure description.
        message: String,
    },
}

impl ClaimError {
    /// What the error says.
    pub open spec fn says(self) -> Seq<char> {
        match self {
            ClaimError::QueueFull { max_queue } => "session queue is full ("@ + text::decimal_of(
                max_queue as nat,
            ) + " waiting)"@,
            ClaimError::QueueTimeout { waited_ms } => "timed out waiting "@ + text::decimal_of(
                waited_ms as nat,
            ) + " ms for a session slot"@,
            ClaimError::Closed => "pool is closed"@,
            ClaimError::Launch { message } => "session launch failed: "@ + message@,
        }
    }

    /// The message of the error.
    pub fn message(&self) -> (r: String)
        ensures
            r@ == self.says(),
    {
        match self {
            ClaimError::QueueFull { max_queue } => {
                let mut s = "session queue is full (".to_owned();
                s.append(text::decimal(*max_queue as u128).as_str());
                s.append(" waiting)");
                s
            },
            ClaimError::QueueTimeout { waited_ms } => {
                let mut s = "timed out waiting ".to_owned();
                s.append(text::decimal(*waited_ms as u128).as_str());
                s.append(" ms for a session slot");
                s
            },
            ClaimError::Closed => "pool is closed".to_owned(),
            ClaimError::Launch { message } => {
                let mut s = "session launch failed: ".to_owned();
                s.append(message.as_str());
                s
            },
        }
    }
}

/// What a new claim has to do next.
#[derive(Debug, Clone, Copy, PartialEq, Eq, Structural)]
pub enum Admission {
    /// A slot is taken: look for a session now.
    Admitted,
    /// No slot is free: wait under this ticket.
    Wait(u64),
}

/// What happened to a waiting claim.
#[derive(Debug, Clone, Copy, PartialEq, Eq, Structural)]
pub enum WaitEvent {
    /// Something in the pool changed.
    Woken,
    /// The queue timeout passed after this many nanoseconds of waiting.
    Elapsed(u128),
    /// The claimer went away.
    Cancelled,
}

/// What a waiting claim has to do next.
#[derive(Debug, Clone, Copy, PartialEq, Eq, Structural)]
pub enum WaitStep {
    /// A slot is taken: look for a session now.
    Admitted,
    /// Keep waiting.
    Waiting,
    /// The claim no longer exists.
    Gone,
}

/// A launched session that nobody has claimed yet.
#[derive(Debug)]
pub struct Warm<S> {
    /// The session.
    pub session: S,
    /// When it was parked.
    pub ready_at: u128,
}

/// A claimed session. It is owed a destroy, after which the pool is told to
/// release its slot.
#[derive(Debug)]
pub struct Claimed<S> {
    /// The session, until it is taken out.
    pub session: Option<S>,
}

/// Live pool counters for `/pressure` and `/ready`.
#[derive(Debug, Clone, Copy, PartialEq, Eq, Structural)]
pub struct PoolStats {
    /// Sessions currently claimed by clients.
    pub running: usize,
    /// Claimers currently waiting for a slot.
    pub queued: usize,
    /// Warm sessions parked and ready.
    pub warm: usize,
    /// The configured session ceiling.
    pub max_sessions: usize,
    /// The configured queue bound.
    pub max_queue: usize,
    /// The pool accepts new claims.
    pub accepting: bool,
}

/// What the replenisher does next.
#[derive(Debug, Clone, Copy, PartialEq, Eq, Structural)]
pub enum Replenish {
    /// The pool is closed: end.
    Stop,
    /// Nothing to launch: look again after a nudge or this many nanoseconds.
    Idle(u128),
    /// Launch one session.
    Launch,
}

/// What the replenisher does with the outcome of a launch.
#[derive(Debug)]
pub enum Restock<S> {
    /// The session is parked.
    Parked,
    /// The pool closed meanwhile: destroy the session and end.
    Discard(S),
    /// The launch failed: pause for this many milliseconds.
    Backoff(u64),
}

/// What an admitted claim learns while it looks for a session.
#[derive(Debug)]
pub enum SearchEvent<S> {
    /// It begins to look.
    Begin,
    /// The parked session that it took is alive, or not.
    Checked(S, bool),
    /// The session that was launched for it, or why there is none.
    Launched(Result<S, String>),
}

/// What an admitted claim does next.
#[derive(Debug)]
pub enum Search<S> {
    /// Destroy the dead session, if there is one; find out whether this one,
    /// which was parked longest, is alive.
    Check {
        /// A session that was found dead.
        discard: Option<S>,
        /// The session to check.
        session: S,
    },
    /// Destroy the dead session, if there is one; the stock is used up, so
    /// launch a session.
    Launch {
        /// A session that was found dead.
        discard: Option<S>,
    },
    /// The claim has its session.
    Got(Claimed<S>),
    /// The claim failed.
    Failed(ClaimError),
}

/// What the pool is, as far as its operations are concerned.
#[verifier::ext_equal]
pub struct PoolView<S> {
    /// The sizing knobs.
    pub options: PoolOptions,
    /// Free slots.
    pub available: nat,
    /// Tickets of claims without a slot, first come first.
    pub waiting: Seq<u64>,
    /// Tickets of claims that were given a slot and have not picked it up.
    pub granted: Seq<u64>,
    /// The next ticket to be handed out.
    pub next_ticket: nat,
    /// Slots in use beyond the ceiling, which go away as they come back.
    pub surplus: nat,
    /// Claims that hold a slot and look for a session in the stock.
    pub starting: nat,
    /// Claims that hold a slot and have a session launched for them.
    pub inline: nat,
    /// Claims that hold a session.
    pub held: nat,
    /// Parked sessions, oldest first.
    pub warm: Seq<Warm<S>>,
    /// Warm launches under way.
    pub launching: nat,
    /// The pool takes no more claims.
    pub closed: bool,
    /// Milliseconds of the next pause after a failed warm launch.
    pub backoff_ms: nat,
    /// The replenisher should look again.
    pub nudge: bool,
}

/// `s` without the ticket `t`.
pub open spec fn without(s: Seq<u64>, t: u64) -> Seq<u64> {
    if s.contains(t) {
        s.remove(s.index_of(t))
    } else {
        s
    }
}

/// The age of a parked session.
pub open spec fn age_of<S>(entry: Warm<S>, now: u128) -> int {
    if now >= entry.ready_at {
        now - entry.ready_at
    } else {
        0
    }
}

/// Whether a parked session leaves, when `kept` older ones stay.
pub open spec fn expires<S>(
    entry: Warm<S>,
    alive: bool,
    kept: nat,
    now: u128,
    options: PoolOptions,
) -> bool {
    ||| !alive
    ||| age_of(entry, now) >= options.warm_max_age
    ||| kept >= options.min_ready && age_of(entry, now) >= options.warm_idle
}

/// The parked sessions that stay when the stock is culled, oldest first.
pub open spec fn kept_of<S>(
    warm: Seq<Warm<S>>,
    alive: Seq<bool>,
    now: u128,
    options: PoolOptions,
) -> Seq<Warm<S>>
    decreases warm.len(),
{
    if warm.len() == 0 {
        Seq::empty()
    } else {
        let kept = kept_of(warm.drop_last(), alive, now, options);
        if expires(warm.last(), alive[warm.len() - 1], kept.len(), now, options) {
            kept
        } else {
            kept.push(warm.last())
        }
    }
}

/// The sessions that leave when the stock is culled, oldest first.
pub open spec fn culled_of<S>(
    warm: Seq<Warm<S>>,
    alive: Seq<bool>,
    now: u128,
    options: PoolOptions,
) -> Seq<S>
    decreases warm.len(),
{
    if warm.len() == 0 {
        Seq::empty()
    } else {
        let kept = kept_of(warm.drop_last(), alive, now, options);
        let culled = culled_of(warm.drop_last(), alive, now, options);
        if expires(warm.last(), alive[warm.len() - 1], kept.len(), now, options) {
            culled.push(warm.last().session)
        } else {
            culled
        }
    }
}

/// The sessions of a list of parked entries.
pub open spec fn sessions_of<S>(warm: Seq<Warm<S>>) -> Seq<S> {
    Seq::new(warm.len(), |i: int| warm[i].session)
}

/// Whole milliseconds in `ns` nanoseconds, at most `u64::MAX`.
pub open spec fn millis_of(ns: nat) -> nat {
    if ns / 1_000_000 > u64::MAX {
        u64::MAX as nat
    } else {
        ns / 1_000_000
    }
}

impl<S> PoolView<S> {
    /// Slots that claims have.
    pub open spec fn in_use(self) -> nat {
        self.granted.len() + self.starting + self.inline + self.held
    }

    /// What every pool keeps: each slot is free, granted, looking for a
    /// session, launching one or holding one; there are more of them than the
    /// ceiling allows only as long as they are in use; nobody waits while an
    /// open pool has a free slot; the line is no longer than allowed; a closed
    /// pool has no stock; and there is never more stock than wanted.
    pub open spec fn wf(self) -> bool {
        &&& self.available + self.in_use() == self.options.max_sessions + self.surplus
        &&& self.surplus > 0 ==> self.available == 0
        &&& self.options.max_sessions + self.surplus <= usize::MAX / 8
        &&& !self.closed && self.available > 0 ==> self.waiting.len() == 0
        &&& (self.waiting + self.granted).no_duplicates()
        &&& forall|i: int| 0 <= i < self.waiting.len() ==> #[trigger] self.waiting[i] < self.next_ticket
        &&& forall|i: int| 0 <= i < self.granted.len() ==> #[trigger] self.granted[i] < self.next_ticket
        &&& self.waiting.len() + self.granted.len() <= self.options.max_queue
        &&& self.closed ==> self.warm.len() == 0
        &&& self.warm.len() + self.launching <= self.options.min_ready
        &&& BACKOFF_START_MS <= self.backoff_ms <= BACKOFF_LIMIT_MS
        &&& self.next_ticket <= u64::MAX
    }

    /// Whether the ticket `t` belongs to a claim in the line.
    pub open spec fn in_line(self, t: u64) -> bool {
        self.waiting.contains(t) || self.granted.contains(t)
    }

    /// Whether `stats` are the counters of the pool.
    pub open spec fn shows(self, stats: PoolStats) -> bool {
        &&& stats.running == self.in_use()
        &&& stats.queued == self.queued()
        &&& stats.warm == self.warm.len()
        &&& stats.max_sessions == self.options.max_sessions
        &&& stats.max_queue == self.options.max_queue
        &&& stats.accepting == !self.closed
    }

    /// Claims in the line.
    pub open spec fn queued(self) -> nat {
        self.waiting.len() + self.granted.len()
    }

    /// A pool that nobody has used.
    pub open spec fn fresh(options: PoolOptions) -> PoolView<S> {
        PoolView {
            options,
            available: options.max_sessions as nat,
            waiting: Seq::empty(),
            granted: Seq::empty(),
            next_ticket: 0,
            surplus: 0,
            starting: 0,
            inline: 0,
            held: 0,
            warm: Seq::empty(),
            launching: 0,
            closed: false,
            backoff_ms: BACKOFF_START_MS as nat,
            nudge: false,
        }
    }

    /// The pool gets another size. Slots that are new go to those who have
    /// waited longest; slots that are too many go away, those in use as soon as
    /// they come back.
    pub open spec fn with_size(self, options: PoolOptions) -> PoolView<S> {
        if options.max_sessions <= self.in_use() {
            PoolView {
                options,
                available: 0,
                surplus: (self.in_use() - options.max_sessions) as nat,
                nudge: true,
                ..self
            }
        } else {
            let free = options.max_sessions - self.in_use();
            let n = if self.closed {
                0
            } else if self.waiting.len() < free {
                self.waiting.len() as int
            } else {
                free
            };
            PoolView {
                options,
                available: (free - n) as nat,
                surplus: 0,
                waiting: self.waiting.skip(n),
                granted: self.granted + self.waiting.take(n),
                nudge: true,
                ..self
            }
        }
    }

    /// Whether a pool can get this size: its line stays as long as it may be,
    /// and its stock does not become too large.
    pub open spec fn can_resize(self, options: PoolOptions) -> bool {
        &&& options.max_sessions <= usize::MAX / 8
        &&& options.max_queue == self.options.max_queue
        &&& options.min_ready >= self.options.min_ready
    }

    /// One slot comes back: it goes away if it is one too many; the first claim
    /// in the line gets it, if the pool is open and somebody waits; otherwise it
    /// is free.
    pub open spec fn with_slot_back(self) -> PoolView<S> {
        if self.surplus > 0 {
            PoolView { surplus: (self.surplus - 1) as nat, ..self }
        } else if !self.closed && self.waiting.len() > 0 {
            PoolView {
                waiting: self.waiting.skip(1),
                granted: self.granted.push(self.waiting[0]),
                ..self
            }
        } else {
            PoolView { available: self.available + 1, ..self }
        }
    }

    /// A claim takes a free slot.
    pub open spec fn with_admitted(self) -> PoolView<S> {
        PoolView { available: (self.available - 1) as nat, starting: self.starting + 1, ..self }
    }

    /// A claim joins the line.
    pub open spec fn with_waiter(self) -> PoolView<S> {
        PoolView {
            waiting: self.waiting.push(self.next_ticket as u64),
            next_ticket: self.next_ticket + 1,
            ..self
        }
    }

    /// The answer to a new claim, and the pool behind it.
    pub open spec fn claim_of(self) -> (Result<Admission, ClaimError>, PoolView<S>) {
        if self.closed {
            (Err(ClaimError::Closed), self)
        } else if self.available > 0 {
            (Ok(Admission::Admitted), self.with_admitted())
        } else if self.queued() >= self.options.max_queue {
            (Err(ClaimError::QueueFull { max_queue: self.options.max_queue }), self)
        } else {
            (Ok(Admission::Wait(self.next_ticket as u64)), self.with_waiter())
        }
    }

    /// The answer to what happened to the waiting claim `t`, and the pool
    /// behind it. A closed pool turns everybody away; a claim that was given
    /// a slot takes it even when its time is up.
    pub open spec fn wait_of(self, t: u64, event: WaitEvent) -> (
        Result<WaitStep, ClaimError>,
        PoolView<S>,
    ) {
        if event is Cancelled {
            (Ok(WaitStep::Gone), self.with_leaver(t))
        } else if self.closed {
            (Err(ClaimError::Closed), self.with_leaver(t))
        } else if self.granted.contains(t) {
            (Ok(WaitStep::Admitted), self.with_pickup(t))
        } else {
            match event {
                WaitEvent::Elapsed(ns) => (
                    Err(ClaimError::QueueTimeout { waited_ms: millis_of(ns as nat) as u64 }),
                    self.with_leaver(t),
                ),
                _ => (Ok(WaitStep::Waiting), self),
            }
        }
    }

    /// A claim leaves the line; a slot it was given comes back.
    pub open spec fn with_leaver(self, t: u64) -> PoolView<S> {
        if self.granted.contains(t) {
            PoolView { granted: without(self.granted, t), ..self }.with_slot_back()
        } else {
            PoolView { waiting: without(self.waiting, t), ..self }
        }
    }

    /// A claim picks up the slot it was given.
    pub open spec fn with_pickup(self, t: u64) -> PoolView<S> {
        PoolView { granted: without(self.granted, t), starting: self.starting + 1, ..self }
    }

    /// A claim took a parked session.
    pub open spec fn with_handed_out(self) -> PoolView<S> {
        PoolView { starting: (self.starting - 1) as nat, held: self.held + 1, ..self }
    }

    /// A claim found no stock, and has a session launched for it.
    pub open spec fn with_inline(self) -> PoolView<S> {
        PoolView {
            starting: (self.starting - 1) as nat,
            inline: self.inline + 1,
            nudge: true,
            ..self
        }
    }

    /// A claim got the session that was launched for it.
    pub open spec fn with_served(self) -> PoolView<S> {
        PoolView { inline: (self.inline - 1) as nat, held: self.held + 1, ..self }
    }

    /// The launch for a claim failed: its slot comes back.
    pub open spec fn with_failed(self) -> PoolView<S> {
        PoolView { inline: (self.inline - 1) as nat, ..self }.with_slot_back()
    }

    /// A claim looks at the stock, with a session that it found dead, if any.
    pub open spec fn looked(self, discard: Option<S>) -> (Search<S>, PoolView<S>) {
        if self.warm.len() == 0 {
            (Search::Launch { discard }, self.with_inline())
        } else {
            (Search::Check { discard, session: self.warm[0].session }, self.with_taken())
        }
    }

    /// The answer to what an admitted claim learned, and the pool behind it.
    pub open spec fn search_of(self, event: SearchEvent<S>) -> (Search<S>, PoolView<S>) {
        match event {
            SearchEvent::Begin => self.looked(None),
            SearchEvent::Checked(session, alive) => if alive {
                (Search::Got(Claimed { session: Some(session) }), self.with_handed_out())
            } else {
                self.looked(Some(session))
            },
            SearchEvent::Launched(Ok(session)) => (
                Search::Got(Claimed { session: Some(session) }),
                self.with_served(),
            ),
            SearchEvent::Launched(Err(message)) => (
                Search::Failed(ClaimError::Launch { message }),
                self.with_failed(),
            ),
        }
    }

    /// Whether a claim is there that can learn this.
    pub open spec fn can_search(self, event: SearchEvent<S>) -> bool {
        match event {
            SearchEvent::Launched(_) => self.inline > 0,
            _ => self.starting > 0,
        }
    }

    /// A claimed session was destroyed: its slot comes back.
    pub open spec fn with_released(self) -> PoolView<S> {
        PoolView { held: (self.held - 1) as nat, nudge: true, ..self }.with_slot_back()
    }

    /// The oldest parked session, if there is one, is taken out.
    pub open spec fn with_taken(self) -> PoolView<S> {
        PoolView {
            warm: if self.warm.len() == 0 {
                self.warm
            } else {
                self.warm.skip(1)
            },
            nudge: true,
            ..self
        }
    }

    /// The pool takes no more claims and gives up its stock.
    pub open spec fn with_closed(self) -> PoolView<S> {
        PoolView { closed: true, warm: Seq::empty(), nudge: true, ..self }
    }

    /// The stock is culled.
    pub open spec fn with_culled(self, now: u128, alive: Seq<bool>) -> PoolView<S> {
        PoolView { warm: kept_of(self.warm, alive, now, self.options), ..self }
    }

    /// A warm launch begins, if one is wanted.
    pub open spec fn with_launch(self) -> PoolView<S> {
        if !self.closed && self.wanted() > 0 {
            PoolView { launching: self.launching + 1, ..self }
        } else {
            self
        }
    }

    /// A warm launch gave this session; an open pool parks it.
    pub open spec fn with_launched(self, session: S, now: u128) -> PoolView<S> {
        PoolView {
            launching: (self.launching - 1) as nat,
            backoff_ms: BACKOFF_START_MS as nat,
            warm: if self.closed {
                self.warm
            } else {
                self.warm.push(Warm { session, ready_at: now })
            },
            ..self
        }
    }

    /// A warm launch failed: the next pause is twice as long, up to the limit.
    pub open spec fn with_missed(self) -> PoolView<S> {
        PoolView {
            launching: (self.launching - 1) as nat,
            backoff_ms: if self.backoff_ms * 2 < BACKOFF_LIMIT_MS {
                self.backoff_ms * 2
            } else {
                BACKOFF_LIMIT_MS as nat
            },
            ..self
        }
    }

    /// Slots that neither a claim nor a warm session nor a warm launch uses.
    pub open spec fn headroom(self) -> int {
        let used = self.in_use() + self.warm.len() + self.launching;
        if used >= self.options.max_sessions {
            0
        } else {
            self.options.max_sessions - used
        }
    }

    /// Warm sessions that should be launched.
    pub open spec fn wanted(self) -> int {
        let missing = self.options.min_ready - (self.warm.len() + self.launching);
        if missing <= 0 {
            0
        } else if missing < self.headroom() {
            missing
        } else {
            self.headroom()
        }
    }
}

impl<S> Claimed<S> {
    /// The claimed session.
    pub fn session(&self) -> (r: &S)
        requires
            self.session is Some,
        ensures
            *r == self.session->0,
    {
        match &self.session {
            Some(s) => s,
            None => {
                assert(false);
                vstd::pervasive::unreached()
            },
        }
    }

    /// Mutable access to the claimed session (for lending out transports).
    pub fn session_mut(&mut self) -> (r: &mut S)
        requires
            old(self).session is Some,
        ensures
            *r == old(self).session->0,
            final(self).session == Some(*final(r)),
    {
        match &mut self.session {
            Some(s) => s,
            None => {
                assert(false);
                vstd::pervasive::unreached()
            },
        }
    }

    /// Takes the session out for bridging; the claim still owes a destroy.
    pub fn take_session(&mut self) -> (r: Option<S>)
        ensures
            r == old(self).session,
            final(self).session is None,
    {
        self.session.take()
    }
}

/// The warm pool's books: slots, the waiting line and the parked sessions.
pub struct Pool<S> {
    options: PoolOptions,
    available: usize,
    waiting: Vec<u64>,
    granted: Vec<u64>,
    next_ticket: u64,
    surplus: usize,
    starting: usize,
    inline: usize,
    held: usize,
    warm: Vec<Warm<S>>,
    launching: usize,
    closed: bool,
    backoff_ms: u64,
    nudge: bool,
}

impl<S> View for Pool<S> {
    type V = PoolView<S>;

    closed spec fn view(&self) -> PoolView<S> {
        PoolView {
            options: self.options,
            available: self.available as nat,
            waiting: self.waiting@,
            granted: self.granted@,
            next_ticket: self.next_ticket as nat,
            surplus: self.surplus as nat,
            starting: self.starting as nat,
            inline: self.inline as nat,
            held: self.held as nat,
            warm: self.warm@,
            launching: self.launching as nat,
            closed: self.closed,
            backoff_ms: self.backoff_ms as nat,
            nudge: self.nudge,
        }
    }
}

/// Removes the ticket `t` from a list without repetitions.
fn remove_ticket(list: &mut Vec<u64>, t: u64) -> (r: bool)
    requires
        old(list)@.no_duplicates(),
    ensures
        r == old(list)@.contains(t),
        final(list)@ == without(old(list)@, t),
{
    let mut i: usize = 0;
    while i < list.len()
        invariant
            i <= list@.len(),
            list@ == old(list)@,
            list@.no_duplicates(),
            forall|k: int| 0 <= k < i ==> list@[k] != t,
        decreases list.len() - i,
    {
        if list[i] == t {
            assert(list@.index_of(t) == i);
            list.remove(i);
            return true;
        }
        i += 1;
    }
    false
}

/// Facts about taking a ticket out of a list without repetitions.
pub(crate) proof fn without_facts(s: Seq<u64>, t: u64)
    requires
        s.no_duplicates(),
    ensures
        without(s, t).no_duplicates(),
        forall|x: u64| without(s, t).contains(x) <==> s.contains(x) && x != t,
        s.contains(t) ==> without(s, t).len() == s.len() - 1,
        !s.contains(t) ==> without(s, t) == s,
{
    if s.contains(t) {
        let i = s.index_of(t);
        let r = s.remove(i);
        assert forall|x: u64| r.contains(x) <==> s.contains(x) && x != t by {
            if r.contains(x) {
                let k = choose|k: int| 0 <= k < r.len() && r[k] == x;
                if k < i {
                    assert(s[k] == x);
                } else {
                    assert(s[k + 1] == x);
                }
            }
            if s.contains(x) && x != t {
                let k = choose|k: int| 0 <= k < s.len() && s[k] == x;
                if k < i {
                    assert(r[k] == x);
                } else {
                    assert(r[k - 1] == x);
                }
            }
        }
    }
}

/// A line splits into two lists without repetitions that share nothing.
pub(crate) proof fn line_splits(a: Seq<u64>, b: Seq<u64>)
    ensures
        (a + b).no_duplicates() <==> a.no_duplicates() && b.no_duplicates() && (forall|x: u64|
            !(a.contains(x) && b.contains(x))),
{
    let s = a + b;
    if s.no_duplicates() {
        assert forall|i: int, j: int|
            0 <= i < a.len() && 0 <= j < a.len() && i != j implies a[i] != a[j] by {
            assert(s[i] == a[i] && s[j] == a[j]);
        }
        assert forall|i: int, j: int|
            0 <= i < b.len() && 0 <= j < b.len() && i != j implies b[i] != b[j] by {
            assert(s[i + a.len()] == b[i] && s[j + a.len()] == b[j]);
        }
        assert forall|x: u64| !(a.contains(x) && b.contains(x)) by {
            if a.contains(x) && b.contains(x) {
                let i = choose|i: int| 0 <= i < a.len() && a[i] == x;
                let j = choose|j: int| 0 <= j < b.len() && b[j] == x;
                assert(s[i] == s[j + a.len()]);
            }
        }
    }
    if a.no_duplicates() && b.no_duplicates() && (forall|x: u64|
        !(a.contains(x) && b.contains(x))) {
        assert forall|i: int, j: int|
            0 <= i < s.len() && 0 <= j < s.len() && i != j implies s[i] != s[j] by {
            if s[i] == s[j] {
                if i < a.len() && j >= a.len() {
                    assert(a.contains(s[i]) && b.contains(s[j]));
                }
                if j < a.len() && i >= a.len() {
                    assert(a.contains(s[j]) && b.contains(s[i]));
                }
            }
        }
    }
}

impl<S> PoolView<S> {
    /// Everything in `wf` that does not count slots.
    spec fn wf_line(self) -> bool {
        &&& self.waiting.no_duplicates()
        &&& self.granted.no_duplicates()
        &&& forall|x: u64| !(self.waiting.contains(x) && #[trigger] self.granted.contains(x))
        &&& forall|i: int| 0 <= i < self.waiting.len() ==> #[trigger] self.waiting[i] < self.next_ticket
        &&& forall|i: int| 0 <= i < self.granted.len() ==> #[trigger] self.granted[i] < self.next_ticket
    }

    proof fn line_facts(self)
        ensures
            self.wf() ==> self.wf_line(),
            self.wf_line() ==> (self.waiting + self.granted).no_duplicates(),
    {
        line_splits(self.waiting, self.granted);
        if self.wf_line() {
            assert forall|x: u64| !(self.waiting.contains(x) && self.granted.contains(x)) by {}
        }
    }

    /// A ticket that leaves keeps the line in order.
    proof fn leaver_keeps_line(self, t: u64)
        requires
            self.wf_line(),
        ensures
            (PoolView { granted: without(self.granted, t), ..self }).wf_line(),
            (PoolView { waiting: without(self.waiting, t), ..self }).wf_line(),
    {
        without_facts(self.granted, t);
        without_facts(self.waiting, t);
        let g = without(self.granted, t);
        assert forall|i: int| 0 <= i < g.len() implies #[trigger] g[i] < self.next_ticket by {
            assert(g.contains(g[i]));
            let k = choose|k: int| 0 <= k < self.granted.len() && self.granted[k] == g[i];
        }
        assert forall|x: u64| !(self.waiting.contains(x) && #[trigger] g.contains(x)) by {
            if g.contains(x) {
                assert(self.granted.contains(x));
            }
        }
        let w = without(self.waiting, t);
        assert forall|i: int| 0 <= i < w.len() implies #[trigger] w[i] < self.next_ticket by {
            assert(w.contains(w[i]));
            let k = choose|k: int| 0 <= k < self.waiting.len() && self.waiting[k] == w[i];
        }
    }

    /// A claim that joins keeps the line in order.
    proof fn waiter_keeps_line(self)
        requires
            self.wf_line(),
            self.next_ticket < u64::MAX,
        ensures
            self.with_waiter().wf_line(),
    {
        let v = self.with_waiter();
        let ticket = self.next_ticket as u64;
        assert forall|x: u64| #[trigger] v.waiting.contains(x) implies self.waiting.contains(x) || x
            == ticket by {
            let k = choose|k: int| 0 <= k < v.waiting.len() && v.waiting[k] == x;
            if k < self.waiting.len() {
                assert(self.waiting[k] == x);
            }
        }
        assert forall|x: u64| !(v.waiting.contains(x) && #[trigger] v.granted.contains(x)) by {
            if v.granted.contains(x) {
                let k = choose|k: int| 0 <= k < v.granted.len() && v.granted[k] == x;
                assert(self.granted[k] < self.next_ticket);
                assert(self.granted.contains(x));
            }
        }
        assert forall|i: int, j: int|
            0 <= i < v.waiting.len() && 0 <= j < v.waiting.len() && i
                != j implies v.waiting[i] != v.waiting[j] by {
            if i < self.waiting.len() {
                assert(self.waiting[i] < self.next_ticket);
            }
            if j < self.waiting.len() {
                assert(self.waiting[j] < self.next_ticket);
            }
        }
    }

    /// Slots that are given out keep the line in order.
    proof fn giving_keeps_line(self, n: int)
        requires
            self.wf_line(),
            0 <= n <= self.waiting.len(),
        ensures
            (PoolView {
                waiting: self.waiting.skip(n),
                granted: self.granted + self.waiting.take(n),
                ..self
            }).wf_line(),
    {
        let w = self.waiting.skip(n);
        let t = self.waiting.take(n);
        let g = self.granted + t;
        line_splits(self.granted, t);
        assert forall|x: u64| t.contains(x) implies self.waiting.contains(x) by {
            let j = choose|j: int| 0 <= j < t.len() && t[j] == x;
            assert(self.waiting[j] == x);
        }
        assert forall|x: u64| w.contains(x) implies self.waiting.contains(x) && !t.contains(x) by {
            let i = choose|i: int| 0 <= i < w.len() && w[i] == x;
            assert(self.waiting[i + n] == x);
            if t.contains(x) {
                let j = choose|j: int| 0 <= j < t.len() && t[j] == x;
                assert(self.waiting[j] == self.waiting[i + n]);
            }
        }
        assert forall|x: u64| g.contains(x) implies self.granted.contains(x) || t.contains(x) by {
            let i = choose|i: int| 0 <= i < g.len() && g[i] == x;
            if i < self.granted.len() {
                assert(self.granted[i] == x);
            } else {
                assert(t[i - self.granted.len()] == x);
            }
        }
        assert forall|x: u64| !(w.contains(x) && #[trigger] g.contains(x)) by {
            if w.contains(x) && g.contains(x) {
                assert(self.waiting.contains(x));
                assert(self.granted.contains(x));
            }
        }
        assert forall|x: u64| !(self.granted.contains(x) && t.contains(x)) by {
            if self.granted.contains(x) && t.contains(x) {
                assert(self.waiting.contains(x));
            }
        }
    }

    /// A slot that comes back keeps the line in order.
    proof fn slot_back_keeps_line(self)
        requires
            self.wf_line(),
        ensures
            self.with_slot_back().wf_line(),
    {
        let v = self.with_slot_back();
        if self.surplus == 0 && !self.closed && self.waiting.len() > 0 {
            let first = self.waiting[0];
            assert(self.waiting.contains(first));
            assert forall|x: u64| v.waiting.contains(x) implies self.waiting.contains(x) && x
                != first by {
                let k = choose|k: int| 0 <= k < v.waiting.len() && v.waiting[k] == x;
                assert(self.waiting[k + 1] == x);
            }
            assert forall|x: u64| v.granted.contains(x) implies self.granted.contains(x) || x
                == first by {
                let k = choose|k: int| 0 <= k < v.granted.len() && v.granted[k] == x;
                if k < self.granted.len() {
                    assert(self.granted[k] == x);
                }
            }
            assert(!self.granted.contains(first));
            assert forall|i: int, j: int|
                0 <= i < v.granted.len() && 0 <= j < v.granted.len() && i
                    != j implies v.granted[i] != v.granted[j] by {
                if i < self.granted.len() {
                    assert(self.granted.contains(v.granted[i]));
                }
                if j < self.granted.len() {
                    assert(self.granted.contains(v.granted[j]));
                }
            }
        }
    }
}

impl<S> Pool<S> {
    /// A pool with every slot free and no stock.
    pub fn new(options: PoolOptions) -> (r: Self)
        requires
            options.max_sessions <= usize::MAX / 8,
        ensures
            r@ == PoolView::<S>::fresh(options),
            r@.wf(),
    {
        let r = Pool {
            options,
            available: options.max_sessions,
            waiting: Vec::new(),
            granted: Vec::new(),
            next_ticket: 0,
            surplus: 0,
            starting: 0,
            inline: 0,
            held: 0,
            warm: Vec::new(),
            launching: 0,
            closed: false,
            backoff_ms: BACKOFF_START_MS,
            nudge: false,
        };
        assert(r@ =~= PoolView::<S>::fresh(options));
        r
    }

    /// A claim asks for a slot. A free slot is taken at once; otherwise the
    /// claim joins the line, unless the line is full or the pool is closed.
    pub fn claim(&mut self) -> (r: Result<Admission, ClaimError>)
        requires
            old(self)@.wf(),
            old(self)@.next_ticket < u64::MAX,
        ensures
            final(self)@.wf(),
            (r, final(self)@) == old(self)@.claim_of(),
    {
        if self.closed {
            return Err(ClaimError::Closed);
        }
        if self.available > 0 {
            self.available -= 1;
            self.starting += 1;
            assert(self@ =~= old(self)@.with_admitted());
            proof {
                old(self)@.line_facts();
                self@.line_facts();
            }
            return Ok(Admission::Admitted);
        }
        let room: usize = self.options.max_queue - self.granted.len();
        if self.waiting.len() >= room {
            return Err(ClaimError::QueueFull { max_queue: self.options.max_queue });
        }
        let ticket: u64 = self.next_ticket;
        self.waiting.push(ticket);
        self.next_ticket = ticket + 1;
        assert(self@ =~= old(self)@.with_waiter());
        proof {
            old(self)@.line_facts();
            old(self)@.waiter_keeps_line();
            self@.line_facts();
        }
        Ok(Admission::Wait(ticket))
    }

    fn slot_back(&mut self)
        requires
            old(self)@.wf_line(),
            old(self)@.available < usize::MAX,
        ensures
            final(self)@ == old(self)@.with_slot_back(),
            final(self)@.wf_line(),
    {
        proof {
            old(self)@.slot_back_keeps_line();
        }
        if self.surplus > 0 {
            self.surplus -= 1;
        } else if !self.closed && self.waiting.len() > 0 {
            let first: u64 = self.waiting.remove(0);
            self.granted.push(first);
            assert(old(self)@.waiting.remove(0) =~= old(self)@.waiting.skip(1));
        } else {
            self.available += 1;
        }
        assert(self@ =~= old(self)@.with_slot_back());
    }

    /// Something happened to the claim waiting under `ticket`.
    pub fn wait(&mut self, ticket: u64, event: WaitEvent) -> (r: Result<WaitStep, ClaimError>)
        requires
            old(self)@.wf(),
            old(self)@.in_line(ticket),
        ensures
            final(self)@.wf(),
            (r, final(self)@) == old(self)@.wait_of(ticket, event),
    {
        proof {
            old(self)@.line_facts();
            without_facts(old(self)@.granted, ticket);
            without_facts(old(self)@.waiting, ticket);
            old(self)@.leaver_keeps_line(ticket);
        }
        let cancelled = match event {
            WaitEvent::Cancelled => true,
            _ => false,
        };
        if cancelled || self.closed {
            let had_slot = remove_ticket(&mut self.granted, ticket);
            if had_slot {
                assert(self@ =~= (PoolView {
                    granted: without(old(self)@.granted, ticket),
                    ..old(self)@
                }));
                self.slot_back();
            } else {
                remove_ticket(&mut self.waiting, ticket);
            }
            assert(self@ =~= old(self)@.with_leaver(ticket));
            proof {
                self@.line_facts();
            }
            return if cancelled {
                Ok(WaitStep::Gone)
            } else {
                Err(ClaimError::Closed)
            };
        }
        let granted = remove_ticket(&mut self.granted, ticket);
        if granted {
            self.starting += 1;
            assert(self@ =~= old(self)@.with_pickup(ticket));
            proof {
                self@.line_facts();
            }
            return Ok(WaitStep::Admitted);
        }
        assert(self@ =~= old(self)@);
        match event {
            WaitEvent::Elapsed(ns) => {
                remove_ticket(&mut self.waiting, ticket);
                assert(self@ =~= old(self)@.with_leaver(ticket));
                proof {
                    self@.line_facts();
                }
                Err(ClaimError::QueueTimeout { waited_ms: millis(ns) })
            },
            _ => Ok(WaitStep::Waiting),
        }
    }

    fn pop_warm(&mut self) -> (r: S)
        requires
            old(self)@.wf(),
            old(self)@.warm.len() > 0,
        ensures
            final(self)@.wf(),
            final(self)@ == old(self)@.with_taken(),
            r == old(self)@.warm[0].session,
    {
        self.nudge = true;
        let entry = self.warm.remove(0);
        assert(old(self)@.warm.remove(0) =~= old(self)@.warm.skip(1));
        assert(self@ =~= (PoolView { warm: old(self)@.warm.skip(1), nudge: true, ..old(self)@ }));
        entry.session
    }

    fn look(&mut self, discard: Option<S>) -> (r: Search<S>)
        requires
            old(self)@.wf(),
            old(self)@.starting > 0,
        ensures
            final(self)@.wf(),
            (r, final(self)@) == old(self)@.looked(discard),
    {
        if self.warm.len() > 0 {
            return Search::Check { discard, session: self.pop_warm() };
        }
        self.starting -= 1;
        self.inline += 1;
        self.nudge = true;
        assert(self@ =~= old(self)@.with_inline());
        Search::Launch { discard }
    }

    /// What an admitted claim does next. It takes the parked session that has
    /// waited longest and gets it if it is alive; a dead one is given up to be
    /// destroyed, and the claim looks on. Only with none left a session is
    /// launched for it.
    pub fn search(&mut self, event: SearchEvent<S>) -> (r: Search<S>)
        requires
            old(self)@.wf(),
            old(self)@.can_search(event),
        ensures
            final(self)@.wf(),
            (r, final(self)@) == old(self)@.search_of(event),
    {
        match event {
            SearchEvent::Begin => self.look(None),
            SearchEvent::Checked(session, alive) => {
                if !alive {
                    return self.look(Some(session));
                }
                self.starting -= 1;
                self.held += 1;
                assert(self@ =~= old(self)@.with_handed_out());
                Search::Got(Claimed { session: Some(session) })
            },
            SearchEvent::Launched(Ok(session)) => {
                self.inline -= 1;
                self.held += 1;
                assert(self@ =~= old(self)@.with_served());
                Search::Got(Claimed { session: Some(session) })
            },
            SearchEvent::Launched(Err(message)) => {
                proof {
                    old(self)@.line_facts();
                }
                self.inline -= 1;
                assert(self@ =~= (PoolView { inline: (old(self)@.inline - 1) as nat, ..old(self)@ }));
                self.slot_back();
                proof {
                    self@.line_facts();
                }
                Search::Failed(ClaimError::Launch { message })
            },
        }
    }

    /// How many admitted claims look for a session in the stock.
    pub fn searching(&self) -> (r: usize)
        ensures
            r as nat == self@.starting,
    {
        self.starting
    }

    /// How many admitted claims have a session launched for them.
    pub fn launching_inline(&self) -> (r: usize)
        ensures
            r as nat == self@.inline,
    {
        self.inline
    }

    /// Takes the session of a claim for its destroy. [`Pool::release`] frees
    /// the slot once the session is destroyed.
    pub fn destroy(&self, claimed: Claimed<S>) -> (r: Option<S>)
        ensures
            r == claimed.session,
    {
        let mut claimed = claimed;
        claimed.take_session()
    }

    /// The session of a claim was destroyed: its slot is free again, or goes
    /// to the first claim in the line.
    pub fn release(&mut self)
        requires
            old(self)@.wf(),
            old(self)@.held > 0,
        ensures
            final(self)@.wf(),
            final(self)@ == old(self)@.with_released(),
    {
        proof {
            old(self)@.line_facts();
        }
        self.held -= 1;
        self.nudge = true;
        assert(self@ =~= (PoolView {
            held: (old(self)@.held - 1) as nat,
            nudge: true,
            ..old(self)@
        }));
        self.slot_back();
        proof {
            self@.line_facts();
        }
    }

    /// Stops intake: queued and future claims fail with [`ClaimError::Closed`].
    /// The parked sessions are handed over to be destroyed.
    pub fn close(&mut self) -> (r: Vec<S>)
        requires
            old(self)@.wf(),
        ensures
            final(self)@.wf(),
            final(self)@ == old(self)@.with_closed(),
            r@ == sessions_of(old(self)@.warm),
    {
        self.closed = true;
        self.nudge = true;
        let mut parked: Vec<Warm<S>> = Vec::new();
        parked.append(&mut self.warm);
        assert(parked@ =~= old(self)@.warm);
        assert(self@ =~= (PoolView {
            closed: true,
            warm: Seq::<Warm<S>>::empty(),
            nudge: true,
            ..old(self)@
        }));
        let mut drained: Vec<S> = Vec::new();
        let ghost all = parked@;
        while parked.len() > 0
            invariant
                drained@ + sessions_of(parked@) == sessions_of(all),
            decreases parked.len(),
        {
            let ghost before = parked@;
            let entry = parked.remove(0);
            assert(sessions_of(before) =~= seq![entry.session] + sessions_of(parked@));
            drained.push(entry.session);
            assert(drained@ + sessions_of(parked@) =~= sessions_of(all));
        }
        assert(drained@ =~= sessions_of(all));
        drained
    }

    /// Gives the pool another size, now that more is known. The claims that wait
    /// get the slots that are new, those who came first first. A session beyond
    /// the new ceiling is not ended, but its slot goes away with it.
    pub fn resize(&mut self, options: PoolOptions)
        requires
            old(self)@.wf(),
            old(self)@.can_resize(options),
        ensures
            final(self)@.wf(),
            final(self)@ == old(self)@.with_size(options),
    {
        let ghost before = self@;
        let ghost all = self.waiting@;
        let ghost given = self.granted@;
        proof {
            before.line_facts();
        }
        let used: usize = self.granted.len() + self.starting + self.inline + self.held;
        self.options = options;
        self.nudge = true;
        if options.max_sessions <= used {
            self.available = 0;
            self.surplus = used - options.max_sessions;
            assert(self@ =~= before.with_size(options));
            proof {
                self@.line_facts();
            }
            return;
        }
        self.surplus = 0;
        let free: usize = options.max_sessions - used;
        let mut n: usize = 0;
        assert(all.skip(0) =~= all);
        assert(given + all.take(0) =~= given);
        while !self.closed && self.waiting.len() > 0 && n < free
            invariant
                n <= free,
                n <= all.len(),
                self.closed ==> n == 0,
                self@ == (PoolView {
                    options,
                    surplus: 0,
                    waiting: all.skip(n as int),
                    granted: given + all.take(n as int),
                    nudge: true,
                    ..before
                }),
            decreases self.waiting.len(),
        {
            let first: u64 = self.waiting.remove(0);
            self.granted.push(first);
            proof {
                assert(all.skip(n as int).remove(0) =~= all.skip(n + 1));
                assert((given + all.take(n as int)).push(all[n as int]) =~= given + all.take(n + 1));
                assert(self@ =~= (PoolView {
                    options,
                    surplus: 0,
                    waiting: all.skip(n + 1),
                    granted: given + all.take(n + 1),
                    nudge: true,
                    ..before
                }));
            }
            n += 1;
        }
        self.available = free - n;
        assert(self@ =~= before.with_size(options));
        proof {
            before.giving_keeps_line(n as int);
            self@.line_facts();
        }
    }

    /// Whether [`Pool::resize`] may be called with these options.
    pub fn may_resize(&self, options: PoolOptions) -> (r: bool)
        ensures
            r == self@.can_resize(options),
    {
        options.max_sessions <= usize::MAX / 8 && options.max_queue == self.options.max_queue
            && options.min_ready >= self.options.min_ready
    }

    /// Current counters, derived from live state.
    pub fn stats(&self) -> (r: PoolStats)
        requires
            self@.wf(),
        ensures
            self@.shows(r),
            r.running <= r.max_sessions + self@.surplus,
            r.queued <= r.max_queue,
            r.warm <= self@.options.min_ready,
    {
        PoolStats {
            running: self.granted.len() + self.starting + self.inline + self.held,
            queued: self.waiting.len() + self.granted.len(),
            warm: self.warm.len(),
            max_sessions: self.options.max_sessions,
            max_queue: self.options.max_queue,
            accepting: !self.closed,
        }
    }

    /// Whether there is a ticket left for another waiting claim.
    pub fn has_tickets(&self) -> (r: bool)
        ensures
            r == (self@.next_ticket < u64::MAX),
    {
        self.next_ticket < u64::MAX
    }

    /// How many claims hold a session that is not released yet.
    pub fn held(&self) -> (r: usize)
        ensures
            r as nat == self@.held,
    {
        self.held
    }

    /// How many sessions are parked.
    pub fn warm_len(&self) -> (r: usize)
        ensures
            r as nat == self@.warm.len(),
    {
        self.warm.len()
    }

    /// Mutable access to a parked session (for its liveness check).
    pub fn warm_mut(&mut self, i: usize) -> (r: &mut S)
        requires
            old(self)@.wf(),
            i < old(self)@.warm.len(),
        ensures
            *r == old(self)@.warm[i as int].session,
            final(self)@ == (PoolView {
                warm: old(self)@.warm.update(
                    i as int,
                    (Warm {
                        session: *final(r),
                        ready_at: old(self)@.warm[i as int].ready_at,
                    }),
                ),
                ..old(self)@
            }),
            final(self)@.wf(),
    {
        &mut self.warm[i].session
    }

    /// Whether the replenisher was nudged since the last time this was asked.
    pub fn take_nudge(&mut self) -> (r: bool)
        requires
            old(self)@.wf(),
        ensures
            r == old(self)@.nudge,
            final(self)@ == (PoolView { nudge: false, ..old(self)@ }),
            final(self)@.wf(),
    {
        let r = self.nudge;
        self.nudge = false;
        assert(self@ =~= (PoolView { nudge: false, ..old(self)@ }));
        r
    }

    /// Removes parked sessions that are dead, too old, or idle beyond the
    /// stock that is kept ready, and hands them over to be destroyed.
    /// `alive[i]` says whether the `i`th parked session is alive.
    pub fn cull_warm(&mut self, now: u128, alive: &Vec<bool>) -> (r: Vec<S>)
        requires
            old(self)@.wf(),
            alive@.len() == old(self)@.warm.len(),
        ensures
            final(self)@.wf(),
            final(self)@ == old(self)@.with_culled(now, alive@),
            r@ == culled_of(old(self)@.warm, alive@, now, old(self)@.options),
    {
        let mut parked: Vec<Warm<S>> = Vec::new();
        parked.append(&mut self.warm);
        assert(parked@ =~= old(self)@.warm);
        let options = self.options;
        let ghost all = parked@;
        let mut kept: Vec<Warm<S>> = Vec::new();
        let mut removed: Vec<S> = Vec::new();
        let mut i: usize = 0;
        assert(all.skip(0) =~= all);
        assert(all.take(0) =~= Seq::empty());
        while parked.len() > 0
            invariant
                i <= all.len() == alive@.len() == alive.len(),
                parked@ == all.skip(i as int),
                kept@ == kept_of(all.take(i as int), alive@, now, options),
                removed@ == culled_of(all.take(i as int), alive@, now, options),
                kept@.len() <= i,
            decreases parked.len(),
        {
            let entry = parked.remove(0);
            assert(entry == all[i as int]);
            assert(all.skip(i as int).remove(0) =~= all.skip(i + 1));
            let age: u128 = if now >= entry.ready_at {
                now - entry.ready_at
            } else {
                0
            };
            let dead = !alive[i];
            let too_old = age >= options.warm_max_age;
            let excess_idle = kept.len() >= options.min_ready && age >= options.warm_idle;
            proof {
                let t = all.take(i + 1);
                assert(t.drop_last() =~= all.take(i as int));
                assert(t.last() == entry);
            }
            if dead || too_old || excess_idle {
                removed.push(entry.session);
            } else {
                kept.push(entry);
            }
            i += 1;
        }
        assert(all.take(i as int) =~= all);
        self.warm = kept;
        assert(self@ =~= (PoolView {
            warm: kept_of(old(self)@.warm, alive@, now, old(self)@.options),
            ..old(self)@
        }));
        removed
    }

    /// Decides what the replenisher does next, once the stock is culled. A
    /// launch is counted until its outcome is reported.
    pub fn replenish(&mut self) -> (r: Replenish)
        requires
            old(self)@.wf(),
        ensures
            final(self)@.wf(),
            final(self)@ == old(self)@.with_launch(),
            old(self)@.closed ==> r == Replenish::Stop,
            !old(self)@.closed && old(self)@.wanted() == 0 ==> r == Replenish::Idle(
                if old(self)@.options.warm_idle < REPLENISH_TICK_NS {
                    old(self)@.options.warm_idle
                } else {
                    REPLENISH_TICK_NS
                },
            ),
            !old(self)@.closed && old(self)@.wanted() > 0 ==> r == Replenish::Launch,
            r == Replenish::Launch <==> !old(self)@.closed && old(self)@.warm.len()
                + old(self)@.launching < old(self)@.options.min_ready && old(self)@.granted.len()
                + old(self)@.starting + old(self)@.inline + old(self)@.held + old(self)@.warm.len()
                + old(self)@.launching < old(self)@.options.max_sessions,
            r == Replenish::Launch ==> final(self)@.launching == old(self)@.launching + 1
                && final(self)@.granted.len() + final(self)@.starting + final(self)@.inline + final(self)@.held
                + final(self)@.warm.len() + final(self)@.launching
                <= final(self)@.options.max_sessions,
    {
        if self.closed {
            return Replenish::Stop;
        }
        let stock: usize = self.warm.len() + self.launching;
        let active: usize = self.granted.len() + self.starting + self.inline + self.held;
        let headroom: usize = self.options.max_sessions.saturating_sub(
            active.saturating_add(stock),
        );
        let missing: usize = self.options.min_ready - stock;
        let wanted: usize = if missing < headroom {
            missing
        } else {
            headroom
        };
        assert(wanted as int == old(self)@.wanted());
        if wanted == 0 {
            let tick: u128 = if self.options.warm_idle < REPLENISH_TICK_NS {
                self.options.warm_idle
            } else {
                REPLENISH_TICK_NS
            };
            return Replenish::Idle(tick);
        }
        self.launching += 1;
        assert(self@ =~= (PoolView { launching: old(self)@.launching + 1, ..old(self)@ }));
        Replenish::Launch
    }

    /// The outcome of a warm launch at `now`.
    pub fn restock(&mut self, outcome: Result<S, String>, now: u128) -> (r: Restock<S>)
        requires
            old(self)@.wf(),
            old(self)@.launching > 0,
        ensures
            final(self)@.wf(),
            match outcome {
                Ok(session) => {
                    &&& final(self)@ == old(self)@.with_launched(session, now)
                    &&& r == (if old(self)@.closed {
                        Restock::Discard(session)
                    } else {
                        Restock::Parked
                    })
                },
                Err(_) => {
                    &&& final(self)@ == old(self)@.with_missed()
                    &&& r == Restock::<S>::Backoff(old(self)@.backoff_ms as u64)
                },
            },
    {
        let ghost got = outcome;
        self.launching -= 1;
        let r = match outcome {
            Ok(session) => {
                self.backoff_ms = BACKOFF_START_MS;
                if self.closed {
                    Restock::Discard(session)
                } else {
                    self.warm.push(Warm { session, ready_at: now });
                    Restock::Parked
                }
            },
            Err(_) => {
                let pause: u64 = self.backoff_ms;
                self.backoff_ms = if pause * 2 < BACKOFF_LIMIT_MS {
                    pause * 2
                } else {
                    BACKOFF_LIMIT_MS
                };
                Restock::Backoff(pause)
            },
        };
        proof {
            match got {
                Ok(session) => {
                    assert(self@ =~= old(self)@.with_launched(session, now));
                },
                Err(_) => {
                    assert(self@ =~= old(self)@.with_missed());
                },
            }
        }
        r
    }
}

/// Whole milliseconds in `ns` nanoseconds, at most `u64::MAX`.
pub fn millis(ns: u128) -> (r: u64)
    ensures
        r == millis_of(ns as nat),
{
    let ms: u128 = ns / 1_000_000;
    if ms > u64::MAX as u128 {
        u64::MAX
    } else {
        ms as u64
    }
}

/// A claim that is admitted, served and destroyed leaves the pool as it was,
/// but for the nudge to the replenisher.
pub proof fn claim_and_destroy_round_trip<S>(v: PoolView<S>)
    requires
        v.wf(),
        !v.closed,
        v.available > 0,
    ensures
        v.claim_of().0 == Ok::<Admission, ClaimError>(Admission::Admitted),
        v.claim_of().1.with_handed_out().with_released() == (PoolView { nudge: true, ..v }),
        v.claim_of().1.with_inline().with_served().with_released() == (PoolView {
            nudge: true,
            ..v
        }),
{
    assert(v.claim_of().1.with_handed_out().with_released() =~= (PoolView { nudge: true, ..v }));
    assert(v.claim_of().1.with_inline().with_served().with_released() =~= (PoolView {
        nudge: true,
        ..v
    }));
}

/// A failed inline launch gives back exactly the capacity it took, and nudges
/// the replenisher.
pub proof fn launch_failure_restores_capacity<S>(v: PoolView<S>)
    requires
        v.wf(),
        !v.closed,
        v.available > 0,
    ensures
        v.claim_of().1.with_inline().with_failed() == (PoolView { nudge: true, ..v }),
{
    assert(v.claim_of().1.with_inline().with_failed() =~= (PoolView { nudge: true, ..v }));
}

/// A claim that joins the line and goes away leaves nothing behind but a used
/// ticket number.
pub proof fn cancelled_waiter_leaves_no_trace<S>(v: PoolView<S>, t: u64)
    requires
        v.wf(),
        v.next_ticket < u64::MAX,
        v.claim_of().0 == Ok::<Admission, ClaimError>(Admission::Wait(t)),
    ensures
        v.claim_of().1.wait_of(t, WaitEvent::Cancelled).1 == (PoolView {
            next_ticket: v.next_ticket + 1,
            ..v
        }),
        v.claim_of().1.wait_of(t, WaitEvent::Cancelled).1.queued() == v.queued(),
{
    let w = v.claim_of().1;
    let n = v.waiting.len() as int;
    assert(w.waiting[n] == t);
    assert(!w.granted.contains(t)) by {
        if w.granted.contains(t) {
            let k = choose|k: int| 0 <= k < v.granted.len() && v.granted[k] == t;
            assert(v.granted[k] < v.next_ticket);
        }
    }
    assert(w.waiting.contains(t));
    let k = w.waiting.index_of(t);
    assert(k == n) by {
        if k < n {
            assert(v.waiting[k] < v.next_ticket);
        }
    }
    assert(w.waiting.remove(n) =~= v.waiting);
    assert(w.wait_of(t, WaitEvent::Cancelled).1 =~= (PoolView {
        next_ticket: v.next_ticket + 1,
        ..v
    }));
}

/// A slot that comes back, and is not one too many, goes to the claim that has
/// waited longest, which gets it even if its time is up.
pub proof fn longest_waiter_is_served<S>(v: PoolView<S>, event: WaitEvent)
    requires
        v.wf(),
        !v.closed,
        v.surplus == 0,
        v.held > 0,
        v.waiting.len() > 0,
        event !is Cancelled,
    ensures
        v.with_released().wait_of(v.waiting[0], event).0 == Ok::<WaitStep, ClaimError>(
            WaitStep::Admitted,
        ),
        v.with_released().available == v.available,
{
    let w = v.with_released();
    assert(w.granted[v.granted.len() as int] == v.waiting[0]);
}

/// Claims that wait are served when a pool grows, in the order in which they
/// came, as far as there are slots for them.
pub proof fn growing_serves_who_waited<S>(
    v: PoolView<S>,
    options: PoolOptions,
    i: int,
    event: WaitEvent,
)
    requires
        v.wf(),
        !v.closed,
        v.can_resize(options),
        0 <= i < v.waiting.len(),
        event is Woken,
    ensures
        v.with_size(options).wait_of(v.waiting[i], event).0 == Ok::<WaitStep, ClaimError>(
            if v.in_use() + i < options.max_sessions {
                WaitStep::Admitted
            } else {
                WaitStep::Waiting
            },
        ),
{
    let w = v.with_size(options);
    let t = v.waiting[i];
    let k = v.granted.len() as int;
    v.line_facts();
    assert(v.waiting.contains(t));
    assert(!v.granted.contains(t));
    if v.in_use() + i < options.max_sessions {
        assert(w.granted[k + i] == t);
    } else {
        assert(!w.granted.contains(t)) by {
            if w.granted.contains(t) {
                let j = choose|j: int| 0 <= j < w.granted.len() && w.granted[j] == t;
                if j < k {
                    assert(v.granted[j] == t);
                } else {
                    assert(v.waiting[j - k] == v.waiting[i]);
                }
            }
        }
    }
}

/// No claim is admitted beyond the ceiling. While a pool that was made smaller
/// has more slots in use than it may, no claim is admitted and no slot that
/// comes back is given to anybody.
pub proof fn ceiling_holds_at_admission<S>(v: PoolView<S>)
    requires
        v.wf(),
    ensures
        v.claim_of().0 == Ok::<Admission, ClaimError>(Admission::Admitted)
            ==> v.claim_of().1.in_use() <= v.options.max_sessions,
        v.surplus > 0 ==> v.claim_of().0 != Ok::<Admission, ClaimError>(Admission::Admitted),
        v.surplus > 0 && v.held > 0 ==> v.with_released().granted == v.granted
            && v.with_released().available == 0 && v.with_released().in_use() == v.in_use() - 1,
{
}

/// Whatever happens, a session is launched for a claim only when nothing is
/// parked.
pub proof fn inline_launch_needs_an_empty_stock<S>(v: PoolView<S>, m: PoolMove<S>)
    requires
        m matches PoolMove::Search(event) ==> v.can_search(event),
        v.moved(m).inline > v.inline,
    ensures
        v.warm.len() == 0,
        m is Search,
{
}

/// How the search of an admitted claim ends.
pub struct SearchEnd<S> {
    /// The parked session that it got; with none it has one launched.
    pub claimed: Option<S>,
    /// The sessions that it gave up to be destroyed, in order.
    pub given_up: Seq<S>,
    /// The pool then.
    pub pool: PoolView<S>,
}

/// A session that may be absent, as a list.
pub open spec fn listed<S>(session: Option<S>) -> Seq<S> {
    match session {
        Some(s) => seq![s],
        None => Seq::empty(),
    }
}

/// How a search goes on from this event when nothing else happens, up to the
/// launch of a session if it comes to that. `alive[i]` says whether the `i`th
/// parked session is alive.
pub open spec fn searched<S>(v: PoolView<S>, event: SearchEvent<S>, alive: Seq<bool>) -> SearchEnd<
    S,
>
    decreases v.warm.len(),
{
    match v.search_of(event) {
        (Search::Check { discard, session }, pool) => if pool.warm.len() < v.warm.len() {
            let rest = searched(pool, SearchEvent::Checked(session, alive[0]), alive.skip(1));
            SearchEnd { given_up: listed(discard) + rest.given_up, ..rest }
        } else {
            SearchEnd { claimed: None, given_up: Seq::empty(), pool }
        },
        (Search::Launch { discard }, pool) => SearchEnd {
            claimed: None,
            given_up: listed(discard),
            pool,
        },
        (Search::Got(claimed), pool) => SearchEnd {
            claimed: claimed.session,
            given_up: Seq::empty(),
            pool,
        },
        (Search::Failed(_), pool) => SearchEnd { claimed: None, given_up: Seq::empty(), pool },
    }
}

/// How many sessions stand in front of the first one that is alive, or in all.
pub open spec fn dead_in_front(alive: Seq<bool>) -> int
    decreases alive.len(),
{
    if alive.len() == 0 || alive[0] {
        0
    } else {
        1 + dead_in_front(alive.skip(1))
    }
}

/// A claim gets the parked session that has waited longest among those that are
/// alive. It gives up exactly the dead ones in front of it, and has a session
/// launched only if none is alive.
pub proof fn claim_gets_the_oldest_live_session<S>(v: PoolView<S>, alive: Seq<bool>)
    requires
        v.wf(),
        v.starting > 0,
        alive.len() == v.warm.len(),
    ensures
        ({
            let n = dead_in_front(alive);
            let end = searched(v, SearchEvent::Begin, alive);
            &&& 0 <= n <= v.warm.len()
            &&& forall|i: int| 0 <= i < n ==> !#[trigger] alive[i]
            &&& end.given_up == sessions_of(v.warm.take(n))
            &&& n < v.warm.len() ==> alive[n] && end.claimed == Some(v.warm[n].session) && end.pool
                == (PoolView { warm: v.warm.skip(n + 1), nudge: true, ..v }).with_handed_out()
            &&& n == v.warm.len() ==> end.claimed is None && end.pool == (PoolView {
                warm: v.warm.skip(n),
                nudge: true,
                ..v
            }).with_inline()
        }),
{
    search_runs(v, None, alive);
    assert(listed(None::<S>) + sessions_of(v.warm.take(dead_in_front(alive))) =~= sessions_of(
        v.warm.take(dead_in_front(alive)),
    ));
}

proof fn search_runs<S>(v: PoolView<S>, discard: Option<S>, alive: Seq<bool>)
    requires
        alive.len() == v.warm.len(),
    ensures
        ({
            let n = dead_in_front(alive);
            let end = searched(
                v,
                match discard {
                    None => SearchEvent::Begin,
                    Some(s) => SearchEvent::Checked(s, false),
                },
                alive,
            );
            &&& 0 <= n <= v.warm.len()
            &&& forall|i: int| 0 <= i < n ==> !#[trigger] alive[i]
            &&& end.given_up == listed(discard) + sessions_of(v.warm.take(n))
            &&& n < v.warm.len() ==> alive[n] && end.claimed == Some(v.warm[n].session) && end.pool
                == (PoolView { warm: v.warm.skip(n + 1), nudge: true, ..v }).with_handed_out()
            &&& n == v.warm.len() ==> end.claimed is None && end.pool == (PoolView {
                warm: v.warm.skip(n),
                nudge: true,
                ..v
            }).with_inline()
        }),
    decreases v.warm.len(),
{
    reveal_with_fuel(searched, 2);
    let n = dead_in_front(alive);
    let event = match discard {
        None => SearchEvent::Begin,
        Some(s) => SearchEvent::Checked(s, false),
    };
    let end = searched(v, event, alive);
    if v.warm.len() == 0 {
        assert(sessions_of(v.warm.take(n)) =~= Seq::empty());
        assert(listed(discard) + Seq::<S>::empty() =~= listed(discard));
        assert(v.warm.skip(0) =~= v.warm);
        assert(end.pool =~= (PoolView { warm: v.warm.skip(n), nudge: true, ..v }).with_inline());
    } else {
        let next = v.with_taken();
        let first = v.warm[0].session;
        let rest = alive.skip(1);
        assert(next.warm.len() < v.warm.len());
        if alive[0] {
            assert(sessions_of(v.warm.take(0)) =~= Seq::empty());
            assert(end.given_up =~= listed(discard) + Seq::<S>::empty());
            assert(end.pool =~= (PoolView {
                warm: v.warm.skip(n + 1),
                nudge: true,
                ..v
            }).with_handed_out());
        } else {
            search_runs(next, Some(first), rest);
            let m = dead_in_front(rest);
            let tail = searched(next, SearchEvent::Checked(first, false), rest);
            assert(end.given_up == listed(discard) + tail.given_up);
            assert(listed(Some(first)) + sessions_of(next.warm.take(m)) =~= sessions_of(
                v.warm.take(n),
            ));
            assert forall|i: int| 0 <= i < n implies !#[trigger] alive[i] by {
                if i > 0 {
                    assert(!rest[i - 1]);
                }
            }
            if m < next.warm.len() {
                assert(rest[m] == alive[n]);
                assert(next.warm[m] == v.warm[n]);
                assert(next.warm.skip(m + 1) =~= v.warm.skip(n + 1));
            } else {
                assert(next.warm.skip(m) =~= v.warm.skip(n));
            }
        }
    }
}

/// The pool after `n` claims.
pub open spec fn after_claims<S>(v: PoolView<S>, n: nat) -> PoolView<S>
    decreases n,
{
    if n == 0 {
        v
    } else {
        after_claims(v, (n - 1) as nat).claim_of().1
    }
}

/// Once every claim is done, the whole capacity is there again: as many claims
/// as the ceiling allows are admitted at once, one after another.
pub proof fn drained_pool_serves_its_ceiling<S>(v: PoolView<S>, n: nat)
    requires
        v.wf(),
        !v.closed,
        v.held == 0,
        v.starting == 0,
        v.inline == 0,
        v.queued() == 0,
        n < v.options.max_sessions,
    ensures
        after_claims(v, n).claim_of().0 == Ok::<Admission, ClaimError>(Admission::Admitted),
        after_claims(v, n).available == v.options.max_sessions - n,
        !after_claims(v, n).closed,
    decreases n,
{
    if n > 0 {
        drained_pool_serves_its_ceiling(v, (n - 1) as nat);
    }
}

/// A closed pool refuses every claim, new or waiting, and nothing opens it
/// again.
pub proof fn closed_pool_refuses<S>(v: PoolView<S>, t: u64, event: WaitEvent)
    requires
        v.wf(),
        v.closed,
    ensures
        v.claim_of() == (Err::<Admission, ClaimError>(ClaimError::Closed), v),
        event !is Cancelled ==> v.wait_of(t, event).0 == Err::<WaitStep, ClaimError>(
            ClaimError::Closed,
        ),
        v.wait_of(t, event).1.closed,
        v.with_handed_out().closed,
        v.with_inline().closed,
        v.with_served().closed,
        v.with_failed().closed,
        v.with_released().closed,
        v.warm.len() == 0,
{
}

/// What can happen to a pool.
pub enum PoolMove<S> {
    /// A claim asks for a slot.
    Claim,
    /// Something happened to the claim waiting under this ticket.
    Wait(u64, WaitEvent),
    /// An admitted claim learns something while it looks for a session.
    Search(SearchEvent<S>),
    /// A claimed session was destroyed.
    Release(S),
    /// Intake stops.
    Close,
    /// The stock is culled at this time; these parked sessions are alive.
    Cull(u128, Seq<bool>),
    /// The replenisher looks whether to launch a session.
    Replenish,
    /// A warm launch gave this session at this time.
    Launched(S, u128),
    /// A warm launch failed.
    Missed,
    /// The replenisher is asked whether it was nudged.
    TakeNudge,
    /// The pool gets the size that these options say.
    Resize(PoolOptions),
}

/// A pool with an account of every session that was ever launched for it.
#[verifier::ext_equal]
pub struct PoolBooks<S> {
    /// The pool.
    pub pool: PoolView<S>,
    /// Sessions that were launched, for the stock or for a claim.
    pub brought: Multiset<S>,
    /// Sessions taken from the stock by claims that have not decided on them.
    pub in_hand: Multiset<S>,
    /// Sessions that claims hold.
    pub held: Multiset<S>,
    /// Sessions that claims were given, over the whole time.
    pub handed_out: Multiset<S>,
    /// Sessions that were given up to be destroyed, over the whole time.
    pub ended: Multiset<S>,
}

impl<S> PoolView<S> {
    /// The pool after this.
    pub open spec fn moved(self, m: PoolMove<S>) -> PoolView<S> {
        match m {
            PoolMove::Claim => self.claim_of().1,
            PoolMove::Wait(t, event) => self.wait_of(t, event).1,
            PoolMove::Search(event) => self.search_of(event).1,
            PoolMove::Release(_) => self.with_released(),
            PoolMove::Close => self.with_closed(),
            PoolMove::Cull(now, alive) => self.with_culled(now, alive),
            PoolMove::Replenish => self.with_launch(),
            PoolMove::Launched(session, now) => self.with_launched(session, now),
            PoolMove::Missed => self.with_missed(),
            PoolMove::TakeNudge => PoolView { nudge: false, ..self },
            PoolMove::Resize(options) => self.with_size(options),
        }
    }
}

impl<S> PoolBooks<S> {
    /// A pool that nobody has used.
    pub open spec fn fresh(options: PoolOptions) -> PoolBooks<S> {
        PoolBooks {
            pool: PoolView::fresh(options),
            brought: Multiset::empty(),
            in_hand: Multiset::empty(),
            held: Multiset::empty(),
            handed_out: Multiset::empty(),
            ended: Multiset::empty(),
        }
    }

    /// The sessions in stock.
    pub open spec fn parked(self) -> Multiset<S> {
        sessions_of(self.pool.warm).to_multiset()
    }

    /// The sessions in claims' hands once another one looks at the stock.
    pub open spec fn in_hand_after_look(self, in_hand: Multiset<S>) -> Multiset<S> {
        if self.pool.warm.len() == 0 {
            in_hand
        } else {
            in_hand.insert(self.pool.warm[0].session)
        }
    }

    /// Whether this can happen to the pool: a claim takes one session at a
    /// time, decides on one that it took, and gives back one that it holds.
    pub open spec fn allows(self, m: PoolMove<S>) -> bool {
        match m {
            PoolMove::Claim => self.pool.next_ticket < u64::MAX,
            PoolMove::Wait(t, _) => self.pool.in_line(t),
            PoolMove::Search(SearchEvent::Begin) => self.in_hand.len() < self.pool.starting,
            PoolMove::Search(SearchEvent::Checked(session, _)) => self.in_hand.count(session) > 0,
            PoolMove::Search(SearchEvent::Launched(_)) => self.pool.inline > 0,
            PoolMove::Release(session) => self.held.count(session) > 0,
            PoolMove::Cull(_, alive) => alive.len() == self.pool.warm.len(),
            PoolMove::Launched(_, _) => self.pool.launching > 0,
            PoolMove::Missed => self.pool.launching > 0,
            PoolMove::Resize(options) => self.pool.can_resize(options),
            _ => true,
        }
    }

    /// The books after this.
    pub open spec fn moved(self, m: PoolMove<S>) -> PoolBooks<S> {
        let next = PoolBooks { pool: self.pool.moved(m), ..self };
        match m {
            PoolMove::Search(SearchEvent::Begin) => PoolBooks {
                in_hand: self.in_hand_after_look(self.in_hand),
                ..next
            },
            PoolMove::Search(SearchEvent::Checked(session, alive)) => if alive {
                PoolBooks {
                    in_hand: self.in_hand.remove(session),
                    held: self.held.insert(session),
                    handed_out: self.handed_out.insert(session),
                    ..next
                }
            } else {
                PoolBooks {
                    in_hand: self.in_hand_after_look(self.in_hand.remove(session)),
                    ended: self.ended.insert(session),
                    ..next
                }
            },
            PoolMove::Search(SearchEvent::Launched(Ok(session))) => PoolBooks {
                brought: self.brought.insert(session),
                held: self.held.insert(session),
                handed_out: self.handed_out.insert(session),
                ..next
            },
            PoolMove::Release(session) => PoolBooks {
                held: self.held.remove(session),
                ended: self.ended.insert(session),
                ..next
            },
            PoolMove::Close => PoolBooks {
                ended: self.ended.add(sessions_of(self.pool.warm).to_multiset()),
                ..next
            },
            PoolMove::Cull(now, alive) => PoolBooks {
                ended: self.ended.add(
                    culled_of(self.pool.warm, alive, now, self.pool.options).to_multiset(),
                ),
                ..next
            },
            PoolMove::Launched(session, _) => PoolBooks {
                brought: self.brought.insert(session),
                ended: if self.pool.closed {
                    self.ended.insert(session)
                } else {
                    self.ended
                },
                ..next
            },
            _ => next,
        }
    }

    /// What the books of every pool show: the pool is in order, every session
    /// ever launched is in stock, in hand, held or ended, and one that a claim
    /// was given is held or ended.
    pub open spec fn balanced(self) -> bool {
        &&& self.pool.wf()
        &&& self.brought == self.parked().add(self.in_hand).add(self.held).add(self.ended)
        &&& self.handed_out.subset_of(self.held.add(self.ended))
        &&& self.held.len() == self.pool.held
        &&& self.in_hand.len() <= self.pool.starting
    }
}

/// The books after a course of moves from the pool's start.
pub open spec fn books_after<S>(options: PoolOptions, moves: Seq<PoolMove<S>>) -> PoolBooks<S>
    decreases moves.len(),
{
    if moves.len() == 0 {
        PoolBooks::fresh(options)
    } else {
        books_after(options, moves.drop_last()).moved(moves.last())
    }
}

/// The options of a pool after a course of moves: those that it was made with,
/// until it gets others.
pub open spec fn options_after<S>(options: PoolOptions, moves: Seq<PoolMove<S>>) -> PoolOptions
    decreases moves.len(),
{
    if moves.len() == 0 {
        options
    } else {
        match moves.last() {
            PoolMove::Resize(resized) => resized,
            _ => options_after(options, moves.drop_last()),
        }
    }
}

/// Whether no move of a course makes the pool smaller.
pub open spec fn never_shrinks<S>(options: PoolOptions, moves: Seq<PoolMove<S>>) -> bool
    decreases moves.len(),
{
    moves.len() > 0 ==> never_shrinks(options, moves.drop_last()) && (moves.last() matches
        PoolMove::Resize(resized) ==> resized.max_sessions >= options_after(
        options,
        moves.drop_last(),
    ).max_sessions)
}

/// Whether each move of a course can happen where it stands.
pub open spec fn can_happen<S>(options: PoolOptions, moves: Seq<PoolMove<S>>) -> bool
    decreases moves.len(),
{
    moves.len() > 0 ==> can_happen(options, moves.drop_last()) && books_after(
        options,
        moves.drop_last(),
    ).allows(moves.last())
}

proof fn kept_is_less<S>(warm: Seq<Warm<S>>, alive: Seq<bool>, now: u128, options: PoolOptions)
    ensures
        kept_of(warm, alive, now, options).len() <= warm.len(),
    decreases warm.len(),
{
    if warm.len() > 0 {
        kept_is_less(warm.drop_last(), alive, now, options);
    }
}

proof fn move_keeps_wf<S>(b: PoolBooks<S>, m: PoolMove<S>)
    requires
        b.balanced(),
        b.allows(m),
    ensures
        b.pool.moved(m).wf(),
        b.pool.moved(m).options == (match m {
            PoolMove::Resize(options) => options,
            _ => b.pool.options,
        }),
{
    broadcast use vstd::multiset::group_multiset_axioms;

    let v = b.pool;
    v.line_facts();
    v.moved(m).line_facts();
    match m {
        PoolMove::Claim => {
            v.waiter_keeps_line();
            v.with_waiter().line_facts();
        },
        PoolMove::Wait(t, _) => {
            without_facts(v.granted, t);
            without_facts(v.waiting, t);
            v.leaver_keeps_line(t);
            (PoolView { granted: without(v.granted, t), ..v }).slot_back_keeps_line();
        },
        PoolMove::Search(SearchEvent::Checked(session, _)) => {
            assert(b.in_hand.remove(session).len() == b.in_hand.len() - 1);
        },
        PoolMove::Search(SearchEvent::Launched(Err(_))) => {
            (PoolView { inline: (v.inline - 1) as nat, ..v }).slot_back_keeps_line();
        },
        PoolMove::Release(session) => {
            assert(b.held.remove(session).len() == b.held.len() - 1);
            (PoolView { held: (v.held - 1) as nat, nudge: true, ..v }).slot_back_keeps_line();
        },
        PoolMove::Cull(now, alive) => {
            kept_is_less(v.warm, alive, now, v.options);
        },
        PoolMove::Resize(_) => {
            v.giving_keeps_line(v.moved(m).granted.len() - v.granted.len());
        },
        _ => {},
    }
}

pub(crate) proof fn culling_splits<S>(warm: Seq<Warm<S>>, alive: Seq<bool>, now: u128, options: PoolOptions)
    ensures
        sessions_of(warm).to_multiset() == culled_of(warm, alive, now, options).to_multiset().add(
            sessions_of(kept_of(warm, alive, now, options)).to_multiset(),
        ),
    decreases warm.len(),
{
    broadcast use vstd::multiset::group_multiset_axioms;
    broadcast use vstd::seq_lib::group_to_multiset_ensures;

    let all = sessions_of(warm);
    if warm.len() > 0 {
        let t = warm.drop_last();
        culling_splits(t, alive, now, options);
        let kept = kept_of(t, alive, now, options);
        let last = warm.last().session;
        assert(all =~= sessions_of(t).push(last));
        assert(sessions_of(kept.push(warm.last())) =~= sessions_of(kept).push(last));
    } else {
        assert(all =~= Seq::empty());
        assert(sessions_of(kept_of(warm, alive, now, options)) =~= Seq::empty());
    }
    assert(all.to_multiset() =~= culled_of(warm, alive, now, options).to_multiset().add(
        sessions_of(kept_of(warm, alive, now, options)).to_multiset(),
    ));
}

proof fn move_keeps_balance<S>(b: PoolBooks<S>, m: PoolMove<S>)
    requires
        b.balanced(),
        b.allows(m),
    ensures
        b.moved(m).balanced(),
{
    broadcast use vstd::multiset::group_multiset_axioms;
    broadcast use vstd::seq_lib::group_to_multiset_ensures;

    move_keeps_wf(b, m);
    let v = b.pool;
    let n = b.moved(m);
    let before = sessions_of(v.warm);
    let after = sessions_of(n.pool.warm);
    match m {
        PoolMove::Search(event) => {
            if after.len() < before.len() {
                let first = seq![v.warm[0].session];
                assert(before =~= first + after);
                assert(first =~= Seq::<S>::empty().push(v.warm[0].session));
                vstd::seq_lib::lemma_multiset_commutative(first, after);
            } else {
                assert(after =~= before);
            }
        },
        PoolMove::Close => {
            assert(after =~= Seq::empty());
        },
        PoolMove::Cull(now, alive) => {
            culling_splits(v.warm, alive, now, v.options);
        },
        PoolMove::Launched(session, _) => {
            if v.closed {
                assert(after =~= before);
            } else {
                assert(after =~= before.push(session));
            }
        },
        _ => {
            assert(after =~= before);
        },
    }
    assert(n.brought =~= n.parked().add(n.in_hand).add(n.held).add(n.ended));
}

/// Whatever happens to a pool, in whatever order: no more sessions are claimed
/// than the ceiling allows, unless it was lowered while they were; the line and the stock stay in their bounds, and
/// no slot is lost. Sessions are never lost or used twice: each one that was
/// ever launched, for the stock or for a claim, is parked, in a claim's hand,
/// held by a claim or given up to be destroyed, in one of these places only;
/// one that was launched once goes to at most one claim and is destroyed at
/// most once; and when a closed pool has no claim left that took or holds a
/// session, every session has been destroyed, one launched once exactly once.
pub proof fn pool_invariants_hold_under_arbitrary_interleavings<S>(
    options: PoolOptions,
    moves: Seq<PoolMove<S>>,
)
    requires
        options.max_sessions <= usize::MAX / 8,
        can_happen(options, moves),
    ensures
        ({
            let b = books_after(options, moves);
            let v = b.pool;
            &&& v.wf()
            &&& v.options == options_after(options, moves)
            &&& v.in_use() <= v.options.max_sessions + v.surplus
            &&& never_shrinks(options, moves) ==> v.surplus == 0
            &&& v.queued() <= v.options.max_queue
            &&& v.warm.len() <= v.options.min_ready
            &&& v.in_use() == 0 ==> v.available == v.options.max_sessions
            &&& b.held.len() == v.held
            &&& b.in_hand.len() <= v.starting
            &&& b.brought == b.parked().add(b.in_hand).add(b.held).add(b.ended)
            &&& forall|s: S|
                b.brought.count(s) <= 1 ==> #[trigger] b.handed_out.count(s) <= 1
            &&& forall|s: S| b.brought.count(s) <= 1 ==> #[trigger] b.ended.count(s) <= 1
            &&& forall|s: S|
                b.brought.count(s) == 1 && #[trigger] b.handed_out.count(s) == 1
                    ==> b.parked().count(s) == 0 && b.in_hand.count(s) == 0
            &&& v.closed && b.in_hand.len() == 0 && b.held.len() == 0 ==> b.brought == b.ended
        }),
    decreases moves.len(),
{
    broadcast use vstd::multiset::group_multiset_axioms;
    broadcast use vstd::seq_lib::group_to_multiset_ensures;

    books_stay_balanced(options, moves);
    let b = books_after(options, moves);
    assert forall|s: S| b.brought.count(s) == b.parked().count(s) + b.in_hand.count(s)
        + b.held.count(s) + b.ended.count(s) && b.handed_out.count(s) <= b.held.count(s)
        + b.ended.count(s) by {}
    if b.pool.closed && b.in_hand.len() == 0 && b.held.len() == 0 {
        assert(sessions_of(b.pool.warm) =~= Seq::empty());
        assert(b.brought =~= b.ended);
    }
}

proof fn books_stay_balanced<S>(options: PoolOptions, moves: Seq<PoolMove<S>>)
    requires
        options.max_sessions <= usize::MAX / 8,
        can_happen(options, moves),
    ensures
        books_after(options, moves).balanced(),
        books_after(options, moves).pool.options == options_after(options, moves),
        never_shrinks(options, moves) ==> books_after(options, moves).pool.surplus == 0,
    decreases moves.len(),
{
    broadcast use vstd::multiset::group_multiset_axioms;
    broadcast use vstd::seq_lib::group_to_multiset_ensures;

    let b = books_after(options, moves);
    if moves.len() > 0 {
        books_stay_balanced(options, moves.drop_last());
        move_keeps_wf(books_after(options, moves.drop_last()), moves.last());
        move_keeps_balance(books_after(options, moves.drop_last()), moves.last());
    } else {
        assert(sessions_of(b.pool.warm) =~= Seq::empty());
        assert(b.brought =~= b.parked().add(b.in_hand).add(b.held).add(b.ended));
    }
}

} // verus!
