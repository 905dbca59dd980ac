use browserserve::pool::{
    millis, Admission, ClaimError, Claimed, Pool, PoolOptions, Replenish, Restock, Search,
    SearchEvent, WaitEvent, WaitStep,
};

const MS: u128 = 1_000_000;

fn options(min_ready: usize, max_sessions: usize, max_queue: usize) -> PoolOptions {
    PoolOptions {
        min_ready,
        max_sessions,
        max_queue,
        queue_timeout: 200 * MS,
        warm_idle: 300_000 * MS,
        warm_max_age: 3_600_000 * MS,
    }
}

#[derive(Debug)]
struct FakeSession {
    id: usize,
    alive: bool,
}

/// A pool with the work around it: launches succeed at once unless they are
/// told to fail, and what leaves is counted.
struct Rig {
    pool: Pool<FakeSession>,
    options: PoolOptions,
    created: usize,
    destroyed: usize,
    claimed: Vec<usize>,
    fail_creates: bool,
    now: u128,
}

impl Rig {
    fn new(options: PoolOptions) -> Rig {
        Rig {
            pool: Pool::new(options),
            options,
            created: 0,
            destroyed: 0,
            claimed: Vec::new(),
            fail_creates: false,
            now: 0,
        }
    }

    fn create(&mut self) -> Result<FakeSession, String> {
        if self.fail_creates {
            return Err("boom".to_string());
        }
        self.created += 1;
        Ok(FakeSession { id: self.created, alive: true })
    }

    fn settle(&mut self) {
        loop {
            let alive: Vec<bool> =
                (0..self.pool.warm_len()).map(|i| self.pool.warm_mut(i).alive).collect();
            self.destroyed += self.pool.cull_warm(self.now, &alive).len();
            match self.pool.replenish() {
                Replenish::Launch => {
                    let outcome = self.create();
                    match self.pool.restock(outcome, self.now) {
                        Restock::Parked => {},
                        Restock::Discard(_) => self.destroyed += 1,
                        Restock::Backoff(_) => return,
                    }
                },
                _ => return,
            }
        }
    }

    fn admitted(&mut self) -> Result<Claimed<FakeSession>, ClaimError> {
        let claimed = self.looked_for()?;
        let id = claimed.session().id;
        assert!(!self.claimed.contains(&id), "sessions must never be reused");
        self.claimed.push(id);
        Ok(claimed)
    }

    fn looked_for(&mut self) -> Result<Claimed<FakeSession>, ClaimError> {
        let mut event = SearchEvent::Begin;
        loop {
            event = match self.pool.search(event) {
                Search::Check { discard, session } => {
                    self.destroyed += usize::from(discard.is_some());
                    let alive = session.alive;
                    SearchEvent::Checked(session, alive)
                },
                Search::Launch { discard } => {
                    self.destroyed += usize::from(discard.is_some());
                    SearchEvent::Launched(self.create())
                },
                Search::Got(claimed) => return Ok(claimed),
                Search::Failed(e) => return Err(e),
            };
        }
    }

    fn claim(&mut self) -> Result<Claimed<FakeSession>, ClaimError> {
        match self.pool.claim()? {
            Admission::Admitted => self.admitted(),
            Admission::Wait(ticket) => {
                let waited = self.options.queue_timeout;
                match self.pool.wait(ticket, WaitEvent::Elapsed(waited))? {
                    WaitStep::Admitted => self.admitted(),
                    other => panic!("a claim whose time is up cannot go on: {other:?}"),
                }
            },
        }
    }

    fn destroy(&mut self, claimed: Claimed<FakeSession>) {
        if self.pool.destroy(claimed).is_some() {
            self.destroyed += 1;
        }
        self.pool.release();
    }
}

#[test]
fn claim_and_destroy_round_trip() {
    let mut rig = Rig::new(options(0, 2, 2));
    let claimed = rig.claim().unwrap();
    assert_eq!(rig.pool.stats().running, 1);
    rig.destroy(claimed);
    rig.settle();
    assert_eq!(rig.pool.stats().running, 0);
    assert_eq!(rig.destroyed, 1);
}

#[test]
fn warm_stock_is_replenished_and_used() {
    let mut rig = Rig::new(options(2, 4, 2));
    rig.settle();
    assert_eq!(rig.pool.stats().warm, 2);
    let before = rig.created;
    let claimed = rig.claim().unwrap();
    assert_eq!(rig.created, before, "warm claim must not launch inline");
    rig.destroy(claimed);
}

#[test]
fn ceiling_is_never_exceeded() {
    let mut rig = Rig::new(options(0, 2, 5));
    let a = rig.claim().unwrap();
    let b = rig.claim().unwrap();
    assert!(matches!(rig.claim(), Err(ClaimError::QueueTimeout { waited_ms: 200 })));
    assert_eq!(rig.pool.stats().running, 2);
    rig.destroy(a);
    rig.destroy(b);
}

#[test]
fn queue_bound_rejects_immediately() {
    let mut rig = Rig::new(options(0, 1, 0));
    let held = rig.claim().unwrap();
    let Err(err) = rig.claim() else {
        panic!("claim must be rejected when the queue is full");
    };
    assert!(matches!(err, ClaimError::QueueFull { max_queue: 0 }));
    rig.destroy(held);
}

#[test]
fn waiter_gets_slot_when_one_frees() {
    let mut rig = Rig::new(options(0, 1, 2));
    let held = rig.claim().unwrap();
    let ticket = match rig.pool.claim().unwrap() {
        Admission::Wait(ticket) => ticket,
        other => panic!("expected to wait, got {other:?}"),
    };
    assert_eq!(rig.pool.wait(ticket, WaitEvent::Woken).unwrap(), WaitStep::Waiting);
    rig.destroy(held);
    assert_eq!(rig.pool.wait(ticket, WaitEvent::Woken).unwrap(), WaitStep::Admitted);
    let second = rig.admitted().unwrap();
    rig.destroy(second);
}

#[test]
fn dead_warm_sessions_are_skipped_at_claim() {
    let mut rig = Rig::new(options(1, 2, 2));
    rig.settle();
    rig.pool.warm_mut(0).alive = false;
    let claimed = rig.claim().unwrap();
    assert!(claimed.session().alive);
    assert_eq!(rig.destroyed, 1, "the dead one is destroyed");
    rig.destroy(claimed);
    assert!(rig.pool.has_tickets());
}

#[test]
fn closed_pool_rejects_and_drains_warm() {
    let mut rig = Rig::new(options(1, 2, 2));
    rig.settle();
    let drained = rig.pool.close();
    assert_eq!(drained.len(), 1);
    assert!(matches!(rig.claim(), Err(ClaimError::Closed)));
    rig.settle();
    assert_eq!(rig.pool.stats().warm, 0);
    assert!(!rig.pool.stats().accepting);
}

#[test]
fn launch_failure_restores_capacity() {
    let mut rig = Rig::new(options(0, 1, 2));
    rig.fail_creates = true;
    assert!(matches!(rig.claim(), Err(ClaimError::Launch { ref message }) if message == "boom"));
    rig.fail_creates = false;
    let claimed = rig.claim().unwrap();
    rig.destroy(claimed);
}

#[test]
fn dropped_claim_still_destroys_and_frees() {
    let mut rig = Rig::new(options(0, 1, 2));
    let mut claimed = rig.claim().unwrap();
    if claimed.take_session().is_some() {
        rig.destroyed += 1;
    }
    drop(claimed);
    rig.pool.release();
    rig.settle();
    assert_eq!(rig.destroyed, 1);
    let again = rig.claim().unwrap();
    rig.destroy(again);
}

#[test]
fn cancelled_waiters_do_not_leak_queue_slots() {
    let mut rig = Rig::new(options(0, 1, 1));
    let held = rig.claim().unwrap();
    let ticket = match rig.pool.claim().unwrap() {
        Admission::Wait(ticket) => ticket,
        other => panic!("expected to wait, got {other:?}"),
    };
    assert_eq!(rig.pool.stats().queued, 1);
    assert_eq!(rig.pool.wait(ticket, WaitEvent::Cancelled).unwrap(), WaitStep::Gone);
    assert_eq!(rig.pool.stats().queued, 0);
    rig.destroy(held);
}

#[test]
fn longest_waiter_is_served_first() {
    let mut rig = Rig::new(options(0, 1, 5));
    let held = rig.claim().unwrap();
    let first = match rig.pool.claim().unwrap() {
        Admission::Wait(ticket) => ticket,
        other => panic!("expected to wait, got {other:?}"),
    };
    let second = match rig.pool.claim().unwrap() {
        Admission::Wait(ticket) => ticket,
        other => panic!("expected to wait, got {other:?}"),
    };
    rig.destroy(held);
    assert_eq!(rig.pool.wait(second, WaitEvent::Woken).unwrap(), WaitStep::Waiting);
    assert_eq!(rig.pool.wait(first, WaitEvent::Woken).unwrap(), WaitStep::Admitted);
}

#[test]
fn waiters_of_a_closed_pool_are_turned_away() {
    let mut rig = Rig::new(options(0, 1, 5));
    let held = rig.claim().unwrap();
    let ticket = match rig.pool.claim().unwrap() {
        Admission::Wait(ticket) => ticket,
        other => panic!("expected to wait, got {other:?}"),
    };
    rig.pool.close();
    assert!(matches!(rig.pool.wait(ticket, WaitEvent::Woken), Err(ClaimError::Closed)));
    let stats = rig.pool.stats();
    assert_eq!((stats.running, stats.queued, stats.accepting), (1, 0, false));
    rig.destroy(held);
    assert_eq!(rig.pool.stats().running, 0);
}

#[test]
fn old_and_dead_stock_is_recycled() {
    let mut rig = Rig::new(options(2, 4, 2));
    rig.settle();
    rig.pool.warm_mut(0).alive = false;
    rig.settle();
    assert_eq!(rig.destroyed, 1);
    assert_eq!(rig.pool.stats().warm, 2);
    rig.now = rig.options.warm_max_age;
    rig.settle();
    assert_eq!(rig.destroyed, 3);
    assert_eq!(rig.pool.stats().warm, 2);
}

#[test]
fn failed_warm_launches_back_off() {
    let mut pool: Pool<FakeSession> = Pool::new(options(1, 2, 2));
    let mut pauses = Vec::new();
    for _ in 0..8 {
        assert_eq!(pool.replenish(), Replenish::Launch);
        match pool.restock(Err("boom".to_string()), 0) {
            Restock::Backoff(ms) => pauses.push(ms),
            other => panic!("expected a pause, got {other:?}"),
        }
    }
    assert_eq!(pauses, [200, 400, 800, 1600, 3200, 6400, 10_000, 10_000]);
    assert_eq!(pool.replenish(), Replenish::Launch);
    assert!(matches!(pool.restock(Ok(FakeSession { id: 1, alive: true }), 0), Restock::Parked));
    assert!(matches!(pool.replenish(), Replenish::Idle(_)));
}

#[test]
fn a_session_launched_for_a_closed_pool_is_discarded() {
    let mut pool: Pool<FakeSession> = Pool::new(options(1, 2, 2));
    assert_eq!(pool.replenish(), Replenish::Launch);
    pool.close();
    assert!(matches!(pool.restock(Ok(FakeSession { id: 1, alive: true }), 0), Restock::Discard(_)));
    assert_eq!(pool.replenish(), Replenish::Stop);
}

#[test]
fn an_unused_pool_serves_its_ceiling_at_once() {
    let mut rig = Rig::new(options(0, 3, 0));
    let mut held = Vec::new();
    for _ in 0..3 {
        held.push(rig.claim().unwrap());
    }
    assert!(rig.claim().is_err());
    for claimed in held {
        rig.destroy(claimed);
    }
    assert_eq!(rig.pool.stats().running, 0);
    assert_eq!(rig.created, rig.destroyed);
}

#[test]
fn a_claim_gets_the_oldest_live_session() {
    let mut rig = Rig::new(options(3, 6, 2));
    rig.settle();
    rig.pool.warm_mut(0).alive = false;
    let claimed = rig.claim().unwrap();
    assert_eq!(claimed.session().id, 2, "the first one is dead");
    assert_eq!((rig.created, rig.destroyed), (3, 1), "nothing was launched for the claim");
    assert_eq!(rig.pool.stats().warm, 1);
    rig.pool.warm_mut(0).alive = false;
    let inline = rig.claim().unwrap();
    assert_eq!(inline.session().id, 4, "none is alive, so one is launched");
    assert_eq!((rig.created, rig.destroyed), (4, 2));
    assert_eq!((rig.pool.searching(), rig.pool.launching_inline()), (0, 0));
}

#[test]
fn a_smaller_pool_waits_for_its_sessions_to_end() {
    let mut rig = Rig::new(options(0, 4, 5));
    let mut held: Vec<Claimed<FakeSession>> = (0..3).map(|_| rig.claim().unwrap()).collect();
    assert!(!rig.pool.may_resize(options(0, 2, 4)), "the line stays as it is");
    rig.pool.resize(options(0, 2, 5));
    let stats = rig.pool.stats();
    assert_eq!((stats.running, stats.max_sessions), (3, 2));
    let ticket = match rig.pool.claim().unwrap() {
        Admission::Wait(ticket) => ticket,
        other => panic!("expected to wait, got {other:?}"),
    };
    rig.destroy(held.remove(0));
    assert_eq!(rig.pool.wait(ticket, WaitEvent::Woken).unwrap(), WaitStep::Waiting);
    rig.destroy(held.remove(0));
    assert_eq!(rig.pool.wait(ticket, WaitEvent::Woken).unwrap(), WaitStep::Admitted);
    assert_eq!(rig.pool.stats().running, 2);
}

#[test]
fn claim_errors_are_described() {
    let full = ClaimError::QueueFull { max_queue: 7 };
    assert_eq!(full.message(), "session queue is full (7 waiting)");
    let late = ClaimError::QueueTimeout { waited_ms: 30_000 };
    assert_eq!(late.message(), "timed out waiting 30000 ms for a session slot");
    assert_eq!(ClaimError::Closed.message(), "pool is closed");
    let launch = ClaimError::Launch {
        message: "boom".to_string(),
    };
    assert_eq!(launch.message(), "session launch failed: boom");
}

#[test]
fn millis_rounds_down_and_saturates() {
    assert_eq!(millis(1_999_999), 1);
    assert_eq!(millis(u128::MAX), u64::MAX);
}

#[test]
fn pool_invariants_hold_under_arbitrary_interleavings() {
    for min_ready in 0..3 {
        interleave(min_ready);
    }
}

fn interleave(min_ready: usize) {
    let mut rig = Rig::new(options(min_ready, 3, 2));
    let mut held: Vec<Claimed<FakeSession>> = Vec::new();
    let mut waiting: Vec<u64> = Vec::new();
    let mut seed: u64 = 42;
    for _ in 0..2000 {
        seed = seed.wrapping_mul(6364136223846793005).wrapping_add(1442695040888963407);
        rig.now += u128::from(seed >> 40) * MS;
        match (seed >> 33) % 5 {
            0 => match rig.pool.claim() {
                Ok(Admission::Admitted) => held.push(rig.admitted().unwrap()),
                Ok(Admission::Wait(ticket)) => waiting.push(ticket),
                Err(e) => assert!(matches!(e, ClaimError::QueueFull { max_queue: 2 })),
            },
            1 => {
                if let Some(claimed) = held.pop() {
                    rig.destroy(claimed);
                }
            },
            2 => {
                if !waiting.is_empty() {
                    let ticket = waiting.remove(0);
                    match rig.pool.wait(ticket, WaitEvent::Woken).unwrap() {
                        WaitStep::Admitted => held.push(rig.admitted().unwrap()),
                        WaitStep::Waiting => waiting.insert(0, ticket),
                        WaitStep::Gone => unreachable!(),
                    }
                }
            },
            3 => {
                if let Some(ticket) = waiting.pop() {
                    rig.pool.wait(ticket, WaitEvent::Cancelled).unwrap();
                }
            },
            _ => rig.settle(),
        }
        let stats = rig.pool.stats();
        assert!(stats.running <= stats.max_sessions);
        assert_eq!(stats.queued, waiting.len());
        assert!(stats.queued <= stats.max_queue);
        assert_eq!(rig.pool.held(), held.len());
        assert!(stats.warm <= min_ready);
        assert_eq!(rig.created, rig.destroyed + held.len() + stats.warm);
    }

    for ticket in waiting {
        rig.pool.wait(ticket, WaitEvent::Cancelled).unwrap();
    }
    for claimed in held {
        rig.destroy(claimed);
    }
    assert_eq!((rig.pool.stats().running, rig.pool.stats().queued), (0, 0));
    let restored: Vec<Claimed<FakeSession>> = (0..3).map(|_| rig.claim().unwrap()).collect();
    for claimed in restored {
        rig.destroy(claimed);
    }
    rig.destroyed += rig.pool.close().len();
    assert_eq!(rig.created, rig.destroyed, "no session is lost");
}
