//! How a server goes from its start to its end.

use crate::capacity::{HostLimits, SessionFootprint};
use crate::chrome::find::FindError;
use crate::server::{ActionView, ServeEvent, ServePhase, ServeView};
use vstd::prelude::*;

verus! {

/// A server looks for a browser, sweeps, probes the host and binds its address,
/// in this order.
pub proof fn startup_goes_in_order(
    server: ServeView,
    path: String,
    swept: usize,
    limits: HostLimits,
)
    ensures
        server.next(ServePhase::Finding, ServeEvent::BrowserFound(Ok(path))) == Some(
            (ActionView::SweepStale, ServePhase::Sweeping),
        ),
        server.next(ServePhase::Sweeping, ServeEvent::Swept(Ok(swept))) == Some(
            (ActionView::ProbeHost, ServePhase::Probing),
        ),
        server.next(ServePhase::Probing, ServeEvent::Probed(limits)) == Some(
            (ActionView::Bind(server.bind), ServePhase::Binding(limits)),
        ),
        server.next(ServePhase::Binding(limits), ServeEvent::Bound(Ok(()))) matches Some((a, p))
            && (server.pool.min_ready > 0 ==> a is ServeAndWarm && p == ServePhase::Warming(
            limits,
        )) && (server.pool.min_ready == 0 ==> a is ServeWithPool && p is Serving),
{
}

/// What fails at the start, or breaks the listener, ends the server, which says
/// what it was.
pub proof fn failures_end_the_server(
    server: ServeView,
    phase: ServePhase,
    limits: HostLimits,
    nowhere: FindError,
    e: String,
)
    ensures
        server.next(ServePhase::Finding, ServeEvent::BrowserFound(Err(nowhere))) == Some(
            (ActionView::Fail(nowhere.says()), ServePhase::Over),
        ),
        server.next(ServePhase::Sweeping, ServeEvent::Swept(Err(e))) == Some(
            (ActionView::Fail("stale session sweep failed: "@ + e@), ServePhase::Over),
        ),
        server.next(ServePhase::Binding(limits), ServeEvent::Bound(Err(e))) == Some(
            (ActionView::Fail("cannot bind "@ + server.bind + ": "@ + e@), ServePhase::Over),
        ),
        phase is Warming || phase is Serving || phase is Stopping ==> server.next(
            phase,
            ServeEvent::ServerEnded(Err(e)),
        ) == Some((ActionView::Fail("server error: "@ + e@), ServePhase::Over)),
{
}

/// A server fails, or ends well, in no other way, and does nothing afterwards.
pub proof fn server_ends_for_a_reason(server: ServeView, phase: ServePhase, event: ServeEvent)
    ensures
        server.next(phase, event) matches Some((a, p)) ==> {
            &&& a is Fail ==> match event {
                ServeEvent::BrowserFound(outcome) => outcome is Err,
                ServeEvent::Swept(outcome) => outcome is Err,
                ServeEvent::Bound(outcome) => outcome is Err,
                ServeEvent::ServerEnded(outcome) => outcome is Err,
                _ => false,
            }
            &&& a is Done ==> event is FinallySwept && phase is Cleaning
            &&& p is Over <==> a is Fail || a is Done
            &&& p is Cleaning <==> a is SweepFinally
            &&& a is SweepFinally ==> event is Drained || event is SessionsCancelled
        },
        server.next(ServePhase::Over, event) is None,
{
}

/// On a shutdown signal a server that serves refuses new sessions; then it
/// waits for the sessions as long as its configuration says, cancels them only
/// when that time is up, gives them five seconds, and sweeps before it is done.
pub proof fn shutdown_goes_in_order(server: ServeView, phase: ServePhase)
    ensures
        phase is Warming || phase is Serving ==> server.next(phase, ServeEvent::ShutdownSignal)
            == Some((ActionView::ClosePool, ServePhase::Stopping)),
        server.next(ServePhase::Stopping, ServeEvent::ServerEnded(Ok(()))) == Some(
            (ActionView::WaitDrain(server.drain_timeout_ms), ServePhase::Draining),
        ),
        server.next(ServePhase::Draining, ServeEvent::Drained) == Some(
            (ActionView::SweepFinally, ServePhase::Cleaning),
        ),
        server.next(ServePhase::Draining, ServeEvent::DrainDeadline) == Some(
            (ActionView::CancelSessions(5_000), ServePhase::Cancelling),
        ),
        server.next(ServePhase::Cancelling, ServeEvent::SessionsCancelled) == Some(
            (ActionView::SweepFinally, ServePhase::Cleaning),
        ),
        server.next(ServePhase::Cleaning, ServeEvent::FinallySwept) == Some(
            (ActionView::Done, ServePhase::Over),
        ),
{
}

/// A pool is given the configured ceiling if there is one; else one that the
/// host allows, between 1 and 256. The other sizes are the configured ones,
/// times in nanoseconds; before it is opened a pool has no slot and no stock.
pub proof fn pool_is_sized_by_the_configuration(
    server: ServeView,
    limits: HostLimits,
    footprint: Option<SessionFootprint>,
)
    ensures
        ({
            let (options, source) = server.pool_with(limits, footprint);
            let pool = server.pool;
            &&& pool.max_sessions_set ==> options.max_sessions == pool.max_sessions && source
                == "config"@
            &&& !pool.max_sessions_set ==> 1 <= options.max_sessions <= 256
            &&& options.min_ready == pool.min_ready && options.max_queue == pool.max_queue
            &&& options.queue_timeout == pool.queue_timeout_ms * 1_000_000 && options.warm_idle
                == pool.warm_idle_ms * 1_000_000 && options.warm_max_age == pool.warm_max_age_ms
                * 1_000_000
        }),
        server.next(ServePhase::Warming(limits), ServeEvent::Warmed(footprint)) matches Some((a, p))
            && (a matches ActionView::OpenPool(options, source) && (options, source)
            == server.pool_with(limits, footprint)) && p is Serving,
        server.next(ServePhase::Binding(limits), ServeEvent::Bound(Ok(()))) matches Some((a, p))
            && (a matches ActionView::ServeAndWarm(options) ==> options.max_sessions == 0
            && options.min_ready == 0 && options.max_queue == server.pool.max_queue
            && options.queue_timeout == server.pool.queue_timeout_ms * 1_000_000) && (a matches
            ActionView::ServeWithPool(options, source) ==> (options, source) == server.pool_with(
            limits,
            None,
        )),
{
}

} // verus!
