//! Teardown: protocol close, then signal escalation on the process group.

use crate::chrome::client;
use crate::chrome::pipe;
use crate::json;
use crate::json::{Json, JsonView, Member};
use vstd::prelude::*;

verus! {

/// Milliseconds that the browser gets to exit from the protocol close.
pub const PROTOCOL_CLOSE_BUDGET_MS: u64 = 2_000;

/// Milliseconds that the child gets to be reaped after SIGKILL.
pub const REAP_BUDGET_MS: u64 = 5_000;

/// What happened during one browser teardown.
#[derive(Debug, Clone)]
pub struct TeardownReport {
    /// Final exit status, when the child was reaped in time.
    pub exit_status: Option<String>,
    /// The browser exited from the protocol close alone.
    pub graceful: bool,
    /// SIGKILL was required after the SIGTERM grace period.
    pub escalated_sigkill: bool,
    /// The direct child was reaped (`wait` returned).
    pub reaped: bool,
}

/// Where a teardown stands.
#[derive(Debug, Clone, Copy, PartialEq, Eq, Structural)]
pub enum TeardownPhase {
    /// Waiting for the browser to exit from the protocol close.
    Closing,
    /// Waiting for it to exit from SIGTERM.
    Terminating,
    /// Waiting for it to be reaped after SIGKILL.
    Killing,
    /// Done.
    Over,
}

/// What a teardown does next. Each wait ends with an event.
#[derive(Debug)]
pub enum TeardownAction {
    /// Write the frame to the pipe, if that works, and wait for the child.
    CloseAndWait {
        /// The `Browser.close` frame.
        frame: Vec<u8>,
        /// How long to wait, in milliseconds.
        budget_ms: u64,
    },
    /// SIGTERM the process group and wait for the child.
    TermAndWait {
        /// How long to wait, in milliseconds.
        budget_ms: u64,
    },
    /// SIGKILL the process group and wait for the child.
    KillAndWait {
        /// How long to wait, in milliseconds.
        budget_ms: u64,
    },
    /// SIGTERM what is left of the process group; the teardown is done.
    TermAndFinish,
    /// The teardown is done.
    Finish,
}

/// How a wait for the child ended.
#[derive(Debug)]
pub enum TeardownEvent {
    /// `wait` returned, with the exit status unless it failed.
    Exited(Option<String>),
    /// The budget passed.
    TimedOut,
}

/// The command that closes the browser.
pub open spec fn close_command() -> JsonView {
    JsonView::Object(seq![("id"@, JsonView::UInt(0)), ("method"@, JsonView::Str("Browser.close"@))])
}

fn close_frame() -> (r: Vec<u8>)
    ensures
        r@ == client::wire_of(close_command()),
{
    let mut members: Vec<Member> = Vec::new();
    members.push(json::member("id", Json::UInt(0)));
    members.push(json::member("method", Json::string("Browser.close")));
    assert(json::members_view(members@) =~= close_command()->Object_0);
    pipe::frame_message(&Json::object(members))
}

/// The process group that a signal goes to: none for pids up to one.
pub fn group_to_signal(pid: i32) -> (r: Option<i32>)
    ensures
        r == (if pid > 1 {
            Some(pid)
        } else {
            None
        }),
{
    if pid > 1 {
        Some(pid)
    } else {
        None
    }
}

/// A browser teardown: `Browser.close` over CDP first, then SIGTERM to the
/// process group, then SIGKILL. It always attempts to reap the direct child.
#[derive(Debug)]
pub struct Teardown {
    /// Where it stands.
    pub phase: TeardownPhase,
    /// Milliseconds between SIGTERM and SIGKILL.
    pub grace_ms: u64,
    /// What happened so far.
    pub report: TeardownReport,
}

impl Teardown {
    /// What a report can say at each stage: graceful means reaped without
    /// SIGKILL, and SIGKILL is only sent when everything else failed.
    pub open spec fn wf(self) -> bool {
        let r = self.report;
        &&& r.graceful ==> r.reaped && !r.escalated_sigkill
        &&& r.exit_status is Some ==> r.reaped
        &&& self.phase is Closing || self.phase is Terminating ==> !r.graceful
            && !r.escalated_sigkill && !r.reaped
        &&& self.phase is Killing ==> !r.graceful && r.escalated_sigkill && !r.reaped
        &&& self.phase is Over && !r.reaped ==> r.escalated_sigkill
    }

    /// Begins a teardown; without a pipe it goes straight to signals.
    pub fn begin(has_pipe: bool, grace_ms: u64) -> (r: (Teardown, TeardownAction))
        ensures
            r.0.wf(),
            r.0.grace_ms == grace_ms,
            r.0.report.exit_status is None,
            has_pipe ==> r.0.phase is Closing && (r.1 matches TeardownAction::CloseAndWait {
                frame,
                budget_ms,
            } && frame@ == client::wire_of(close_command()) && budget_ms
                == PROTOCOL_CLOSE_BUDGET_MS),
            !has_pipe ==> r.0.phase is Terminating && r.1 == (TeardownAction::TermAndWait {
                budget_ms: grace_ms,
            }),
    {
        let report = TeardownReport {
            exit_status: None,
            graceful: false,
            escalated_sigkill: false,
            reaped: false,
        };
        if has_pipe {
            (
                Teardown { phase: TeardownPhase::Closing, grace_ms, report },
                TeardownAction::CloseAndWait {
                    frame: close_frame(),
                    budget_ms: PROTOCOL_CLOSE_BUDGET_MS,
                },
            )
        } else {
            (
                Teardown { phase: TeardownPhase::Terminating, grace_ms, report },
                TeardownAction::TermAndWait { budget_ms: grace_ms },
            )
        }
    }

    /// A wait for the child ended.
    pub fn step(&mut self, event: TeardownEvent) -> (r: TeardownAction)
        requires
            old(self).wf(),
        ensures
            final(self).wf(),
            final(self).grace_ms == old(self).grace_ms,
            !(old(self).phase is Over) ==> waits_left(final(self).phase) < waits_left(
                old(self).phase,
            ),
            match (old(self).phase, event) {
                (TeardownPhase::Over, _) => r is Finish && *final(self) == *old(self),
                (TeardownPhase::Closing, TeardownEvent::Exited(status)) => {
                    &&& r is TermAndFinish
                    &&& final(self).phase is Over
                    &&& final(self).report == (TeardownReport {
                        exit_status: status,
                        graceful: true,
                        escalated_sigkill: false,
                        reaped: true,
                    })
                },
                (TeardownPhase::Closing, TeardownEvent::TimedOut) => {
                    &&& r == (TeardownAction::TermAndWait { budget_ms: old(self).grace_ms })
                    &&& final(self).phase is Terminating
                    &&& final(self).report == old(self).report
                },
                (TeardownPhase::Terminating, TeardownEvent::Exited(status)) => {
                    &&& r is Finish
                    &&& final(self).phase is Over
                    &&& final(self).report == (TeardownReport {
                        exit_status: status,
                        graceful: false,
                        escalated_sigkill: false,
                        reaped: true,
                    })
                },
                (TeardownPhase::Terminating, TeardownEvent::TimedOut) => {
                    &&& r == (TeardownAction::KillAndWait { budget_ms: REAP_BUDGET_MS })
                    &&& final(self).phase is Killing
                    &&& final(self).report == (TeardownReport {
                        escalated_sigkill: true,
                        ..old(self).report
                    })
                },
                (TeardownPhase::Killing, TeardownEvent::Exited(status)) => {
                    &&& r is Finish
                    &&& final(self).phase is Over
                    &&& final(self).report == (TeardownReport {
                        exit_status: status,
                        graceful: false,
                        escalated_sigkill: true,
                        reaped: true,
                    })
                },
                (TeardownPhase::Killing, TeardownEvent::TimedOut) => {
                    &&& r is Finish
                    &&& final(self).phase is Over
                    &&& final(self).report == old(self).report
                },
            },
    {
        match self.phase {
            TeardownPhase::Over => TeardownAction::Finish,
            TeardownPhase::Closing => match event {
                TeardownEvent::Exited(status) => {
                    self.report.graceful = true;
                    self.report.reaped = true;
                    self.report.exit_status = status;
                    self.phase = TeardownPhase::Over;
                    TeardownAction::TermAndFinish
                },
                TeardownEvent::TimedOut => {
                    self.phase = TeardownPhase::Terminating;
                    TeardownAction::TermAndWait { budget_ms: self.grace_ms }
                },
            },
            TeardownPhase::Terminating => match event {
                TeardownEvent::Exited(status) => {
                    self.report.reaped = true;
                    self.report.exit_status = status;
                    self.phase = TeardownPhase::Over;
                    TeardownAction::Finish
                },
                TeardownEvent::TimedOut => {
                    self.report.escalated_sigkill = true;
                    self.phase = TeardownPhase::Killing;
                    TeardownAction::KillAndWait { budget_ms: REAP_BUDGET_MS }
                },
            },
            TeardownPhase::Killing => {
                if let TeardownEvent::Exited(status) = event {
                    self.report.reaped = true;
                    self.report.exit_status = status;
                }
                self.phase = TeardownPhase::Over;
                TeardownAction::Finish
            },
        }
    }
}

/// How a finished teardown can read: a browser that was not reaped was sent
/// SIGKILL, one that exited gracefully was reaped without it, and an exit
/// status is only known of a reaped browser.
pub proof fn reports_are_consistent(t: Teardown)
    requires
        t.wf(),
        t.phase is Over,
    ensures
        !t.report.reaped ==> t.report.escalated_sigkill,
        t.report.graceful ==> t.report.reaped && !t.report.escalated_sigkill,
        t.report.exit_status is Some ==> t.report.reaped,
{
}

/// How many waits are left before a teardown is over, at most.
pub open spec fn waits_left(phase: TeardownPhase) -> nat {
    match phase {
        TeardownPhase::Closing => 3,
        TeardownPhase::Terminating => 2,
        TeardownPhase::Killing => 1,
        TeardownPhase::Over => 0,
    }
}

} // verus!
