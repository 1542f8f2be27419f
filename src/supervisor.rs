use vstd::prelude::*;
use crate::common::Cursor;
use crate::engine::{begin_frame_model, CameraPoll, EngineModel, FailReason, RunState, StopPoll};

verus! {

/// Pause between the end of a run and the start of the next, in milliseconds.
pub const BACKOFF_MS: u64 = 50;

/// How a run of the engine ended.
#[derive(Clone, Copy, Debug, PartialEq, Eq, Structural)]
pub enum RunExit {
    /// A stop request ended it.
    Stopped,
    /// A run-fatal error ended it.
    Failed(FailReason),
    /// It ended abnormally: its thread panicked, or it could not start.
    Aborted,
}

/// The exit a finished run reports; none while it runs.
pub open spec fn exit_of(st: RunState) -> Option<RunExit> {
    match st {
        RunState::Running => None,
        RunState::Stopped => Some(RunExit::Stopped),
        RunState::Failed(r) => Some(RunExit::Failed(r)),
    }
}

impl RunExit {
    /// The exit of a finished run, or `None` while it runs.
    pub fn from_state(st: RunState) -> (r: Option<RunExit>)
        ensures
            r == exit_of(st),
    {
        match st {
            RunState::Running => None,
            RunState::Stopped => Some(RunExit::Stopped),
            RunState::Failed(reason) => Some(RunExit::Failed(reason)),
        }
    }

    /// Whether the exit is an error to report (anything but a requested stop).
    pub fn is_failure(&self) -> (r: bool)
        ensures
            r == !(*self is Stopped),
    {
        match self {
            RunExit::Stopped => false,
            _ => true,
        }
    }
}

/// The supervisor's answer to an exit: start a new run after a pause.
#[derive(Clone, Copy, Debug, PartialEq, Eq, Structural)]
pub struct Restart {
    pub after_ms: u64,
    pub exit: RunExit,
}

pub struct SupervisorModel {
    pub backoff_ms: u64,
    pub restarts: nat,
}

/// Unconditional restart: every exit, whatever its cause, gets one restart
/// after the fixed pause.
pub open spec fn supervise_model(s: SupervisorModel, exit: RunExit) -> (SupervisorModel, Restart) {
    (
        SupervisorModel {
            restarts: if s.restarts < u64::MAX {
                s.restarts + 1
            } else {
                s.restarts
            },
            ..s
        },
        Restart { after_ms: s.backoff_ms, exit },
    )
}

/// Keeps the growth engine alive across run failures, with no retry limit,
/// no growing backoff and no sorting of failures.
pub struct Supervisor {
    backoff_ms: u64,
    restarts: u64,
}

impl View for Supervisor {
    type V = SupervisorModel;

    closed spec fn view(&self) -> SupervisorModel {
        SupervisorModel { backoff_ms: self.backoff_ms, restarts: self.restarts as nat }
    }
}

impl Supervisor {
    pub fn new(backoff_ms: u64) -> (s: Supervisor)
        ensures
            s@ == (SupervisorModel { backoff_ms, restarts: 0 }),
    {
        Supervisor { backoff_ms, restarts: 0 }
    }

    /// A supervisor with the standard pause of `BACKOFF_MS`.
    pub fn standard() -> (s: Supervisor)
        ensures
            s@ == (SupervisorModel { backoff_ms: BACKOFF_MS, restarts: 0 }),
    {
        Supervisor::new(BACKOFF_MS)
    }

    /// Restarts issued so far (the count stops at `u64::MAX`).
    pub fn restarts(&self) -> (n: u64)
        ensures
            n == self@.restarts,
    {
        self.restarts
    }

    /// Answers the end of a run with one restart.
    pub fn on_run_exit(&mut self, exit: RunExit) -> (r: Restart)
        ensures
            (final(self)@, r) == supervise_model(old(self)@, exit),
    {
        if self.restarts < u64::MAX {
            self.restarts = self.restarts + 1;
        }
        Restart { after_ms: self.backoff_ms, exit }
    }
}

/// When the camera channel closes for good, the running engine ends its run
/// in `Failed` at the next frame's camera check, and the supervisor answers
/// that exit with exactly one restart, after its pause.
pub proof fn lemma_camera_loss_fails_run_and_restarts_once(
    m: EngineModel,
    cursor: Cursor,
    s: SupervisorModel,
)
    requires
        m.wf(),
        m.state is Running,
        s.restarts < u64::MAX,
    ensures
        ({
            let after = begin_frame_model(m, StopPoll::Idle, CameraPoll::Disconnected, cursor);
            &&& after.state == RunState::Failed(FailReason::CameraDisconnected)
            &&& exit_of(after.state) == Some(RunExit::Failed(FailReason::CameraDisconnected))
            &&& supervise_model(s, RunExit::Failed(FailReason::CameraDisconnected)).0.restarts
                == s.restarts + 1
            &&& supervise_model(s, RunExit::Failed(FailReason::CameraDisconnected)).1 == (Restart {
                after_ms: s.backoff_ms,
                exit: RunExit::Failed(FailReason::CameraDisconnected),
            })
        }),
{
}

} // verus!
