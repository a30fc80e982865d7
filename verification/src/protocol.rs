//! The recovery protocol as a mathematical state machine.
//!
//! A [`Model`] is the state of one recovery. [`Model::pending`] names the
//! transaction it is waiting on, [`Model::advance`] says what a reply to that
//! transaction does to it, and [`state_at`] folds `advance` over a log of
//! exchanges. Everything the executable code promises is stated over these.

use vstd::prelude::*;
use crate::register::{Register, Transaction};
use crate::report::{Phase, PortStatus, RecoveryError};
use crate::request::RequestView;

verus! {

/// What came back from the port for one transaction.
#[derive(Debug, PartialEq, Eq)]
pub enum Reply<E> {
    /// A write was carried out.
    Written,
    /// A read returned this value.
    Value(u32),
    /// The transaction failed in the transport.
    Fault(E),
}

impl<E> Reply<E> {
    /// The reply that the outcome of a write stands for.
    pub open spec fn spec_from_write(outcome: Result<(), E>) -> Reply<E> {
        match outcome {
            Ok(_) => Reply::Written,
            Err(fault) => Reply::Fault(fault),
        }
    }

    /// The reply that the outcome of a read stands for.
    pub open spec fn spec_from_read(outcome: Result<u32, E>) -> Reply<E> {
        match outcome {
            Ok(value) => Reply::Value(value),
            Err(fault) => Reply::Fault(fault),
        }
    }

    /// Turns the outcome of a write into a reply: `Written` where it was
    /// carried out, `Fault` with the transport's error where it was not.
    pub fn from_write(outcome: Result<(), E>) -> (reply: Reply<E>)
        ensures
            reply == Self::spec_from_write(outcome),
    {
        match outcome {
            Ok(_) => Reply::Written,
            Err(fault) => Reply::Fault(fault),
        }
    }

    /// Turns the outcome of a read into a reply: `Value` with what was read,
    /// or `Fault` with the transport's error.
    pub fn from_read(outcome: Result<u32, E>) -> (reply: Reply<E>)
        ensures
            reply == Self::spec_from_read(outcome),
    {
        match outcome {
            Ok(value) => Reply::Value(value),
            Err(fault) => Reply::Fault(fault),
        }
    }
}

/// A transaction together with the reply it received.
#[derive(Debug, PartialEq, Eq)]
pub struct Exchange<E> {
    pub transaction: Transaction,
    pub reply: Reply<E>,
}

impl<E> Exchange<E> {
    /// Whether the reply is of the kind that answers the transaction: a
    /// write is carried out or faults, a read returns a value or faults.
    pub open spec fn answered(self) -> bool {
        match self.reply {
            Reply::Written => self.transaction is Write,
            Reply::Value(_) => self.transaction is Read,
            Reply::Fault(_) => true,
        }
    }
}

/// Whether every reply in `log` is of the kind that answers its transaction.
pub open spec fn all_answered<E>(log: Seq<Exchange<E>>) -> bool {
    forall|k: int| 0 <= k < log.len() ==> (#[trigger] log[k]).answered()
}

/// Where exactly a recovery stands: the phase, the position in the port list
/// of the port being worked on, and how far the work on that port has come.
#[derive(Clone, Copy, Debug, PartialEq, Eq, Structural)]
pub enum Stage {
    /// Nothing has been started.
    Idle,
    /// About to write 1 to `Reset`; `again` tells the second reset phase
    /// from the first.
    AssertReset { index: usize, again: bool },
    /// About to write 0 to `Reset`.
    ReleaseReset { index: usize, again: bool },
    /// About to write 1 to `EraseAll`.
    StartErase { index: usize },
    /// About to read `EraseAllStatus`, which has already been read `polls`
    /// times for this port, never as 0.
    PollErase { index: usize, polls: u32 },
    /// About to read `ApProtectDisable`.
    ReadApProtect { index: usize },
    /// About to read `SecureApProtectDisable`, with the value of
    /// `ApProtectDisable` in hand.
    ReadSecureApProtect { index: usize, approtect: u32 },
    /// Every port has been reset, erased and read.
    Done,
}

impl Stage {
    /// The phase that the stage belongs to.
    pub open spec fn spec_phase(self) -> Phase {
        match self {
            Stage::Idle => Phase::Idle,
            Stage::AssertReset { again, .. } | Stage::ReleaseReset { again, .. } => if again {
                Phase::ResettingAgain
            } else {
                Phase::Resetting
            },
            Stage::StartErase { .. } | Stage::PollErase { .. } => Phase::Erasing,
            Stage::ReadApProtect { .. } | Stage::ReadSecureApProtect { .. } => Phase::Verifying,
            Stage::Done => Phase::Done,
        }
    }

    /// The phase that the stage belongs to.
    #[verifier::when_used_as_spec(spec_phase)]
    pub fn phase(self) -> (phase: Phase)
        ensures
            phase == self.spec_phase(),
    {
        match self {
            Stage::Idle => Phase::Idle,
            Stage::AssertReset { again, .. } => if again {
                Phase::ResettingAgain
            } else {
                Phase::Resetting
            },
            Stage::ReleaseReset { again, .. } => if again {
                Phase::ResettingAgain
            } else {
                Phase::Resetting
            },
            Stage::StartErase { .. } => Phase::Erasing,
            Stage::PollErase { .. } => Phase::Erasing,
            Stage::ReadApProtect { .. } => Phase::Verifying,
            Stage::ReadSecureApProtect { .. } => Phase::Verifying,
            Stage::Done => Phase::Done,
        }
    }

    /// Position in the port list of the port being worked on; 0 where no
    /// port is.
    pub open spec fn index(self) -> int {
        match self {
            Stage::Idle | Stage::Done => 0,
            Stage::AssertReset { index, .. }
            | Stage::ReleaseReset { index, .. }
            | Stage::StartErase { index }
            | Stage::PollErase { index, .. }
            | Stage::ReadApProtect { index }
            | Stage::ReadSecureApProtect { index, .. } => index as int,
        }
    }

    /// How many transactions of the current phase the current port has
    /// already answered.
    pub open spec fn step(self) -> int {
        match self {
            Stage::ReleaseReset { .. } | Stage::ReadSecureApProtect { .. } => 1,
            Stage::PollErase { polls, .. } => polls + 1,
            _ => 0,
        }
    }

    /// The transaction that a recovery of `ports` issues at this stage.
    pub open spec fn transaction(self, ports: Seq<u8>) -> Option<Transaction> {
        let port = ports[self.index()];
        match self {
            Stage::Idle | Stage::Done => None,
            Stage::AssertReset { .. } => Some(
                Transaction::Write { port, register: Register::Reset, value: 1 },
            ),
            Stage::ReleaseReset { .. } => Some(
                Transaction::Write { port, register: Register::Reset, value: 0 },
            ),
            Stage::StartErase { .. } => Some(
                Transaction::Write { port, register: Register::EraseAll, value: 1 },
            ),
            Stage::PollErase { .. } => Some(
                Transaction::Read { port, register: Register::EraseAllStatus },
            ),
            Stage::ReadApProtect { .. } => Some(
                Transaction::Read { port, register: Register::ApProtectDisable },
            ),
            Stage::ReadSecureApProtect { .. } => Some(
                Transaction::Read { port, register: Register::SecureApProtectDisable },
            ),
        }
    }

    /// The stage that follows once the current port has nothing left to do
    /// in the current phase: the next port in the same phase, or the first
    /// port in the next phase, or `Done`.
    pub open spec fn after_port(self, request: RequestView) -> Stage {
        let next = self.index() + 1;
        let more = next < request.ports.len();
        match self.phase() {
            Phase::Resetting => if more {
                Stage::AssertReset { index: next as usize, again: false }
            } else {
                Stage::StartErase { index: 0 }
            },
            Phase::Erasing => if more {
                Stage::StartErase { index: next as usize }
            } else if request.reset_after_erase {
                Stage::AssertReset { index: 0, again: true }
            } else {
                Stage::ReadApProtect { index: 0 }
            },
            Phase::ResettingAgain => if more {
                Stage::AssertReset { index: next as usize, again: true }
            } else {
                Stage::ReadApProtect { index: 0 }
            },
            Phase::Verifying => if more {
                Stage::ReadApProtect { index: next as usize }
            } else {
                Stage::Done
            },
            Phase::Idle | Phase::Done => self,
        }
    }

    /// The phase that a recovery at this stage has taken the port at
    /// `position` into: the current phase for the port being worked on and
    /// those before it in the request, the phase before for those after it.
    pub open spec fn spec_phase_reached(self, position: usize, reset_after_erase: bool) -> Phase {
        if self == Stage::Idle || self == Stage::Done || position <= self.index() {
            self.phase()
        } else {
            self.phase().previous(reset_after_erase)
        }
    }

    /// The phase that a recovery at this stage has taken the port at
    /// `position` into: the current phase for the port being worked on and
    /// those before it in the request, the phase before for those after it.
    #[verifier::when_used_as_spec(spec_phase_reached)]
    pub fn phase_reached(self, position: usize, reset_after_erase: bool) -> (phase: Phase)
        ensures
            phase == self.spec_phase_reached(position, reset_after_erase),
    {
        let index = match self {
            Stage::Idle => {
                return Phase::Idle;
            },
            Stage::Done => {
                return Phase::Done;
            },
            Stage::AssertReset { index, .. } => index,
            Stage::ReleaseReset { index, .. } => index,
            Stage::StartErase { index } => index,
            Stage::PollErase { index, .. } => index,
            Stage::ReadApProtect { index } => index,
            Stage::ReadSecureApProtect { index, .. } => index,
        };
        if position <= index {
            self.phase()
        } else {
            self.phase().previous(reset_after_erase)
        }
    }

    /// Whether `self` comes strictly earlier in a recovery than `later`:
    /// an earlier phase, or the same phase and an earlier port, or the same
    /// port and fewer transactions answered.
    pub open spec fn precedes(self, later: Stage) -> bool {
        let (p, q) = (self.phase().ordinal(), later.phase().ordinal());
        ||| p < q
        ||| p == q && self.index() < later.index()
        ||| p == q && self.index() == later.index() && self.step() < later.step()
    }
}

/// The state of one recovery.
pub struct Model<E> {
    pub request: RequestView,
    pub stage: Stage,
    /// The status of the ports verified so far, in request order.
    pub outcome: Seq<PortStatus>,
    /// Why the recovery stopped, if it stopped before it was done. The stage
    /// stays where the failure happened.
    pub failure: Option<RecoveryError<E>>,
}

impl<E> Model<E> {
    /// A recovery of `request` that has not been started.
    pub open spec fn idle(request: RequestView) -> Model<E> {
        Model { request, stage: Stage::Idle, outcome: Seq::empty(), failure: None }
    }

    /// The states that a recovery can be in.
    pub open spec fn wf(self) -> bool {
        let n = self.request.ports.len();
        &&& n <= usize::MAX
        &&& self.request.max_polls <= u32::MAX
        &&& self.stage != Stage::Idle ==> self.request.ports.no_duplicates()
        &&& self.stage == Stage::Done ==> self.failure is None
        &&& self.stage.phase() == Phase::ResettingAgain ==> self.request.reset_after_erase
        &&& self.stage != Stage::Idle && self.stage != Stage::Done ==> self.stage.index() < n
        &&& self.stage matches Stage::PollErase { polls, .. } ==> polls < self.request.max_polls
        &&& self.outcome.len() == match self.stage {
            Stage::ReadApProtect { index } | Stage::ReadSecureApProtect { index, .. } => index as nat,
            Stage::Done => n,
            _ => 0,
        }
        &&& forall|k: int|
            0 <= k < self.outcome.len() ==> (#[trigger] self.outcome[k]).port
                == self.request.ports[k]
    }

    /// The port being worked on.
    pub open spec fn port(self) -> u8 {
        self.request.ports[self.stage.index()]
    }

    /// The transaction that the recovery is waiting on, if it is waiting.
    pub open spec fn pending(self) -> Option<Transaction> {
        if self.failure is Some {
            None
        } else {
            self.stage.transaction(self.request.ports)
        }
    }

    /// How the recovery ended, if it has ended.
    pub open spec fn result(self) -> Option<Result<Seq<PortStatus>, RecoveryError<E>>> {
        match self.failure {
            Some(error) => Some(Err(error)),
            None => if self.stage == Stage::Done {
                Some(Ok(self.outcome))
            } else {
                None
            },
        }
    }

    /// The same recovery at another stage.
    pub open spec fn at(self, stage: Stage) -> Model<E> {
        Model { stage, ..self }
    }

    /// The same recovery, stopped by `error`.
    pub open spec fn failed(self, error: RecoveryError<E>) -> Model<E> {
        Model { failure: Some(error), ..self }
    }

    /// The recovery after it has been told to start. A request that names a
    /// port twice stops it at once; one that names no port is done at once.
    /// Starting twice changes nothing.
    pub open spec fn start(self) -> Model<E> {
        if self.stage != Stage::Idle || self.failure is Some {
            self
        } else if !self.request.ports.no_duplicates() {
            self.failed(RecoveryError::PreconditionViolation)
        } else if self.request.ports.len() == 0 {
            self.at(Stage::Done)
        } else {
            self.at(Stage::AssertReset { index: 0, again: false })
        }
    }

    /// The recovery after a write it was waiting on has been carried out.
    pub open spec fn written(self) -> Model<E> {
        match self.stage {
            Stage::AssertReset { index, again } => self.at(Stage::ReleaseReset { index, again }),
            Stage::ReleaseReset { .. } => self.at(self.stage.after_port(self.request)),
            Stage::StartErase { index } => if self.request.max_polls == 0 {
                self.failed(RecoveryError::EraseTimeout { port: self.port() })
            } else {
                self.at(Stage::PollErase { index, polls: 0 })
            },
            _ => self.failed(RecoveryError::PreconditionViolation),
        }
    }

    /// The recovery after a read it was waiting on has returned `value`.
    pub open spec fn read(self, value: u32) -> Model<E> {
        match self.stage {
            Stage::PollErase { index, polls } => if value == 0 {
                self.at(self.stage.after_port(self.request))
            } else if polls + 1 < self.request.max_polls {
                self.at(Stage::PollErase { index, polls: (polls + 1) as u32 })
            } else {
                self.failed(RecoveryError::EraseTimeout { port: self.port() })
            },
            Stage::ReadApProtect { index } => self.at(
                Stage::ReadSecureApProtect { index, approtect: value },
            ),
            Stage::ReadSecureApProtect { approtect, .. } => Model {
                stage: self.stage.after_port(self.request),
                outcome: self.outcome.push(
                    PortStatus { port: self.port(), approtect, secure_approtect: value },
                ),
                ..self
            },
            _ => self.failed(RecoveryError::PreconditionViolation),
        }
    }

    /// The recovery after `reply` has been handed to it. A recovery that is
    /// not waiting on a transaction ignores the reply. A fault stops it with
    /// the fault as the cause; so does a reply of the wrong kind.
    pub open spec fn advance(self, reply: Reply<E>) -> Model<E> {
        if self.pending() is None {
            self
        } else {
            match reply {
                Reply::Fault(cause) => self.failed(
                    RecoveryError::Transport {
                        phase: self.stage.phase(),
                        port: self.port(),
                        cause,
                    },
                ),
                Reply::Written => self.written(),
                Reply::Value(value) => self.read(value),
            }
        }
    }
}

/// The state of a recovery of `request` after the first `k` exchanges of
/// `log` have taken place: started, then advanced by each reply in turn.
pub open spec fn state_at<E>(request: RequestView, log: Seq<Exchange<E>>, k: int) -> Model<E>
    decreases k,
{
    if k <= 0 {
        Model::idle(request).start()
    } else {
        state_at(request, log, k - 1).advance(log[k - 1].reply)
    }
}

/// Whether `log` is what a recovery of `request` can have exchanged with the
/// port so far: each transaction in it is the one the recovery was waiting on
/// after the replies before it.
pub open spec fn is_run<E>(request: RequestView, log: Seq<Exchange<E>>) -> bool {
    forall|k: int|
        0 <= k < log.len() ==> (#[trigger] state_at(request, log, k)).pending() == Some(
            log[k].transaction,
        )
}

/// How a recovery of `request` stands after all of `log`: `None` while it
/// still waits on a transaction.
pub open spec fn verdict<E>(request: RequestView, log: Seq<Exchange<E>>) -> Option<
    Result<Seq<PortStatus>, RecoveryError<E>>,
> {
    state_at(request, log, log.len() as int).result()
}

} // verus!
