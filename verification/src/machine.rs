//! The recovery as an executable state machine.
//!
//! A [`Recovery`] never touches a register itself. It names the transaction
//! that has to happen next; whoever owns the port performs it and hands the
//! reply back:
//!
//! ```text
//! let mut recovery = Recovery::new(request).start();
//! while let Some(transaction) = recovery.next_transaction() {
//!     let reply = /* perform `transaction` on the port */;
//!     recovery = recovery.handle(reply);
//! }
//! let result = recovery.finish();
//! ```

use vstd::prelude::*;
use crate::protocol::{Model, Reply, Stage};
use crate::register::{Register, Transaction};
use crate::report::{Phase, PortStatus, RecoveryError};
use crate::request::RecoveryRequest;

verus! {

/// One recovery in progress.
pub struct Recovery<E> {
    request: RecoveryRequest,
    stage: Stage,
    outcome: Vec<PortStatus>,
    failure: Option<RecoveryError<E>>,
}

impl<E> View for Recovery<E> {
    type V = Model<E>;

    closed spec fn view(&self) -> Model<E> {
        Model {
            request: self.request@,
            stage: self.stage,
            outcome: self.outcome@,
            failure: self.failure,
        }
    }
}

/// The stage that follows `stage` once its port has nothing left to do in
/// its phase.
fn after_port(stage: Stage, request: &RecoveryRequest) -> (next: Stage)
    requires
        stage.index() < request.ports.len(),
    ensures
        next == stage.after_port(request@),
{
    let (index, phase) = match stage {
        Stage::Idle => {
            return stage;
        },
        Stage::Done => {
            return stage;
        },
        Stage::AssertReset { index, .. } => (index, stage.phase()),
        Stage::ReleaseReset { index, .. } => (index, stage.phase()),
        Stage::StartErase { index } => (index, stage.phase()),
        Stage::PollErase { index, .. } => (index, stage.phase()),
        Stage::ReadApProtect { index } => (index, stage.phase()),
        Stage::ReadSecureApProtect { index, .. } => (index, stage.phase()),
    };
    let next: usize = index + 1;
    let more = next < request.ports.len();
    match phase {
        Phase::Resetting => if more {
            Stage::AssertReset { index: next, again: false }
        } else {
            Stage::StartErase { index: 0 }
        },
        Phase::Erasing => if more {
            Stage::StartErase { index: next }
        } else if request.reset_after_erase {
            Stage::AssertReset { index: 0, again: true }
        } else {
            Stage::ReadApProtect { index: 0 }
        },
        Phase::ResettingAgain => if more {
            Stage::AssertReset { index: next, again: true }
        } else {
            Stage::ReadApProtect { index: 0 }
        },
        Phase::Verifying => if more {
            Stage::ReadApProtect { index: next }
        } else {
            Stage::Done
        },
        Phase::Idle => stage,
        Phase::Done => stage,
    }
}

impl<E> Recovery<E> {
    #[verifier::type_invariant]
    spec fn inv(self) -> bool {
        self@.wf()
    }

    /// A recovery of `request` that has not been started. It waits on no
    /// transaction until [`start`](Self::start) is called.
    pub fn new(request: RecoveryRequest) -> (recovery: Self)
        ensures
            recovery@ == Model::<E>::idle(request@),
            recovery@.wf(),
    {
        assert(request@.ports.len() == request.ports.len());
        Recovery { request, stage: Stage::Idle, outcome: Vec::new(), failure: None }
    }

    /// Starts the recovery: checks the request and moves to the first
    /// transaction. A request that names a port twice fails here with
    /// `PreconditionViolation`; one that names no port is done here.
    pub fn start(self) -> (recovery: Self)
        ensures
            recovery@ == self@.start(),
            recovery@.wf(),
    {
        proof {
            use_type_invariant(&self);
        }
        let Recovery { request, stage, outcome, failure } = self;
        if stage != Stage::Idle || failure.is_some() {
            Recovery { request, stage, outcome, failure }
        } else if !request.has_distinct_ports() {
            Recovery {
                request,
                stage,
                outcome,
                failure: Some(RecoveryError::PreconditionViolation),
            }
        } else if request.ports.len() == 0 {
            Recovery { request, stage: Stage::Done, outcome, failure }
        } else {
            Recovery {
                request,
                stage: Stage::AssertReset { index: 0, again: false },
                outcome,
                failure,
            }
        }
    }

    /// The transaction that has to be performed next, or `None` if the
    /// recovery has not been started or has ended.
    pub fn next_transaction(&self) -> (transaction: Option<Transaction>)
        ensures
            transaction == self@.pending(),
    {
        proof {
            use_type_invariant(self);
        }
        if self.failure.is_some() {
            return None;
        }
        match self.stage {
            Stage::Idle => None,
            Stage::Done => None,
            Stage::AssertReset { index, .. } => Some(
                Transaction::Write {
                    port: self.request.ports[index],
                    register: Register::Reset,
                    value: 1,
                },
            ),
            Stage::ReleaseReset { index, .. } => Some(
                Transaction::Write {
                    port: self.request.ports[index],
                    register: Register::Reset,
                    value: 0,
                },
            ),
            Stage::StartErase { index } => Some(
                Transaction::Write {
                    port: self.request.ports[index],
                    register: Register::EraseAll,
                    value: 1,
                },
            ),
            Stage::PollErase { index, .. } => Some(
                Transaction::Read {
                    port: self.request.ports[index],
                    register: Register::EraseAllStatus,
                },
            ),
            Stage::ReadApProtect { index } => Some(
                Transaction::Read {
                    port: self.request.ports[index],
                    register: Register::ApProtectDisable,
                },
            ),
            Stage::ReadSecureApProtect { index, .. } => Some(
                Transaction::Read {
                    port: self.request.ports[index],
                    register: Register::SecureApProtectDisable,
                },
            ),
        }
    }

    /// Takes the reply to the transaction that
    /// [`next_transaction`](Self::next_transaction) named and moves on.
    ///
    /// A fault ends the recovery with a `Transport` error that carries the
    /// fault, the phase and the port. A status read that is nonzero for the
    /// last time the request allows ends it with `EraseTimeout`. A reply of
    /// the wrong kind ends it with `PreconditionViolation`. A recovery that
    /// waits on nothing ignores the reply.
    pub fn handle(self, reply: Reply<E>) -> (recovery: Self)
        ensures
            recovery@ == self@.advance(reply),
            recovery@.wf(),
    {
        proof {
            use_type_invariant(&self);
        }
        let port = match self.next_transaction() {
            None => {
                return self;
            },
            Some(transaction) => transaction.port(),
        };
        let Recovery { request, stage, mut outcome, failure } = self;
        let ghost before = Model { request: request@, stage, outcome: outcome@, failure };
        match reply {
            Reply::Fault(cause) => Recovery {
                request,
                stage,
                outcome,
                failure: Some(RecoveryError::Transport { phase: stage.phase(), port, cause }),
            },
            Reply::Written => match stage {
                Stage::AssertReset { index, again } => Recovery {
                    request,
                    stage: Stage::ReleaseReset { index, again },
                    outcome,
                    failure,
                },
                Stage::ReleaseReset { .. } => {
                    let next = after_port(stage, &request);
                    Recovery { request, stage: next, outcome, failure }
                },
                Stage::StartErase { index } => if request.max_polls == 0 {
                    Recovery {
                        request,
                        stage,
                        outcome,
                        failure: Some(RecoveryError::EraseTimeout { port }),
                    }
                } else {
                    Recovery { request, stage: Stage::PollErase { index, polls: 0 }, outcome, failure }
                },
                _ => Recovery {
                    request,
                    stage,
                    outcome,
                    failure: Some(RecoveryError::PreconditionViolation),
                },
            },
            Reply::Value(value) => match stage {
                Stage::PollErase { index, polls } => if value == 0 {
                    let next = after_port(stage, &request);
                    Recovery { request, stage: next, outcome, failure }
                } else if polls + 1 < request.max_polls {
                    Recovery {
                        request,
                        stage: Stage::PollErase { index, polls: polls + 1 },
                        outcome,
                        failure,
                    }
                } else {
                    Recovery {
                        request,
                        stage,
                        outcome,
                        failure: Some(RecoveryError::EraseTimeout { port }),
                    }
                },
                Stage::ReadApProtect { index } => Recovery {
                    request,
                    stage: Stage::ReadSecureApProtect { index, approtect: value },
                    outcome,
                    failure,
                },
                Stage::ReadSecureApProtect { approtect, .. } => {
                    let next = after_port(stage, &request);
                    outcome.push(PortStatus { port, approtect, secure_approtect: value });
                    assert(outcome@ == before.read(value).outcome);
                    Recovery { request, stage: next, outcome, failure }
                },
                _ => Recovery {
                    request,
                    stage,
                    outcome,
                    failure: Some(RecoveryError::PreconditionViolation),
                },
            },
        }
    }

    /// Where the recovery stands. After a failure this is still the stage at
    /// which it failed.
    pub fn stage(&self) -> (stage: Stage)
        ensures
            stage == self@.stage,
    {
        self.stage
    }

    /// The phase the recovery is in. After a failure this is still the phase
    /// in which it failed.
    pub fn phase(&self) -> (phase: Phase)
        ensures
            phase == self@.stage.phase(),
    {
        self.stage.phase()
    }

    /// The phase into which the recovery has taken the port at `position` of
    /// the request: the current phase for the port being worked on and those
    /// before it, the phase before for those after it. After a failure this
    /// tells how far each port got.
    pub fn phase_reached(&self, position: usize) -> (phase: Phase)
        ensures
            phase == self@.stage.phase_reached(position, self@.request.reset_after_erase),
    {
        self.stage.phase_reached(position, self.request.reset_after_erase)
    }

    /// Whether the recovery has ended, in success or in failure.
    pub fn is_finished(&self) -> (finished: bool)
        ensures
            finished == (self@.result() is Some),
    {
        self.failure.is_some() || self.stage == Stage::Done
    }

    /// How the recovery ended: the status of every port in request order,
    /// or the error that stopped it. `None` if it has not ended.
    pub fn finish(self) -> (result: Option<Result<Vec<PortStatus>, RecoveryError<E>>>)
        ensures
            match result {
                None => self@.result() is None,
                Some(Ok(outcome)) => self@.result() == Some(
                    Ok::<Seq<PortStatus>, RecoveryError<E>>(outcome@),
                ),
                Some(Err(error)) => self@.result() == Some(
                    Err::<Seq<PortStatus>, RecoveryError<E>>(error),
                ),
            },
    {
        let Recovery { request, stage, outcome, failure } = self;
        match failure {
            Some(error) => Some(Err(error)),
            None => if stage == Stage::Done {
                Some(Ok(outcome))
            } else {
                None
            },
        }
    }
}

} // verus!
