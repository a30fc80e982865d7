//! What a recovery reports back: how far it got, what it read, why it stopped.

use vstd::prelude::*;

verus! {

/// The phases a recovery moves through, in this order. No phase is entered
/// twice, and `ResettingAgain` is entered only when the request asks for it.
#[derive(Clone, Copy, Debug, PartialEq, Eq, Structural)]
pub enum Phase {
    /// Nothing has been started.
    Idle,
    /// Reset is being asserted and released on every port.
    Resetting,
    /// Every port is being erased, one after the other.
    Erasing,
    /// Reset is being asserted and released on every port once more.
    ResettingAgain,
    /// The protection status of every port is being read.
    Verifying,
    /// Every port has been reset, erased and read.
    Done,
}

impl Phase {
    /// Position of the phase in the order in which phases are passed.
    pub open spec fn ordinal(self) -> int {
        match self {
            Phase::Idle => 0,
            Phase::Resetting => 1,
            Phase::Erasing => 2,
            Phase::ResettingAgain => 3,
            Phase::Verifying => 4,
            Phase::Done => 5,
        }
    }

    /// The phase that a recovery passes right before this one; `Idle` has
    /// none before it and is its own answer.
    pub open spec fn spec_previous(self, reset_after_erase: bool) -> Phase {
        match self {
            Phase::Idle | Phase::Resetting => Phase::Idle,
            Phase::Erasing => Phase::Resetting,
            Phase::ResettingAgain => Phase::Erasing,
            Phase::Verifying => if reset_after_erase {
                Phase::ResettingAgain
            } else {
                Phase::Erasing
            },
            Phase::Done => Phase::Verifying,
        }
    }

    /// The phase that a recovery passes right before this one; `Idle` has
    /// none before it and is its own answer.
    #[verifier::when_used_as_spec(spec_previous)]
    pub fn previous(self, reset_after_erase: bool) -> (phase: Phase)
        ensures
            phase == self.spec_previous(reset_after_erase),
    {
        match self {
            Phase::Idle => Phase::Idle,
            Phase::Resetting => Phase::Idle,
            Phase::Erasing => Phase::Resetting,
            Phase::ResettingAgain => Phase::Erasing,
            Phase::Verifying => if reset_after_erase {
                Phase::ResettingAgain
            } else {
                Phase::Erasing
            },
            Phase::Done => Phase::Verifying,
        }
    }
}

/// The protection status read from one port after its erase.
///
/// A value of 0 in both registers is what an unlocked port reports; the
/// recovery records what it read and leaves the judgement to the caller.
#[derive(Clone, Copy, Debug, PartialEq, Eq, Structural)]
pub struct PortStatus {
    pub port: u8,
    /// Value read from `ApProtectDisable`.
    pub approtect: u32,
    /// Value read from `SecureApProtectDisable`.
    pub secure_approtect: u32,
}

/// Why a recovery stopped before it was done. `E` is the transport's own
/// error type, carried through untouched.
#[derive(Debug, PartialEq, Eq)]
pub enum RecoveryError<E> {
    /// A register transaction on `port` failed while the recovery was in
    /// `phase`.
    Transport { phase: Phase, port: u8, cause: E },
    /// The erase of `port` was not seen to complete within the allowed
    /// number of status reads.
    EraseTimeout { port: u8 },
    /// The request named a port twice, or the recovery was handed a reply
    /// that does not answer the transaction it was waiting on.
    PreconditionViolation,
}

/// The first entry for `port` among `statuses`, if there is one.
pub open spec fn spec_status_of(statuses: Seq<PortStatus>, port: u8) -> Option<PortStatus>
    decreases statuses.len(),
{
    if statuses.len() == 0 {
        None
    } else if statuses[0].port == port {
        Some(statuses[0])
    } else {
        spec_status_of(statuses.skip(1), port)
    }
}

/// What `spec_status_of` finds is an entry for the port, and it finds one
/// whenever there is one.
pub proof fn status_of_finds_the_port(statuses: Seq<PortStatus>, port: u8)
    ensures
        match spec_status_of(statuses, port) {
            Some(status) => status.port == port && statuses.contains(status),
            None => forall|k: int| 0 <= k < statuses.len() ==> statuses[k].port != port,
        },
    decreases statuses.len(),
{
    if statuses.len() > 0 && statuses[0].port != port {
        let rest = statuses.skip(1);
        status_of_finds_the_port(rest, port);
        match spec_status_of(rest, port) {
            Some(status) => {
                let k = choose|k: int| 0 <= k < rest.len() && rest[k] == status;
                assert(statuses[k + 1] == status);
            },
            None => {
                assert forall|k: int| 0 <= k < statuses.len() implies statuses[k].port != port by {
                    if k > 0 {
                        assert(rest[k - 1] == statuses[k]);
                    }
                }
            },
        }
    } else if statuses.len() > 0 {
        assert(statuses[0] == statuses[0]);
    }
}

/// Looks up what a recovery read from `port`.
pub fn status_of(statuses: &Vec<PortStatus>, port: u8) -> (status: Option<PortStatus>)
    ensures
        status == spec_status_of(statuses@, port),
{
    let n = statuses.len();
    let mut k: usize = 0;
    assert(statuses@.skip(0) =~= statuses@);
    while k < n
        invariant
            n == statuses.len(),
            k <= n,
            spec_status_of(statuses@, port) == spec_status_of(statuses@.skip(k as int), port),
        decreases n - k,
    {
        let ghost rest = statuses@.skip(k as int);
        assert(rest[0] == statuses@[k as int]);
        assert(rest.skip(1) =~= statuses@.skip(k + 1));
        if statuses[k].port == port {
            return Some(statuses[k]);
        }
        k = k + 1;
    }
    assert(statuses@.skip(n as int).len() == 0);
    None
}

} // verus!
