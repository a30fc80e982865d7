//! In what order the transactions of a run come: resets before erases, the
//! end of an erase before the verification of its port, verification last.

use vstd::prelude::*;
use crate::laws::runs::{
    advance_never_goes_back, failure_stays, stages_ascend, states_are_well_formed,
};
use crate::protocol::{is_run, state_at, verdict, Exchange, Model, Reply, Stage};
use crate::register::{Register, Transaction};
use crate::report::{Phase, PortStatus, RecoveryError};
use crate::request::RecoveryRequest;

verus! {

/// Ordering, where the request does not ask for a second reset: every write
/// to `Reset`, on whatever port, comes before every write to `EraseAll`.
pub proof fn resets_precede_erases<E>(request: RecoveryRequest, log: Seq<Exchange<E>>, i: int, j: int)
    requires
        is_run(request@, log),
        !request@.reset_after_erase,
        0 <= i < log.len(),
        0 <= j < log.len(),
        log[i].transaction is Write,
        log[i].transaction.register() == Register::Reset,
        log[j].transaction is Write,
        log[j].transaction.register() == Register::EraseAll,
    ensures
        i < j,
{
    states_are_well_formed(request, log, i);
    states_are_well_formed(request, log, j);
    assert(state_at(request@, log, i).pending() == Some(log[i].transaction));
    assert(state_at(request@, log, j).pending() == Some(log[j].transaction));
    if j < i {
        stages_ascend(request, log, j, i);
    }
}

/// While nothing has failed, the reset phase runs like clockwork: the
/// transaction at position `2x` asserts reset on the `x`-th port, the one at
/// `2x + 1` releases it, and position `2n` is where the first erase starts.
proof fn lemma_reset_phase<E>(request: RecoveryRequest, log: Seq<Exchange<E>>, k: int)
    requires
        request@.ports.len() > 0,
        0 <= k <= 2 * request@.ports.len(),
        state_at(request@, log, k).failure is None,
    ensures
        state_at(request@, log, k).stage == if k == 2 * request@.ports.len() {
            Stage::StartErase { index: 0 }
        } else if k % 2 == 0 {
            Stage::AssertReset { index: (k / 2) as usize, again: false }
        } else {
            Stage::ReleaseReset { index: (k / 2) as usize, again: false }
        },
        k > 0 ==> log[k - 1].reply == Reply::<E>::Written,
    decreases k,
{
    assert(request@.ports.len() == request.ports.len());
    if k > 0 {
        let before = state_at(request@, log, k - 1);
        if before.failure is Some {
            failure_stays(request, log, k - 1, k);
        }
        lemma_reset_phase(request, log, k - 1);
        states_are_well_formed(request, log, k - 1);
        assert(state_at(request@, log, k) == before.advance(log[k - 1].reply));
        if (k - 1) % 2 == 0 {
            assert(before.stage == Stage::AssertReset { index: ((k - 1) / 2) as usize, again: false });
            assert(k / 2 == (k - 1) / 2);
        } else {
            assert(before.stage == Stage::ReleaseReset {
                index: ((k - 1) / 2) as usize,
                again: false,
            });
            assert(k / 2 == (k - 1) / 2 + 1);
        }
    }
}

/// Ordering, for every request: when an erase is started on any port, reset
/// has already been asserted and released on every port the request names, at
/// the positions `2x` and `2x + 1` of the log for the `x`-th port.
pub proof fn resets_complete_before_any_erase<E>(
    request: RecoveryRequest,
    log: Seq<Exchange<E>>,
    j: int,
    x: int,
)
    requires
        is_run(request@, log),
        0 <= j < log.len(),
        log[j].transaction is Write,
        log[j].transaction.register() == Register::EraseAll,
        0 <= x < request@.ports.len(),
    ensures
        2 * x + 1 < j,
        log[2 * x] == (Exchange::<E> {
            transaction: Transaction::Write {
                port: request@.ports[x],
                register: Register::Reset,
                value: 1,
            },
            reply: Reply::Written,
        }),
        log[2 * x + 1] == (Exchange::<E> {
            transaction: Transaction::Write {
                port: request@.ports[x],
                register: Register::Reset,
                value: 0,
            },
            reply: Reply::Written,
        }),
{
    let n = request@.ports.len();
    assert(request@.ports.len() == request.ports.len());
    assert(state_at(request@, log, j).pending() == Some(log[j].transaction));
    if j < 2 * n {
        lemma_reset_phase(request, log, j);
    }
    assert forall|k: int| 0 <= k <= 2 * n implies (#[trigger] state_at(request@, log, k)).failure
        is None by {
        if state_at(request@, log, k).failure is Some {
            failure_stays(request, log, k, j);
        }
    }
    lemma_reset_phase(request, log, 2 * x);
    lemma_reset_phase(request, log, 2 * x + 1);
    lemma_reset_phase(request, log, 2 * x + 2);
    states_are_well_formed(request, log, 2 * x);
    states_are_well_formed(request, log, 2 * x + 1);
    assert(state_at(request@, log, 2 * x).pending() == Some(log[2 * x].transaction));
    assert(state_at(request@, log, 2 * x + 1).pending() == Some(log[2 * x + 1].transaction));
}

/// Whether a recovery at `stage` has seen the erase of the `x`-th port
/// complete: it is erasing a later port, or has left the erase phase.
pub open spec fn past_erase_of(stage: Stage, x: int) -> bool {
    ||| stage.phase().ordinal() > Phase::Erasing.ordinal()
    ||| stage.phase() == Phase::Erasing && stage.index() > x
}

/// A recovery that is past the erase of the `x`-th port has read that
/// port's erase status as 0, and was past that erase right afterwards.
proof fn lemma_erase_was_seen_complete<E>(
    request: RecoveryRequest,
    log: Seq<Exchange<E>>,
    k: int,
    x: int,
) -> (i: int)
    requires
        is_run(request@, log),
        0 <= k <= log.len(),
        0 <= x < request@.ports.len(),
        past_erase_of(state_at(request@, log, k).stage, x),
    ensures
        0 <= i < k,
        log[i] == (Exchange::<E> {
            transaction: Transaction::Read {
                port: request@.ports[x],
                register: Register::EraseAllStatus,
            },
            reply: Reply::Value(0),
        }),
        past_erase_of(state_at(request@, log, i + 1).stage, x),
    decreases k,
{
    if k == 0 {
        0
    } else {
        let before = state_at(request@, log, k - 1);
        states_are_well_formed(request, log, k - 1);
        advance_never_goes_back(before, log[k - 1].reply);
        if past_erase_of(before.stage, x) {
            lemma_erase_was_seen_complete(request, log, k - 1, x)
        } else {
            assert(before.pending() == Some(log[k - 1].transaction));
            k - 1
        }
    }
}

/// Erase completion gating: before the protection status of a port is read,
/// the erase status of that same port has been read as 0, and it is not read
/// again after that.
pub proof fn erase_is_seen_complete_before_verification<E>(
    request: RecoveryRequest,
    log: Seq<Exchange<E>>,
    j: int,
) -> (i: int)
    requires
        is_run(request@, log),
        0 <= j < log.len(),
        log[j].transaction is Read,
        log[j].transaction.register() == Register::ApProtectDisable
            || log[j].transaction.register() == Register::SecureApProtectDisable,
    ensures
        0 <= i < j,
        log[i] == (Exchange::<E> {
            transaction: Transaction::Read {
                port: log[j].transaction.port(),
                register: Register::EraseAllStatus,
            },
            reply: Reply::Value(0),
        }),
        forall|k: int|
            i < k < log.len() ==> (#[trigger] log[k]).transaction != (Transaction::Read {
                port: log[j].transaction.port(),
                register: Register::EraseAllStatus,
            }),
{
    let at = state_at(request@, log, j);
    states_are_well_formed(request, log, j);
    assert(at.pending() == Some(log[j].transaction));
    let x = at.stage.index();
    let i = lemma_erase_was_seen_complete(request, log, j, x);
    assert forall|k: int| i < k < log.len() implies (#[trigger] log[k]).transaction != (
    Transaction::Read { port: log[j].transaction.port(), register: Register::EraseAllStatus }) by {
        let later = state_at(request@, log, k);
        states_are_well_formed(request, log, k);
        assert(later.pending() == Some(log[k].transaction));
        if i + 1 < k {
            stages_ascend(request, log, i + 1, k);
        }
        assert(past_erase_of(later.stage, x));
        if later.stage is PollErase {
            assert(request@.ports[later.stage.index()] != request@.ports[x]);
        }
    }
    i
}

/// Whether `transaction` reads one of the two protection status registers.
pub open spec fn is_verification_read(transaction: Transaction) -> bool {
    &&& transaction is Read
    &&& transaction.register() == Register::ApProtectDisable || transaction.register()
        == Register::SecureApProtectDisable
}

/// Verification never leads back: once a protection status register has
/// been read, every later transaction is again a read of a protection status
/// register, and never the same read a second time. No reset and no erase is
/// issued on the strength of what verification returned.
pub proof fn only_verification_follows_verification<E>(
    request: RecoveryRequest,
    log: Seq<Exchange<E>>,
    i: int,
    j: int,
)
    requires
        is_run(request@, log),
        0 <= i < j < log.len(),
        is_verification_read(log[i].transaction),
    ensures
        is_verification_read(log[j].transaction),
        log[j].transaction != log[i].transaction,
{
    states_are_well_formed(request, log, i);
    states_are_well_formed(request, log, j);
    stages_ascend(request, log, i, j);
    assert(state_at(request@, log, i).pending() == Some(log[i].transaction));
    assert(state_at(request@, log, j).pending() == Some(log[j].transaction));
}

/// Whether `m` has verified exactly the first `x` ports and nothing has
/// failed.
spec fn verified_up_to<E>(m: Model<E>, x: int) -> bool {
    &&& m.failure is None
    &&& m.stage == if x < m.request.ports.len() {
        Stage::ReadApProtect { index: x as usize }
    } else {
        Stage::Done
    }
}

/// The two exchanges that verified the `x - 1`-th port are the two right
/// before the state that has verified `x` ports.
proof fn lemma_verified_one_more<E>(request: RecoveryRequest, log: Seq<Exchange<E>>, k: int, x: int)
    requires
        is_run(request@, log),
        0 <= k <= log.len(),
        0 < x <= request@.ports.len(),
        verified_up_to(state_at(request@, log, k), x),
    ensures
        k >= 2,
        verified_up_to(state_at(request@, log, k - 2), x - 1),
        state_at(request@, log, k - 2).outcome == state_at(request@, log, k).outcome.take(x - 1),
        log[k - 2] == (Exchange::<E> {
            transaction: Transaction::Read {
                port: request@.ports[x - 1],
                register: Register::ApProtectDisable,
            },
            reply: Reply::Value(state_at(request@, log, k).outcome[x - 1].approtect),
        }),
        log[k - 1] == (Exchange::<E> {
            transaction: Transaction::Read {
                port: request@.ports[x - 1],
                register: Register::SecureApProtectDisable,
            },
            reply: Reply::Value(state_at(request@, log, k).outcome[x - 1].secure_approtect),
        }),
{
    assert(request@.ports.len() == request.ports.len());
    states_are_well_formed(request, log, 0);
    states_are_well_formed(request, log, k);
    assert(k >= 1);
    let last = state_at(request@, log, k - 1);
    states_are_well_formed(request, log, k - 1);
    assert(last.pending() == Some(log[k - 1].transaction));
    assert(state_at(request@, log, k) == last.advance(log[k - 1].reply));
    assert(last.stage is ReadSecureApProtect);
    assert(k >= 2);
    let first = state_at(request@, log, k - 2);
    states_are_well_formed(request, log, k - 2);
    assert(first.pending() == Some(log[k - 2].transaction));
    assert(last == first.advance(log[k - 2].reply));
    assert(first.stage is ReadApProtect);
    assert(first.outcome =~= state_at(request@, log, k).outcome.take(x - 1));
}

/// The exchanges that verified the `x`-th port, seen from a later state
/// that has verified `y` ports.
proof fn lemma_verified_earlier<E>(
    request: RecoveryRequest,
    log: Seq<Exchange<E>>,
    k: int,
    y: int,
    x: int,
)
    requires
        is_run(request@, log),
        0 <= k <= log.len(),
        0 <= x < y <= request@.ports.len(),
        verified_up_to(state_at(request@, log, k), y),
    ensures
        k >= 2 * (y - x),
        verified_up_to(state_at(request@, log, k - 2 * (y - x)), x),
        log[k - 2 * (y - x)] == (Exchange::<E> {
            transaction: Transaction::Read {
                port: request@.ports[x],
                register: Register::ApProtectDisable,
            },
            reply: Reply::Value(state_at(request@, log, k).outcome[x].approtect),
        }),
        log[k - 2 * (y - x) + 1] == (Exchange::<E> {
            transaction: Transaction::Read {
                port: request@.ports[x],
                register: Register::SecureApProtectDisable,
            },
            reply: Reply::Value(state_at(request@, log, k).outcome[x].secure_approtect),
        }),
    decreases y - x,
{
    lemma_verified_one_more(request, log, k, y);
    if x < y - 1 {
        lemma_verified_earlier(request, log, k - 2, y - 1, x);
        states_are_well_formed(request, log, k);
        assert(k - 2 - 2 * (y - 1 - x) == k - 2 * (y - x));
        assert(state_at(request@, log, k - 2).outcome[x] == state_at(request@, log, k).outcome[x]);
    }
}

/// Verification reads each port exactly twice, whatever the values: a run
/// that succeeds ends with the reads of `ApProtectDisable` and
/// `SecureApProtectDisable` of each port in request order, the outcome holds
/// for each port the two values that were read, and no protection status
/// register is read before those last `2n` exchanges.
pub proof fn success_ends_with_two_reads_per_port<E>(
    request: RecoveryRequest,
    log: Seq<Exchange<E>>,
    outcome: Seq<PortStatus>,
    x: int,
)
    requires
        is_run(request@, log),
        verdict(request@, log) == Some(Ok::<Seq<PortStatus>, RecoveryError<E>>(outcome)),
        0 <= x < request@.ports.len(),
    ensures
        outcome.len() == request@.ports.len(),
        outcome[x].port == request@.ports[x],
        log.len() >= 2 * request@.ports.len(),
        log[log.len() - 2 * (request@.ports.len() - x)] == (Exchange::<E> {
            transaction: Transaction::Read {
                port: request@.ports[x],
                register: Register::ApProtectDisable,
            },
            reply: Reply::Value(outcome[x].approtect),
        }),
        log[log.len() - 2 * (request@.ports.len() - x) + 1] == (Exchange::<E> {
            transaction: Transaction::Read {
                port: request@.ports[x],
                register: Register::SecureApProtectDisable,
            },
            reply: Reply::Value(outcome[x].secure_approtect),
        }),
        forall|k: int|
            0 <= k < log.len() - 2 * request@.ports.len() ==> !is_verification_read(
                (#[trigger] log[k]).transaction,
            ),
{
    let n = request@.ports.len() as int;
    let end = log.len() as int;
    states_are_well_formed(request, log, end);
    lemma_verified_earlier(request, log, end, n, x);
    lemma_verified_earlier(request, log, end, n, 0);
    assert forall|k: int| 0 <= k < end - 2 * n implies !is_verification_read(
        (#[trigger] log[k]).transaction,
    ) by {
        states_are_well_formed(request, log, k);
        stages_ascend(request, log, k, end - 2 * n);
        assert(state_at(request@, log, k).pending() == Some(log[k].transaction));
    }
}

} // verus!
