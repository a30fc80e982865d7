//! How runs end: which requests end at once, and what exactly has happened
//! when a run ends in each kind of error.

use vstd::prelude::*;
use crate::laws::runs::{run_ends_with_its_result, states_are_well_formed};
use crate::protocol::{all_answered, is_run, state_at, verdict, Exchange, Reply, Stage};
use crate::register::{Register, Transaction};
use crate::report::{Phase, PortStatus, RecoveryError};
use crate::request::RecoveryRequest;

verus! {

/// A request that names no port is done before anything is asked of the
/// port, with an empty outcome.
pub proof fn empty_request_asks_nothing<E>(request: RecoveryRequest, log: Seq<Exchange<E>>)
    requires
        is_run(request@, log),
        request@.ports.len() == 0,
    ensures
        log.len() == 0,
        verdict(request@, log) == Some(
            Ok::<Seq<PortStatus>, RecoveryError<E>>(Seq::<PortStatus>::empty()),
        ),
{
    assert(state_at(request@, log, 0).stage == Stage::Done);
    run_ends_with_its_result(request, log, 0);
}

/// A request that names a port twice is refused before anything is asked of
/// the port.
pub proof fn invalid_request_asks_nothing<E>(request: RecoveryRequest, log: Seq<Exchange<E>>)
    requires
        is_run(request@, log),
        !request@.ports.no_duplicates(),
    ensures
        log.len() == 0,
        verdict(request@, log) == Some(
            Err::<Seq<PortStatus>, RecoveryError<E>>(RecoveryError::PreconditionViolation),
        ),
{
    run_ends_with_its_result(request, log, 0);
}

/// Fail-fast: a transaction that faults is the last one of its run, and the
/// run's result is a transport error that carries that fault, the port the
/// transaction addressed and the phase it was issued in.
pub proof fn fault_ends_the_run<E>(request: RecoveryRequest, log: Seq<Exchange<E>>, k: int, cause: E)
    requires
        is_run(request@, log),
        0 <= k < log.len(),
        log[k].reply == Reply::Fault(cause),
    ensures
        k + 1 == log.len(),
        verdict(request@, log) == Some(
            Err::<Seq<PortStatus>, RecoveryError<E>>(
                RecoveryError::Transport {
                    phase: state_at(request@, log, k).stage.phase(),
                    port: log[k].transaction.port(),
                    cause,
                },
            ),
        ),
{
    let after = state_at(request@, log, k + 1);
    assert(state_at(request@, log, k).pending() is Some);
    assert(after == state_at(request@, log, k).advance(log[k].reply));
    assert(after.result() is Some);
    run_ends_with_its_result(request, log, k + 1);
}

/// A failure comes with the last exchange of its run, or, in a run without
/// exchanges, with the start.
proof fn lemma_failure_is_fresh<E>(request: RecoveryRequest, log: Seq<Exchange<E>>)
    requires
        is_run(request@, log),
        log.len() > 0,
    ensures
        state_at(request@, log, log.len() - 1).wf(),
        state_at(request@, log, log.len() - 1).request == request@,
        state_at(request@, log, log.len() - 1).failure is None,
        state_at(request@, log, log.len() - 1).pending() == Some(log.last().transaction),
        state_at(request@, log, log.len() as int) == state_at(
            request@,
            log,
            log.len() - 1,
        ).advance(log.last().reply),
{
    states_are_well_formed(request, log, log.len() - 1);
}

/// A transport error is always the fault of the last transaction: a run
/// whose result is a transport error ends with an exchange that faulted
/// with that cause, on that port, in that phase.
pub proof fn transport_error_means_fault<E>(
    request: RecoveryRequest,
    log: Seq<Exchange<E>>,
    phase: Phase,
    port: u8,
    cause: E,
)
    requires
        is_run(request@, log),
        verdict(request@, log) == Some(
            Err::<Seq<PortStatus>, RecoveryError<E>>(
                RecoveryError::Transport { phase, port, cause },
            ),
        ),
    ensures
        log.len() > 0,
        log.last().reply == Reply::Fault(cause),
        log.last().transaction.port() == port,
        state_at(request@, log, log.len() - 1).stage.phase() == phase,
{
    if log.len() > 0 {
        lemma_failure_is_fresh(request, log);
    }
}

/// A recovery is refused only for cause: a run whose result is a
/// precondition violation is either empty, for a request that names a port
/// twice, or ends with a reply that does not answer its transaction.
pub proof fn violation_means_bad_request_or_reply<E>(request: RecoveryRequest, log: Seq<Exchange<E>>)
    requires
        is_run(request@, log),
        verdict(request@, log) == Some(
            Err::<Seq<PortStatus>, RecoveryError<E>>(RecoveryError::PreconditionViolation),
        ),
    ensures
        if log.len() == 0 {
            !request@.ports.no_duplicates()
        } else {
            request@.ports.no_duplicates() && !log.last().answered()
        },
        all_answered(log) ==> !request@.ports.no_duplicates(),
{
    if log.len() > 0 {
        lemma_failure_is_fresh(request, log);
    }
}

/// While an erase that started at position `k` keeps reading nonzero, the
/// recovery keeps polling the same port and counts the reads.
proof fn lemma_polling<E>(request: RecoveryRequest, log: Seq<Exchange<E>>, k: int, m: int)
    requires
        is_run(request@, log),
        0 <= k,
        0 <= m < request@.max_polls,
        k + m < log.len(),
        log[k].transaction is Write,
        log[k].transaction.register() == Register::EraseAll,
        log[k].reply == Reply::<E>::Written,
        forall|p: int| k < p <= k + m ==> (#[trigger] log[p]).reply is Value && log[p].reply->Value_0 != 0,
    ensures
        state_at(request@, log, k + 1 + m).failure is None,
        state_at(request@, log, k + 1 + m).stage == (Stage::PollErase {
            index: state_at(request@, log, k).stage.index() as usize,
            polls: m as u32,
        }),
    decreases m,
{
    states_are_well_formed(request, log, k);
    assert(state_at(request@, log, k).pending() == Some(log[k].transaction));
    if m == 0 {
        assert(state_at(request@, log, k + 1) == state_at(request@, log, k).advance(log[k].reply));
    } else {
        lemma_polling(request, log, k, m - 1);
        states_are_well_formed(request, log, k + m);
        assert(log[k + m].reply is Value);
        assert(state_at(request@, log, k + 1 + m) == state_at(request@, log, k + m).advance(
            log[k + m].reply,
        ));
    }
}

/// The erase of a port is given up after the number of status reads that
/// the request allows: if an erase was started and each of the `max_polls`
/// reads that follow returned nonzero, the run ends there, with an
/// `EraseTimeout` for that port and nothing asked of any later port.
pub proof fn erase_times_out_after_max_polls<E>(
    request: RecoveryRequest,
    log: Seq<Exchange<E>>,
    k: int,
)
    requires
        is_run(request@, log),
        0 <= k,
        k + request@.max_polls < log.len(),
        log[k].transaction is Write,
        log[k].transaction.register() == Register::EraseAll,
        log[k].reply == Reply::<E>::Written,
        forall|p: int|
            k < p <= k + request@.max_polls ==> (#[trigger] log[p]).reply is Value
                && log[p].reply->Value_0 != 0,
    ensures
        log.len() == k + request@.max_polls + 1,
        verdict(request@, log) == Some(
            Err::<Seq<PortStatus>, RecoveryError<E>>(
                RecoveryError::EraseTimeout { port: log[k].transaction.port() },
            ),
        ),
{
    let limit = request@.max_polls as int;
    let end = k + limit + 1;
    states_are_well_formed(request, log, k);
    assert(state_at(request@, log, k).pending() == Some(log[k].transaction));
    if limit == 0 {
        assert(state_at(request@, log, k + 1) == state_at(request@, log, k).advance(log[k].reply));
    } else {
        lemma_polling(request, log, k, limit - 1);
        states_are_well_formed(request, log, k + limit);
        assert(log[k + limit].reply is Value);
        assert(state_at(request@, log, end) == state_at(request@, log, k + limit).advance(
            log[k + limit].reply,
        ));
    }
    run_ends_with_its_result(request, log, end);
}

/// The state from which a recovery got to polling with `polls` reads
/// behind it: the same port with one read less, answered nonzero, or, for
/// no reads, the start of the erase, answered as written.
proof fn lemma_polled_before<E>(request: RecoveryRequest, log: Seq<Exchange<E>>, k: int, port: u8)
    requires
        is_run(request@, log),
        0 <= k < log.len(),
        state_at(request@, log, k).stage is PollErase,
        state_at(request@, log, k).port() == port,
    ensures
        k >= 1 + state_at(request@, log, k).stage->PollErase_polls,
        log[k - 1 - state_at(request@, log, k).stage->PollErase_polls] == (Exchange::<E> {
            transaction: Transaction::Write { port, register: Register::EraseAll, value: 1 },
            reply: Reply::Written,
        }),
        forall|p: int|
            k - 1 - state_at(request@, log, k).stage->PollErase_polls < p < k ==> (
            #[trigger] log[p]).transaction == (Transaction::Read {
                port,
                register: Register::EraseAllStatus,
            }) && log[p].reply is Value && log[p].reply->Value_0 != 0,
    decreases k,
{
    let at = state_at(request@, log, k);
    states_are_well_formed(request, log, k);
    states_are_well_formed(request, log, 0);
    assert(at.pending() is Some);
    assert(k >= 1);
    let before = state_at(request@, log, k - 1);
    states_are_well_formed(request, log, k - 1);
    assert(before.pending() == Some(log[k - 1].transaction));
    assert(at == before.advance(log[k - 1].reply));
    if at.stage->PollErase_polls > 0 {
        assert(before.stage is PollErase);
        lemma_polled_before(request, log, k - 1, port);
    } else {
        assert(before.stage is StartErase);
    }
}

/// A timeout is never early: a run whose result is an erase timeout ends
/// with the write that started the erase of that port and after it exactly
/// `max_polls` reads of its erase status, every one of them nonzero.
pub proof fn timeout_means_polls_exhausted<E>(request: RecoveryRequest, log: Seq<Exchange<E>>, port: u8)
    requires
        is_run(request@, log),
        verdict(request@, log) == Some(
            Err::<Seq<PortStatus>, RecoveryError<E>>(RecoveryError::EraseTimeout { port }),
        ),
    ensures
        log.len() >= 1 + request@.max_polls,
        log[log.len() - 1 - request@.max_polls] == (Exchange::<E> {
            transaction: Transaction::Write { port, register: Register::EraseAll, value: 1 },
            reply: Reply::Written,
        }),
        forall|p: int|
            log.len() - 1 - request@.max_polls < p < log.len() ==> (#[trigger] log[p]).transaction
                == (Transaction::Read { port, register: Register::EraseAllStatus })
                && log[p].reply is Value && log[p].reply->Value_0 != 0,
{
    states_are_well_formed(request, log, 0);
    assert(log.len() > 0);
    lemma_failure_is_fresh(request, log);
    let last = state_at(request@, log, log.len() - 1);
    if last.stage is PollErase {
        lemma_polled_before(request, log, log.len() - 1, port);
    }
}

} // verus!
