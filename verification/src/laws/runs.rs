//! What holds of every state and every step of a run: states stay
//! well-formed, a recovery never goes back, and no run goes on for ever.

use vstd::prelude::*;
use crate::protocol::{is_run, state_at, Exchange, Model, Reply, Stage};
use crate::register::{Register, Transaction};
use crate::request::{RecoveryRequest, RequestView};

verus! {

/// A reply takes a well-formed state to a well-formed state, and never
/// backwards: the stage stays or moves to a later one, and it moves to a
/// later one whenever the recovery was waiting and has not failed.
pub proof fn advance_never_goes_back<E>(m: Model<E>, reply: Reply<E>)
    requires
        m.wf(),
    ensures
        m.advance(reply).wf(),
        m.advance(reply).request == m.request,
        m.advance(reply).stage == m.stage || m.stage.precedes(m.advance(reply).stage),
        m.pending() is Some && m.advance(reply).failure is None ==> m.stage.precedes(
            m.advance(reply).stage,
        ),
        m.failure is Some ==> m.advance(reply) == m,
{
}

/// Every state of a run is well-formed and belongs to the request.
pub proof fn states_are_well_formed<E>(request: RecoveryRequest, log: Seq<Exchange<E>>, k: int)
    requires
        0 <= k,
    ensures
        state_at(request@, log, k).wf(),
        state_at(request@, log, k).request == request@,
        state_at(request@, log, k).stage != Stage::Idle || state_at(request@, log, k).failure
            is Some,
    decreases k,
{
    assert(request@.ports.len() == request.ports.len());
    if k > 0 {
        states_are_well_formed(request, log, k - 1);
        advance_never_goes_back(state_at(request@, log, k - 1), log[k - 1].reply);
    }
}

/// A failure stays: once a state of a run has failed, every later state is
/// that same state.
pub proof fn failure_stays<E>(request: RecoveryRequest, log: Seq<Exchange<E>>, i: int, j: int)
    requires
        0 <= i <= j,
        state_at(request@, log, i).failure is Some,
    ensures
        state_at(request@, log, j) == state_at(request@, log, i),
    decreases j - i,
{
    if i < j {
        failure_stays(request, log, i, j - 1);
    }
}

/// The stages at which the transactions of a run were issued come strictly
/// one after the other.
pub proof fn stages_ascend<E>(request: RecoveryRequest, log: Seq<Exchange<E>>, i: int, j: int)
    requires
        is_run(request@, log),
        0 <= i < j < log.len(),
    ensures
        state_at(request@, log, i).stage.precedes(state_at(request@, log, j).stage),
    decreases j - i,
{
    let before = state_at(request@, log, j - 1);
    states_are_well_formed(request, log, j - 1);
    advance_never_goes_back(before, log[j - 1].reply);
    assert(before.pending() is Some);
    assert(state_at(request@, log, j).pending() is Some);
    if i < j - 1 {
        stages_ascend(request, log, i, j - 1);
    }
}

/// Nothing is asked of the port once a recovery has ended: a run is no
/// longer than the first state that has a result.
pub proof fn run_ends_with_its_result<E>(request: RecoveryRequest, log: Seq<Exchange<E>>, k: int)
    requires
        is_run(request@, log),
        0 <= k <= log.len(),
        state_at(request@, log, k).result() is Some,
    ensures
        k == log.len(),
{
}

/// Phases are passed in order and none is entered twice, and within a phase
/// the ports are taken in request order: along a run neither the phase nor,
/// within a phase, the position of the port ever goes back.
pub proof fn phases_never_go_back<E>(request: RecoveryRequest, log: Seq<Exchange<E>>, i: int, j: int)
    requires
        is_run(request@, log),
        0 <= i <= j <= log.len(),
    ensures
        ({
            let (earlier, later) = (
                state_at(request@, log, i).stage,
                state_at(request@, log, j).stage,
            );
            ||| earlier.phase().ordinal() < later.phase().ordinal()
            ||| earlier.phase() == later.phase() && earlier.index() <= later.index()
        }),
    decreases j - i,
{
    if i < j {
        phases_never_go_back(request, log, i, j - 1);
        states_are_well_formed(request, log, j - 1);
        advance_never_goes_back(state_at(request@, log, j - 1), log[j - 1].reply);
    }
}

/// Only `Reset` and `EraseAll` are ever written, `Reset` with 1 or 0 and
/// `EraseAll` with 1; a status register is only ever read.
pub proof fn status_registers_are_never_written<E>(
    request: RecoveryRequest,
    log: Seq<Exchange<E>>,
    k: int,
)
    requires
        is_run(request@, log),
        0 <= k < log.len(),
    ensures
        match log[k].transaction {
            Transaction::Write { register, value, .. } => !register.is_status() && value <= 1 && (
            register == Register::EraseAll ==> value == 1),
            Transaction::Read { register, .. } => register.is_status(),
        },
{
    assert(state_at(request@, log, k).pending() == Some(log[k].transaction));
}

/// The most transactions that a recovery of `request` at `stage` can still
/// issue: what is left of the current port, then two for every reset, one
/// write and `max_polls` reads for every erase, and two for every
/// verification that is still to come.
pub open spec fn transactions_left(request: RequestView, stage: Stage) -> int {
    let n = request.ports.len() as int;
    let ports_left = n - stage.index();
    let erase = request.max_polls + 1;
    let verifying = 2 * n;
    let resetting_again = if request.reset_after_erase {
        2 * n
    } else {
        0
    };
    match stage {
        Stage::Idle => 2 * n + erase * n + resetting_again + verifying,
        Stage::AssertReset { again, .. } | Stage::ReleaseReset { again, .. } => 2 * ports_left
            - stage.step() + if again {
            verifying
        } else {
            erase * n + resetting_again + verifying
        },
        Stage::StartErase { .. } | Stage::PollErase { .. } => erase * ports_left - stage.step()
            + resetting_again + verifying,
        Stage::ReadApProtect { .. } | Stage::ReadSecureApProtect { .. } => 2 * ports_left
            - stage.step(),
        Stage::Done => 0,
    }
}

/// Every transaction that is answered without ending the recovery uses up
/// at least one of the transactions that were left.
proof fn lemma_transactions_left_decrease<E>(m: Model<E>, reply: Reply<E>)
    requires
        m.wf(),
        m.pending() is Some,
        m.advance(reply).failure is None,
    ensures
        0 <= transactions_left(m.request, m.advance(reply).stage) < transactions_left(
            m.request,
            m.stage,
        ),
{
    let n = m.request.ports.len() as int;
    let i = m.stage.index();
    let erase = m.request.max_polls + 1;
    assert(erase * (n - i) == erase * (n - i - 1) + erase) by (nonlinear_arith);
    assert(erase * (n - 0) == erase * n) by (nonlinear_arith);
    assert(erase * (n - i - 1) >= 0) by (nonlinear_arith)
        requires
            erase >= 1,
            n - i - 1 >= 0,
    ;
}

/// The transaction at position `k` of a run still had transactions left.
proof fn lemma_transactions_left<E>(request: RecoveryRequest, log: Seq<Exchange<E>>, k: int)
    requires
        is_run(request@, log),
        0 <= k < log.len(),
    ensures
        k + 1 + transactions_left(request@, state_at(request@, log, k + 1).stage)
            <= transactions_left(request@, Stage::Idle) || state_at(request@, log, k + 1).failure
            is Some,
        k + 1 <= transactions_left(request@, Stage::Idle),
    decreases k,
{
    let n = request@.ports.len() as int;
    let erase = request@.max_polls + 1;
    let before = state_at(request@, log, k);
    let after = state_at(request@, log, k + 1);
    states_are_well_formed(request, log, k);
    assert(before.pending() == Some(log[k].transaction));
    assert(after == before.advance(log[k].reply));
    assert(erase * (n - 0) == erase * n) by (nonlinear_arith);
    assert(erase * n >= 0) by (nonlinear_arith)
        requires
            erase >= 1,
            n >= 0,
    ;
    if k > 0 {
        lemma_transactions_left(request, log, k - 1);
    }
    if after.failure is None {
        lemma_transactions_left_decrease(before, log[k].reply);
    } else {
        assert(erase * (n - before.stage.index()) >= erase) by (nonlinear_arith)
            requires
                erase >= 1,
                n - before.stage.index() >= 1,
        ;
    }
}

/// No run goes on for ever: a recovery asks at most four transactions of
/// every port for reset and verification, two more where reset is repeated,
/// and one write and `max_polls` reads for its erase.
pub proof fn run_is_bounded<E>(request: RecoveryRequest, log: Seq<Exchange<E>>)
    requires
        is_run(request@, log),
    ensures
        log.len() <= request@.ports.len() * (request@.max_polls + if request@.reset_after_erase {
            7int
        } else {
            5int
        }),
{
    let n = request@.ports.len() as int;
    let polls = request@.max_polls as int;
    let fixed = if request@.reset_after_erase {
        7int
    } else {
        5int
    };
    assert(2 * n + (polls + 1) * n + (fixed - 5) * n + 2 * n == n * (polls + fixed))
        by (nonlinear_arith);
    assert((fixed - 5) * n == if request@.reset_after_erase {
        2 * n
    } else {
        0
    }) by (nonlinear_arith)
        requires
            fixed == 5 || fixed == 7,
            request@.reset_after_erase <==> fixed == 7,
    ;
    if log.len() > 0 {
        lemma_transactions_left(request, log, log.len() - 1);
    } else {
        assert(n * (polls + fixed) >= 0) by (nonlinear_arith)
            requires
                n >= 0,
                polls + fixed >= 0,
        ;
    }
}

} // verus!
