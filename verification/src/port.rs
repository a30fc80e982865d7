//! Running a recovery against anything that can read and write raw access
//! port registers.

use vstd::prelude::*;
use crate::machine::Recovery;
use crate::protocol::{all_answered, is_run, state_at, verdict, Exchange, Reply, Stage};
use crate::register::{Register, Transaction};
use crate::report::{PortStatus, RecoveryError};
use crate::request::{RecoveryRequest, RequestView};

verus! {

/// The capability a recovery needs: raw access to the registers of the
/// control access ports of an attached target.
///
/// Nothing is assumed about what an implementation returns. Each call is one
/// blocking transaction; it must have completed, one way or the other, when
/// the call comes back.
pub trait RegisterPort {
    /// The transport's own error type.
    type Fault;

    /// Stores `value` into `register` of `port`.
    fn write_register(&mut self, port: u8, register: Register, value: u32) -> Result<
        (),
        Self::Fault,
    >;

    /// Loads the current value of `register` of `port`.
    fn read_register(&mut self, port: u8, register: Register) -> Result<u32, Self::Fault>;
}

/// Performs one transaction on `io` and turns what came back into a reply.
pub fn perform<P: RegisterPort>(io: &mut P, transaction: Transaction) -> (reply: Reply<P::Fault>)
    ensures
        (Exchange { transaction, reply }).answered(),
{
    // What comes back is up to `io`; whatever it is, the reply is of the
    // kind that answers the transaction.
    match transaction {
        Transaction::Write { port, register, value } => Reply::from_write(
            io.write_register(port, register, value),
        ),
        Transaction::Read { port, register } => Reply::from_read(io.read_register(port, register)),
    }
}

/// The state after `k` exchanges depends on the first `k` exchanges only.
proof fn lemma_state_at_prefix<E>(
    request: RequestView,
    a: Seq<Exchange<E>>,
    b: Seq<Exchange<E>>,
    k: int,
)
    requires
        0 <= k <= a.len(),
        k <= b.len(),
        forall|i: int| 0 <= i < k ==> a[i] == b[i],
    ensures
        state_at(request, a, k) == state_at(request, b, k),
    decreases k,
{
    if k > 0 {
        lemma_state_at_prefix(request, a, b, k - 1);
    }
}

/// Recovers the ports of `request` through `io`: resets them all, erases
/// them one after the other, waiting for each erase to complete, resets them
/// once more if the request says so, and reads the protection status of each.
///
/// Returns the status of every port in request order, or the first error.
/// After an error nothing more is asked of `io`.
///
/// What `io` answers is up to `io`; whatever it answers, the transactions
/// asked of it and the result are those of the protocol, in that there is a
/// log of exchanges that is a run of the request, in which every reply
/// answers its transaction, and whose verdict is the result.
pub fn recover<P: RegisterPort>(request: RecoveryRequest, io: &mut P) -> (result: Result<
    Vec<PortStatus>,
    RecoveryError<P::Fault>,
>)
    ensures
        exists|log: Seq<Exchange<P::Fault>>|
            #![trigger is_run(request@, log)]
            is_run(request@, log) && all_answered(log) && verdict(request@, log) == Some(
                match result {
                    Ok(outcome) => Ok::<Seq<PortStatus>, RecoveryError<P::Fault>>(outcome@),
                    Err(error) => Err::<Seq<PortStatus>, RecoveryError<P::Fault>>(error),
                },
            ),
        !request@.ports.no_duplicates() <==> result == Err::<
            Vec<PortStatus>,
            RecoveryError<P::Fault>,
        >(RecoveryError::PreconditionViolation),
        request@.ports.len() == 0 ==> result is Ok,
        result matches Ok(outcome) ==> {
            &&& outcome@.len() == request@.ports.len()
            &&& forall|k: int|
                0 <= k < outcome@.len() ==> (#[trigger] outcome@[k]).port == request@.ports[k]
        },
{
    let ghost plan = request@;
    let ghost mut log: Seq<Exchange<P::Fault>> = Seq::empty();
    let mut recovery = Recovery::new(request).start();
    loop
        invariant
            recovery@.wf(),
            recovery@.request == plan,
            recovery@ == state_at(plan, log, log.len() as int),
            is_run(plan, log),
            all_answered(log),
            recovery@.stage != Stage::Idle || recovery@.failure is Some,
            recovery@.failure == Some(RecoveryError::<P::Fault>::PreconditionViolation)
                <==> !plan.ports.no_duplicates(),
            plan.ports.len() == 0 ==> recovery@.stage == Stage::Done,
        ensures
            recovery@.pending() is None,
        decreases
            (if recovery@.pending() is Some { 1int } else { 0int }),
            5 - recovery@.stage.phase().ordinal(),
            plan.ports.len() - recovery@.stage.index(),
            plan.max_polls + 1 - recovery@.stage.step(),
    {
        let transaction = match recovery.next_transaction() {
            None => {
                break ;
            },
            Some(transaction) => transaction,
        };
        let reply = perform(io, transaction);
        proof {
            let longer = log.push(Exchange { transaction, reply });
            assert forall|k: int| 0 <= k <= log.len() implies #[trigger] state_at(plan, longer, k)
                == state_at(plan, log, k) by {
                lemma_state_at_prefix(plan, longer, log, k);
            }
            assert(longer[log.len() as int].reply == reply);
            assert(state_at(plan, longer, longer.len() as int) == state_at(
                plan,
                longer,
                log.len() as int,
            ).advance(reply));
            log = longer;
        }
        recovery = recovery.handle(reply);
    }
    match recovery.finish() {
        Some(Ok(outcome)) => Ok(outcome),
        Some(Err(error)) => Err(error),
        None => vstd::pervasive::unreached(),
    }
}

} // verus!
