use nrf_recover::port::{perform, recover, RegisterPort};
use nrf_recover::protocol::Reply;
use nrf_recover::register::{Register, Transaction};
use nrf_recover::report::{Phase, PortStatus, RecoveryError};
use nrf_recover::request::RecoveryRequest;

/// A simulated target: records every transaction, answers erase-status reads
/// from a per-port script, and can be told to fail the n-th transaction.
struct SimulatedPort {
    log: Vec<Transaction>,
    erase_status: Vec<(u8, Vec<u32>)>,
    protection: Vec<(u8, u32, u32)>,
    fail_at: Option<usize>,
}

impl SimulatedPort {
    fn new() -> Self {
        SimulatedPort { log: Vec::new(), erase_status: Vec::new(), protection: Vec::new(), fail_at: None }
    }

    fn check_fault(&self) -> Result<(), String> {
        if self.fail_at == Some(self.log.len() - 1) {
            Err(format!("fault at transaction {}", self.log.len() - 1))
        } else {
            Ok(())
        }
    }
}

impl RegisterPort for SimulatedPort {
    type Fault = String;

    fn write_register(&mut self, port: u8, register: Register, value: u32) -> Result<(), String> {
        self.log.push(Transaction::Write { port, register, value });
        self.check_fault()?;
        if register.is_status() {
            return Err(format!("write to read-only register at {:#04x}", register.offset()));
        }
        Ok(())
    }

    fn read_register(&mut self, port: u8, register: Register) -> Result<u32, String> {
        self.log.push(Transaction::Read { port, register });
        self.check_fault()?;
        match register {
            Register::EraseAllStatus => {
                for (p, script) in self.erase_status.iter_mut() {
                    if *p == port {
                        if script.len() > 1 {
                            return Ok(script.remove(0));
                        }
                        return Ok(script[0]);
                    }
                }
                Ok(0)
            }
            Register::ApProtectDisable => {
                Ok(self.protection.iter().find(|e| e.0 == port).map(|e| e.1).unwrap_or(0))
            }
            Register::SecureApProtectDisable => {
                Ok(self.protection.iter().find(|e| e.0 == port).map(|e| e.2).unwrap_or(0))
            }
            _ => Ok(0),
        }
    }
}

fn write(port: u8, register: Register, value: u32) -> Transaction {
    Transaction::Write { port, register, value }
}

fn read(port: u8, register: Register) -> Transaction {
    Transaction::Read { port, register }
}

#[test]
fn two_ports_are_recovered_in_phase_order() {
    let mut io = SimulatedPort::new();
    io.erase_status = vec![(2, vec![1, 1, 0]), (3, vec![0])];
    io.protection = vec![(2, 0, 0), (3, 0x11, 0x22)];
    let result = recover(RecoveryRequest::new(vec![2, 3], false, 100), &mut io);
    assert_eq!(
        io.log,
        vec![
            write(2, Register::Reset, 1),
            write(2, Register::Reset, 0),
            write(3, Register::Reset, 1),
            write(3, Register::Reset, 0),
            write(2, Register::EraseAll, 1),
            read(2, Register::EraseAllStatus),
            read(2, Register::EraseAllStatus),
            read(2, Register::EraseAllStatus),
            write(3, Register::EraseAll, 1),
            read(3, Register::EraseAllStatus),
            read(2, Register::ApProtectDisable),
            read(2, Register::SecureApProtectDisable),
            read(3, Register::ApProtectDisable),
            read(3, Register::SecureApProtectDisable),
        ]
    );
    assert_eq!(
        result,
        Ok(vec![
            PortStatus { port: 2, approtect: 0, secure_approtect: 0 },
            PortStatus { port: 3, approtect: 0x11, secure_approtect: 0x22 },
        ])
    );
}

#[test]
fn failed_reset_write_stops_everything() {
    let mut io = SimulatedPort::new();
    io.fail_at = Some(0);
    let result = recover(RecoveryRequest::new(vec![2], false, 100), &mut io);
    assert_eq!(
        result,
        Err(RecoveryError::Transport {
            phase: Phase::Resetting,
            port: 2,
            cause: "fault at transaction 0".to_string(),
        })
    );
    assert_eq!(io.log, vec![write(2, Register::Reset, 1)]);
}

#[test]
fn erase_that_never_completes_times_out() {
    let mut io = SimulatedPort::new();
    io.erase_status = vec![(2, vec![1])];
    let result = recover(RecoveryRequest::new(vec![2, 3], false, 4), &mut io);
    assert_eq!(result, Err(RecoveryError::EraseTimeout { port: 2 }));
    assert_eq!(
        io.log,
        vec![
            write(2, Register::Reset, 1),
            write(2, Register::Reset, 0),
            write(3, Register::Reset, 1),
            write(3, Register::Reset, 0),
            write(2, Register::EraseAll, 1),
            read(2, Register::EraseAllStatus),
            read(2, Register::EraseAllStatus),
            read(2, Register::EraseAllStatus),
            read(2, Register::EraseAllStatus),
        ]
    );
}

fn is_reset_write(t: &Transaction) -> bool {
    matches!(t, Transaction::Write { register: Register::Reset, .. })
}

fn is_erase_write(t: &Transaction) -> bool {
    matches!(t, Transaction::Write { register: Register::EraseAll, .. })
}

fn is_verification_read(t: &Transaction) -> bool {
    matches!(
        t,
        Transaction::Read { register: Register::ApProtectDisable, .. }
            | Transaction::Read { register: Register::SecureApProtectDisable, .. }
    )
}

#[test]
fn empty_request_issues_nothing_and_succeeds() {
    let mut io = SimulatedPort::new();
    let result = recover(RecoveryRequest::new(vec![], false, 10), &mut io);
    assert_eq!(result, Ok(vec![]));
    assert!(io.log.is_empty());
}

#[test]
fn empty_request_with_second_reset_issues_nothing() {
    let mut io = SimulatedPort::new();
    let result = recover(RecoveryRequest::new(vec![], true, 0), &mut io);
    assert_eq!(result, Ok(vec![]));
    assert!(io.log.is_empty());
}

#[test]
fn duplicate_port_is_refused_before_any_transaction() {
    let mut io = SimulatedPort::new();
    let result = recover(RecoveryRequest::new(vec![2, 3, 2], false, 10), &mut io);
    assert_eq!(result, Err(RecoveryError::PreconditionViolation));
    assert!(io.log.is_empty());
}

#[test]
fn all_resets_come_before_any_erase() {
    let mut io = SimulatedPort::new();
    io.erase_status = vec![(7, vec![5, 0]), (1, vec![0]), (9, vec![3, 3, 3, 0])];
    let result = recover(RecoveryRequest::new(vec![7, 1, 9], false, 10), &mut io);
    assert!(result.is_ok());
    let last_reset = io.log.iter().rposition(is_reset_write).unwrap();
    let first_erase = io.log.iter().position(is_erase_write).unwrap();
    assert_eq!(last_reset, 5);
    assert_eq!(first_erase, 6);
    assert_eq!(io.log.iter().filter(|t| is_reset_write(t)).count(), 6);
    assert_eq!(io.log.iter().filter(|t| is_erase_write(t)).count(), 3);
}

#[test]
fn erase_status_ends_in_zero_before_port_is_verified() {
    let mut io = SimulatedPort::new();
    io.erase_status = vec![(2, vec![1, 1, 0]), (3, vec![9, 0])];
    let result = recover(RecoveryRequest::new(vec![2, 3], false, 10), &mut io);
    assert!(result.is_ok());
    for port in [2u8, 3u8] {
        let last_poll = io
            .log
            .iter()
            .rposition(|t| *t == read(port, Register::EraseAllStatus))
            .unwrap();
        let first_check = io
            .log
            .iter()
            .position(|t| is_verification_read(t) && t.port() == port)
            .unwrap();
        assert!(last_poll < first_check);
    }
    // port 2 was polled three times, port 3 twice
    assert_eq!(io.log.iter().filter(|t| **t == read(2, Register::EraseAllStatus)).count(), 3);
    assert_eq!(io.log.iter().filter(|t| **t == read(3, Register::EraseAllStatus)).count(), 2);
}

#[test]
fn a_fault_at_any_transaction_is_the_last_transaction() {
    // A full run for these ports and scripts has 14 transactions.
    let phases = [
        Phase::Resetting,
        Phase::Resetting,
        Phase::Resetting,
        Phase::Resetting,
        Phase::Erasing,
        Phase::Erasing,
        Phase::Erasing,
        Phase::Erasing,
        Phase::Erasing,
        Phase::Erasing,
        Phase::Verifying,
        Phase::Verifying,
        Phase::Verifying,
        Phase::Verifying,
    ];
    let ports = [2u8, 2, 3, 3, 2, 2, 2, 2, 3, 3, 2, 2, 3, 3];
    for k in 0..14usize {
        let mut io = SimulatedPort::new();
        io.erase_status = vec![(2, vec![1, 1, 0]), (3, vec![0])];
        io.fail_at = Some(k);
        let result = recover(RecoveryRequest::new(vec![2, 3], false, 100), &mut io);
        assert_eq!(io.log.len(), k + 1);
        assert_eq!(
            result,
            Err(RecoveryError::Transport {
                phase: phases[k],
                port: ports[k],
                cause: format!("fault at transaction {}", k),
            })
        );
    }
}

#[test]
fn verification_reads_each_port_twice_whatever_it_returns() {
    let mut io = SimulatedPort::new();
    io.protection = vec![(2, 0xFFFF_FFFF, 1), (3, 0, 0xDEAD_BEEF)];
    let result = recover(RecoveryRequest::new(vec![2, 3], false, 10), &mut io);
    assert_eq!(
        result,
        Ok(vec![
            PortStatus { port: 2, approtect: 0xFFFF_FFFF, secure_approtect: 1 },
            PortStatus { port: 3, approtect: 0, secure_approtect: 0xDEAD_BEEF },
        ])
    );
    let n = io.log.len();
    assert_eq!(
        io.log[n - 4..].to_vec(),
        vec![
            read(2, Register::ApProtectDisable),
            read(2, Register::SecureApProtectDisable),
            read(3, Register::ApProtectDisable),
            read(3, Register::SecureApProtectDisable),
        ]
    );
    assert_eq!(io.log.iter().filter(|t| is_verification_read(t)).count(), 4);
    assert!(io.log[..n - 4].iter().all(|t| !is_verification_read(t)));
}

#[test]
fn second_reset_sits_between_erase_and_verification() {
    let mut io = SimulatedPort::new();
    let result = recover(RecoveryRequest::new(vec![2, 3], true, 10), &mut io);
    assert!(result.is_ok());
    assert_eq!(
        io.log,
        vec![
            write(2, Register::Reset, 1),
            write(2, Register::Reset, 0),
            write(3, Register::Reset, 1),
            write(3, Register::Reset, 0),
            write(2, Register::EraseAll, 1),
            read(2, Register::EraseAllStatus),
            write(3, Register::EraseAll, 1),
            read(3, Register::EraseAllStatus),
            write(2, Register::Reset, 1),
            write(2, Register::Reset, 0),
            write(3, Register::Reset, 1),
            write(3, Register::Reset, 0),
            read(2, Register::ApProtectDisable),
            read(2, Register::SecureApProtectDisable),
            read(3, Register::ApProtectDisable),
            read(3, Register::SecureApProtectDisable),
        ]
    );
}

#[test]
fn fault_in_second_reset_names_that_phase() {
    let mut io = SimulatedPort::new();
    io.fail_at = Some(9);
    let result = recover(RecoveryRequest::new(vec![2, 3], true, 10), &mut io);
    assert_eq!(
        result,
        Err(RecoveryError::Transport {
            phase: Phase::ResettingAgain,
            port: 2,
            cause: "fault at transaction 9".to_string(),
        })
    );
    assert_eq!(io.log.len(), 10);
}

#[test]
fn erase_completing_on_the_last_allowed_poll_succeeds() {
    let mut io = SimulatedPort::new();
    io.erase_status = vec![(2, vec![1, 1, 0])];
    let result = recover(RecoveryRequest::new(vec![2], false, 3), &mut io);
    assert_eq!(result, Ok(vec![PortStatus { port: 2, approtect: 0, secure_approtect: 0 }]));
    assert_eq!(io.log.iter().filter(|t| **t == read(2, Register::EraseAllStatus)).count(), 3);
}

#[test]
fn erase_one_poll_short_times_out() {
    let mut io = SimulatedPort::new();
    io.erase_status = vec![(2, vec![1, 1, 0])];
    let result = recover(RecoveryRequest::new(vec![2], false, 2), &mut io);
    assert_eq!(result, Err(RecoveryError::EraseTimeout { port: 2 }));
    assert_eq!(io.log.len(), 5);
    assert_eq!(io.log.iter().filter(|t| **t == read(2, Register::EraseAllStatus)).count(), 2);
}

#[test]
fn zero_polls_allowed_times_out_right_after_erase_is_started() {
    let mut io = SimulatedPort::new();
    let result = recover(RecoveryRequest::new(vec![2, 3], false, 0), &mut io);
    assert_eq!(result, Err(RecoveryError::EraseTimeout { port: 2 }));
    assert_eq!(
        io.log,
        vec![
            write(2, Register::Reset, 1),
            write(2, Register::Reset, 0),
            write(3, Register::Reset, 1),
            write(3, Register::Reset, 0),
            write(2, Register::EraseAll, 1),
        ]
    );
}

#[test]
fn timeout_on_second_port_leaves_first_erased_and_nothing_verified() {
    let mut io = SimulatedPort::new();
    io.erase_status = vec![(2, vec![0]), (3, vec![1])];
    let result = recover(RecoveryRequest::new(vec![2, 3], false, 3), &mut io);
    assert_eq!(result, Err(RecoveryError::EraseTimeout { port: 3 }));
    assert_eq!(io.log.len(), 4 + 2 + 1 + 3);
    assert!(io.log.iter().all(|t| !is_verification_read(t)));
}

#[test]
fn recovery_never_writes_a_status_register() {
    let mut io = SimulatedPort::new();
    io.erase_status = vec![(4, vec![1, 0])];
    let result = recover(RecoveryRequest::new(vec![4, 5, 6], true, 5), &mut io);
    assert!(result.is_ok());
    for t in io.log.iter() {
        match t {
            Transaction::Write { register, value, .. } => {
                assert!(!register.is_status());
                assert!(*value <= 1);
            }
            Transaction::Read { register, .. } => assert!(register.is_status()),
        }
    }
}

#[test]
fn perform_turns_results_into_replies() {
    let mut io = SimulatedPort::new();
    io.protection = vec![(2, 7, 9)];
    assert_eq!(perform(&mut io, write(2, Register::Reset, 1)), Reply::Written);
    assert_eq!(perform(&mut io, read(2, Register::ApProtectDisable)), Reply::Value(7));
    assert_eq!(perform(&mut io, read(2, Register::SecureApProtectDisable)), Reply::Value(9));
    io.fail_at = Some(3);
    assert_eq!(
        perform(&mut io, read(2, Register::EraseAllStatus)),
        Reply::Fault("fault at transaction 3".to_string())
    );
    assert_eq!(io.log.len(), 4);
}

#[test]
fn longest_successful_run_uses_every_allowed_poll() {
    // two resets, one erase write, three status reads and two checks per port
    let mut io = SimulatedPort::new();
    io.erase_status = vec![(2, vec![1, 1, 0]), (3, vec![1, 1, 0])];
    let result = recover(RecoveryRequest::new(vec![2, 3], false, 3), &mut io);
    assert!(result.is_ok());
    assert_eq!(io.log.len(), 2 * (3 + 5));

    let mut io = SimulatedPort::new();
    io.erase_status = vec![(2, vec![1, 1, 0]), (3, vec![1, 1, 0])];
    let result = recover(RecoveryRequest::new(vec![2, 3], true, 3), &mut io);
    assert!(result.is_ok());
    assert_eq!(io.log.len(), 2 * (3 + 7));
}
