//! The fixed register map of a control access port and the transactions that
//! can be issued against it.

use vstd::prelude::*;

verus! {

/// A named register of a control access port.
#[derive(Clone, Copy, Debug, PartialEq, Eq, Structural)]
pub enum Register {
    /// Write 1 to assert reset, write 0 to release it.
    Reset,
    /// Write 1 to begin a mass erase.
    EraseAll,
    /// Reads nonzero while an erase is in progress and 0 once it is complete.
    EraseAllStatus,
    /// Status of the general debug-protection disable.
    ApProtectDisable,
    /// Status of the secure debug-protection disable.
    SecureApProtectDisable,
}

impl Register {
    /// Address of the register inside the port's register map.
    pub open spec fn spec_offset(self) -> u8 {
        match self {
            Register::Reset => 0x00,
            Register::EraseAll => 0x04,
            Register::EraseAllStatus => 0x08,
            Register::ApProtectDisable => 0x10,
            Register::SecureApProtectDisable => 0x14,
        }
    }

    /// Whether the register only reports status and must never be written.
    pub open spec fn spec_is_status(self) -> bool {
        self != Register::Reset && self != Register::EraseAll
    }

    /// Address of the register inside the port's register map.
    #[verifier::when_used_as_spec(spec_offset)]
    pub fn offset(self) -> (offset: u8)
        ensures
            offset == self.spec_offset(),
    {
        match self {
            Register::Reset => 0x00,
            Register::EraseAll => 0x04,
            Register::EraseAllStatus => 0x08,
            Register::ApProtectDisable => 0x10,
            Register::SecureApProtectDisable => 0x14,
        }
    }

    /// Whether the register only reports status and must never be written.
    #[verifier::when_used_as_spec(spec_is_status)]
    pub fn is_status(self) -> (status: bool)
        ensures
            status == self.spec_is_status(),
    {
        match self {
            Register::Reset => false,
            Register::EraseAll => false,
            _ => true,
        }
    }
}

/// One raw register access on one port.
#[derive(Clone, Copy, Debug, PartialEq, Eq, Structural)]
pub enum Transaction {
    /// Store `value` into `register` of `port`.
    Write { port: u8, register: Register, value: u32 },
    /// Load the current value of `register` of `port`.
    Read { port: u8, register: Register },
}

impl Transaction {
    /// The port that the transaction addresses.
    pub open spec fn spec_port(self) -> u8 {
        match self {
            Transaction::Write { port, .. } => port,
            Transaction::Read { port, .. } => port,
        }
    }

    /// The register that the transaction addresses.
    pub open spec fn spec_register(self) -> Register {
        match self {
            Transaction::Write { register, .. } => register,
            Transaction::Read { register, .. } => register,
        }
    }

    /// The port that the transaction addresses.
    #[verifier::when_used_as_spec(spec_port)]
    pub fn port(self) -> (port: u8)
        ensures
            port == self.spec_port(),
    {
        match self {
            Transaction::Write { port, .. } => port,
            Transaction::Read { port, .. } => port,
        }
    }

    /// The register that the transaction addresses.
    #[verifier::when_used_as_spec(spec_register)]
    pub fn register(self) -> (register: Register)
        ensures
            register == self.spec_register(),
    {
        match self {
            Transaction::Write { register, .. } => register,
            Transaction::Read { register, .. } => register,
        }
    }
}

} // verus!
