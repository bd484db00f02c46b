use vstd::prelude::*;

verus! {

/// Every way an operation of the engine can be refused.
#[derive(Clone, Copy, Debug, PartialEq, Eq, Structural)]
pub enum LoanContractError {
    /// A record that must exist holds no initialized data.
    UninitializedAccount,
    /// The supplied address differs from the one derived from its seeds.
    InvalidDerivedAddress,
    /// A value does not fit its record or seed limits.
    InvalidDataLength,
    /// Bytes do not decode as the expected record or payload.
    MalformedPayload,
    /// A party or a referenced record is not the one stored.
    OwnershipMismatch,
    /// The item is already on loan, or the contract is already live.
    AlreadyActive,
    /// The record to be created already exists.
    AlreadyInitialized,
    /// The contract is not in the `Active` state.
    ContractNotActive,
    /// The record is not owned by this program.
    IncorrectOwningProgram,
    /// A party that must sign did not.
    MissingSignature,
    /// The instruction tag names no operation.
    UnknownOperation,
    /// Fewer accounts were supplied than the operation needs.
    NotEnoughAccountKeys,
}

/// The numeric code under which an error is reported to the host ledger.
pub open spec fn error_code(e: LoanContractError) -> u32 {
    match e {
        LoanContractError::UninitializedAccount => 0,
        LoanContractError::InvalidDerivedAddress => 1,
        LoanContractError::InvalidDataLength => 2,
        LoanContractError::MalformedPayload => 3,
        LoanContractError::OwnershipMismatch => 4,
        LoanContractError::AlreadyActive => 5,
        LoanContractError::AlreadyInitialized => 6,
        LoanContractError::ContractNotActive => 7,
        LoanContractError::IncorrectOwningProgram => 8,
        LoanContractError::MissingSignature => 9,
        LoanContractError::UnknownOperation => 10,
        LoanContractError::NotEnoughAccountKeys => 11,
    }
}

impl LoanContractError {
    /// The custom error code of this error.
    pub fn code(&self) -> (r: u32)
        ensures
            r == error_code(*self),
    {
        match self {
            LoanContractError::UninitializedAccount => 0,
            LoanContractError::InvalidDerivedAddress => 1,
            LoanContractError::InvalidDataLength => 2,
            LoanContractError::MalformedPayload => 3,
            LoanContractError::OwnershipMismatch => 4,
            LoanContractError::AlreadyActive => 5,
            LoanContractError::AlreadyInitialized => 6,
            LoanContractError::ContractNotActive => 7,
            LoanContractError::IncorrectOwningProgram => 8,
            LoanContractError::MissingSignature => 9,
            LoanContractError::UnknownOperation => 10,
            LoanContractError::NotEnoughAccountKeys => 11,
        }
    }
}

/// Distinct errors are reported under distinct codes.
pub proof fn lemma_error_codes_distinct(a: LoanContractError, b: LoanContractError)
    requires
        a != b,
    ensures
        error_code(a) != error_code(b),
{
}

} // verus!
