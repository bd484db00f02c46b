use vstd::bytes::spec_u64_from_le_bytes;
use vstd::prelude::*;
use vstd::slice::slice_subrange;
use vstd::utf8::decode_utf8;

use crate::error::LoanContractError;
use crate::wire::is_string_frame;
use crate::wire::string_from_frame;
use crate::wire::u64_from_frame;

verus! {

/// The four operations of the engine, as carried by an instruction.
#[derive(Debug)]
pub enum LoanInstruction {
    /// Registers a collateral item under `name`.
    ///
    /// Accounts: the owner (signer), the item record, the system program.
    AddItem { name: String },
    /// Activates a loan contract backed by `deposit`.
    ///
    /// Accounts: the borrower (signer), the contract record, the lender, the
    /// item record, the custody account, the token program, the system program.
    SignContract { deposit: u64 },
    /// Closes an active contract and returns the deposit to the borrower.
    ///
    /// Accounts: the lender (signer), the contract record, the item record,
    /// the token program, the system program.
    CompleteContract {},
    /// Closes an active contract and forfeits the deposit to the lender.
    ///
    /// Accounts: as for `CompleteContract`.
    TerminateContract {},
}

/// The payload after the tag byte.
pub open spec fn payload(input: Seq<u8>) -> Seq<u8> {
    input.subrange(1, input.len() as int)
}

/// What decoding `input` gives: the tag byte selects the operation, and the
/// payload is a length-prefixed name for tag 0 and an eight-byte
/// little-endian deposit for tag 1.
pub open spec fn decoded_as(input: Seq<u8>, r: Result<LoanInstruction, LoanContractError>) -> bool {
    if input.len() == 0 {
        r == Err::<LoanInstruction, LoanContractError>(LoanContractError::MalformedPayload)
    } else if input[0] == 0 {
        if is_string_frame(payload(input)) {
            r matches Ok(LoanInstruction::AddItem { name }) && name@ == decode_utf8(
                payload(input).subrange(4, payload(input).len() as int),
            )
        } else {
            r == Err::<LoanInstruction, LoanContractError>(LoanContractError::MalformedPayload)
        }
    } else if input[0] == 1 {
        if payload(input).len() == 8 {
            r matches Ok(LoanInstruction::SignContract { deposit }) && deposit
                == spec_u64_from_le_bytes(payload(input))
        } else {
            r == Err::<LoanInstruction, LoanContractError>(LoanContractError::MalformedPayload)
        }
    } else if input[0] == 2 {
        r matches Ok(LoanInstruction::CompleteContract {  })
    } else if input[0] == 3 {
        r matches Ok(LoanInstruction::TerminateContract {  })
    } else {
        r == Err::<LoanInstruction, LoanContractError>(LoanContractError::UnknownOperation)
    }
}

impl LoanInstruction {
    /// Decodes an instruction: a tag byte, then the operation's payload.
    pub fn unpack(input: &[u8]) -> (r: Result<LoanInstruction, LoanContractError>)
        ensures
            decoded_as(input@, r),
    {
        if input.len() == 0 {
            return Err(LoanContractError::MalformedPayload);
        }
        let tag = input[0];
        let rest = slice_subrange(input, 1, input.len());
        if tag == 0 {
            match string_from_frame(rest) {
                Some(name) => Ok(LoanInstruction::AddItem { name }),
                None => Err(LoanContractError::MalformedPayload),
            }
        } else if tag == 1 {
            match u64_from_frame(rest) {
                Some(deposit) => Ok(LoanInstruction::SignContract { deposit }),
                None => Err(LoanContractError::MalformedPayload),
            }
        } else if tag == 2 {
            Ok(LoanInstruction::CompleteContract {  })
        } else if tag == 3 {
            Ok(LoanInstruction::TerminateContract {  })
        } else {
            Err(LoanContractError::UnknownOperation)
        }
    }
}

} // verus!
