use vstd::prelude::*;
use vstd::utf8::decode_utf8;
use vstd::utf8::encode_utf8;

use crate::address::contract_address;
use crate::address::contract_seeds;
use crate::address::derive_contract_address;
use crate::address::derive_item_address;
use crate::address::contract_seed_list;
use crate::address::item_seed_list;
use crate::address::item_address;
use crate::address::item_seeds;
use crate::error::LoanContractError;
use crate::instruction::decoded_as;
use crate::instruction::payload;
use crate::instruction::LoanInstruction;
use crate::state::contract_image;
use crate::state::item_image;
use crate::state::item_space;
use crate::state::lemma_contract_round_trip;
use crate::state::lemma_item_round_trip;
use crate::state::lemma_parse_contract_fits;
use crate::state::lemma_parse_item_fits;
use crate::state::parse_contract;
use crate::state::parse_item;
use crate::state::with_holder;
use crate::state::ContractItemState;
use crate::state::ContractModel;
use crate::state::ContractStatus;
use crate::state::ItemModel;
use crate::state::Key;
use crate::state::LoanContractState;
use crate::state::CONTRACT_LEN;
use crate::wire::is_string_frame;

verus! {

/// The longest seed the ledger accepts in an address derivation.
pub const MAX_SEED_LEN: usize = 32;

/// What the engine sees of a ledger account: its address, the program that
/// owns it, whether it signed, and its bytes.
pub struct AccountView {
    pub key: Key,
    pub owner: Key,
    pub is_signer: bool,
    pub data: Vec<u8>,
}

/// A record slot the ledger must create, funded by `payer`, before it is
/// written; the program authorizes it with `seeds` followed by `nonce`.
pub struct Allocation {
    pub payer: Key,
    pub address: Key,
    pub seeds: Vec<Vec<u8>>,
    pub nonce: u8,
    pub size: usize,
}

/// The effect of registering an item: a new slot and its bytes.
pub struct Registration {
    pub allocation: Allocation,
    pub item_data: Vec<u8>,
}

/// The effect of activating a contract: the contract slot to create if it
/// does not exist yet, and the new bytes of the contract and item slots.
pub struct Activation {
    pub allocation: Option<Allocation>,
    pub contract_data: Vec<u8>,
    pub item_data: Vec<u8>,
}

/// A transfer of the deposit out of custody.
pub struct Settlement {
    pub custody: Key,
    pub recipient: Key,
    pub amount: u64,
}

/// The effect of closing a contract: the new bytes of the contract and item
/// slots, and where the deposit goes.
pub struct Closure {
    pub contract_data: Vec<u8>,
    pub item_data: Vec<u8>,
    pub settlement: Settlement,
}

/// The effect of one instruction.
pub enum Outcome {
    Registered(Registration),
    Activated(Activation),
    Completed(Closure),
    Terminated(Closure),
}

pub open spec fn zeros(n: nat) -> Seq<u8> {
    Seq::new(n, |i: int| 0u8)
}

/// `old` with its first bytes replaced by `image`.
pub open spec fn overwrite(old: Seq<u8>, image: Seq<u8>) -> Seq<u8> {
    image + old.subrange(image.len() as int, old.len() as int)
}

/// The derivation succeeded and gave `address`.
pub open spec fn derives_to(d: Option<(Seq<u8>, u8)>, address: Seq<u8>) -> bool {
    d matches Some((a, _)) && a == address
}

/// `a` asks for a slot of `size` bytes at `address`, paid by `payer`, whose
/// derivation from `seeds` gave `derived`.
pub open spec fn allocated(
    a: Allocation,
    payer: Seq<u8>,
    address: Seq<u8>,
    seeds: Seq<Seq<u8>>,
    derived: Option<(Seq<u8>, u8)>,
    size: nat,
) -> bool {
    &&& a.payer@ == payer
    &&& a.address@ == address
    &&& a.seeds.deep_view() == seeds
    &&& derived == Some((address, a.nonce))
    &&& a.size == size
}

// ---- registering an item ----

/// Why registering `name` with these accounts fails, if it does.
pub open spec fn add_item_error(program_id: Key, accounts: Seq<AccountView>, name: Seq<char>) -> Option<
    LoanContractError,
> {
    if accounts.len() < 3 {
        Some(LoanContractError::NotEnoughAccountKeys)
    } else {
        let owner = accounts[0];
        let item = accounts[1];
        if !owner.is_signer {
            Some(LoanContractError::MissingSignature)
        } else if encode_utf8(name).len() > MAX_SEED_LEN {
            Some(LoanContractError::InvalidDataLength)
        } else if !derives_to(item_address(program_id@, owner.key@, name), item.key@) {
            Some(LoanContractError::InvalidDerivedAddress)
        } else if item.data@.len() != 0 {
            Some(LoanContractError::AlreadyInitialized)
        } else {
            None
        }
    }
}

/// A freshly registered item.
pub open spec fn registered_item(owner: Seq<u8>, name: Seq<char>) -> ItemModel {
    ItemModel { initialized: true, name, owner, held_by: None }
}

/// `r` is what registering `name` with these accounts gives.
pub open spec fn add_item_result(
    program_id: Key,
    accounts: Seq<AccountView>,
    name: Seq<char>,
    r: Result<Registration, LoanContractError>,
) -> bool {
    match add_item_error(program_id, accounts, name) {
        Some(e) => r == Err::<Registration, LoanContractError>(e),
        None => r matches Ok(reg) && {
            let owner = accounts[0].key@;
            &&& allocated(
                reg.allocation,
                owner,
                accounts[1].key@,
                item_seeds(owner, name),
                item_address(program_id@, owner, name),
                item_space(name),
            )
            &&& reg.item_data@ == overwrite(
                zeros(item_space(name)),
                item_image(registered_item(owner, name)),
            )
        },
    }
}

/// A vector of `n` zero bytes.
fn zero_bytes(n: usize) -> (r: Vec<u8>)
    ensures
        r@ == zeros(n as nat),
{
    let mut v: Vec<u8> = Vec::new();
    let mut i: usize = 0;
    while i < n
        invariant
            i <= n,
            v@ == zeros(i as nat),
        decreases n - i,
    {
        v.push(0u8);
        assert(v@ =~= zeros((i + 1) as nat));
        i = i + 1;
    }
    v
}

/// `image` followed by the bytes of `old` past its length.
fn overwritten(old: &[u8], image: Vec<u8>) -> (r: Vec<u8>)
    requires
        image@.len() <= old@.len(),
    ensures
        r@ == overwrite(old@, image@),
{
    let mut out = image;
    let mut i: usize = out.len();
    while i < old.len()
        invariant
            image@.len() <= i <= old@.len(),
            out@ == image@ + old@.subrange(image@.len() as int, i as int),
        decreases old@.len() - i,
    {
        out.push(old[i]);
        assert(out@ =~= image@ + old@.subrange(image@.len() as int, i + 1));
        i = i + 1;
    }
    out
}

/// Registers a collateral item: the owner signs, the item slot is the one
/// derived from owner and name, and it does not exist yet. On success the slot
/// is to be created and filled with the new record.
pub fn add_item(program_id: &Key, accounts: &[AccountView], name: String) -> (r: Result<
    Registration,
    LoanContractError,
>)
    ensures
        add_item_result(*program_id, accounts@, name@, r),
{
    if accounts.len() < 3 {
        return Err(LoanContractError::NotEnoughAccountKeys);
    }
    let owner = &accounts[0];
    let item = &accounts[1];
    if !owner.is_signer {
        return Err(LoanContractError::MissingSignature);
    }
    if name.as_str().as_bytes().len() > MAX_SEED_LEN {
        return Err(LoanContractError::InvalidDataLength);
    }
    let nonce = match derive_item_address(program_id, &owner.key, &name) {
        Some((address, nonce)) => {
            if !address.same(&item.key) {
                return Err(LoanContractError::InvalidDerivedAddress);
            }
            nonce
        },
        None => {
            return Err(LoanContractError::InvalidDerivedAddress);
        },
    };
    if item.data.len() != 0 {
        return Err(LoanContractError::AlreadyInitialized);
    }
    let seeds = item_seed_list(&owner.key, &name);
    let size = ContractItemState::get_account_size(name.clone());
    let record = ContractItemState { is_initialized: true, name, owner: owner.key, user: None };
    let image = record.pack();
    let blank = zero_bytes(size);
    let item_data = overwritten(blank.as_slice(), image);
    let allocation = Allocation { payer: owner.key, address: item.key, seeds, nonce, size };
    Ok(Registration { allocation, item_data })
}

// ---- activating a contract ----

/// Why activating a contract with these accounts fails, if it does.
pub open spec fn sign_contract_error(program_id: Key, accounts: Seq<AccountView>) -> Option<
    LoanContractError,
> {
    if accounts.len() < 7 {
        Some(LoanContractError::NotEnoughAccountKeys)
    } else {
        let borrower = accounts[0];
        let contract = accounts[1];
        let lender = accounts[2];
        let item = accounts[3];
        let held = parse_item(item.data@);
        let existing = parse_contract(contract.data@);
        if !borrower.is_signer {
            Some(LoanContractError::MissingSignature)
        } else if !derives_to(
            contract_address(program_id@, borrower.key@, lender.key@, item.key@),
            contract.key@,
        ) {
            Some(LoanContractError::InvalidDerivedAddress)
        } else if item.owner@ != program_id@ {
            Some(LoanContractError::IncorrectOwningProgram)
        } else if item.data@.len() == 0 {
            Some(LoanContractError::UninitializedAccount)
        } else if held is None {
            Some(LoanContractError::MalformedPayload)
        } else if !held->Some_0.initialized {
            Some(LoanContractError::UninitializedAccount)
        } else if held->Some_0.held_by is Some {
            Some(LoanContractError::AlreadyActive)
        } else if contract.data@.len() != 0 && contract.owner@ != program_id@ {
            Some(LoanContractError::IncorrectOwningProgram)
        } else if contract.data@.len() != 0 && existing is None {
            Some(LoanContractError::MalformedPayload)
        } else if contract.data@.len() != 0 && existing->Some_0.status == ContractStatus::Active {
            Some(LoanContractError::AlreadyActive)
        } else if item_image(with_holder(held->Some_0, Some(borrower.key@))).len() > item.data@.len() {
            Some(LoanContractError::InvalidDataLength)
        } else {
            None
        }
    }
}

/// The contract that activation writes.
pub open spec fn activated_contract(accounts: Seq<AccountView>, deposit: u64) -> ContractModel {
    ContractModel {
        lender: accounts[2].key@,
        borrower: accounts[0].key@,
        item: accounts[3].key@,
        escrow_account: accounts[4].key@,
        expected_amount: deposit,
        status: ContractStatus::Active,
    }
}

/// `r` is what activating a contract of `deposit` with these accounts gives.
pub open spec fn sign_contract_result(
    program_id: Key,
    accounts: Seq<AccountView>,
    deposit: u64,
    r: Result<Activation, LoanContractError>,
) -> bool {
    match sign_contract_error(program_id, accounts) {
        Some(e) => r == Err::<Activation, LoanContractError>(e),
        None => r matches Ok(act) && {
            let borrower = accounts[0].key@;
            let contract = accounts[1];
            let fresh = contract.data@.len() == 0;
            &&& fresh ==> (act.allocation is Some && allocated(
                act.allocation->Some_0,
                borrower,
                contract.key@,
                contract_seeds(borrower, accounts[2].key@, accounts[3].key@),
                contract_address(program_id@, borrower, accounts[2].key@, accounts[3].key@),
                CONTRACT_LEN as nat,
            ))
            &&& !fresh ==> act.allocation is None
            &&& act.contract_data@ == overwrite(
                if fresh {
                    zeros(CONTRACT_LEN as nat)
                } else {
                    contract.data@
                },
                contract_image(activated_contract(accounts, deposit)),
            )
            &&& act.item_data@ == overwrite(
                accounts[3].data@,
                item_image(with_holder(parse_item(accounts[3].data@)->Some_0, Some(borrower))),
            )
        },
    }
}

/// Activates a loan contract: the borrower signs, the contract slot is the
/// one derived from borrower, lender and item, the item is registered and not
/// on loan, and no live contract occupies the slot. On success the contract
/// is written as active and the item as held by the borrower.
pub fn sign_contract(program_id: &Key, accounts: &[AccountView], deposit: u64) -> (r: Result<
    Activation,
    LoanContractError,
>)
    ensures
        sign_contract_result(*program_id, accounts@, deposit, r),
{
    if accounts.len() < 7 {
        return Err(LoanContractError::NotEnoughAccountKeys);
    }
    let borrower = &accounts[0];
    let contract = &accounts[1];
    let lender = &accounts[2];
    let item = &accounts[3];
    let escrow = &accounts[4];
    if !borrower.is_signer {
        return Err(LoanContractError::MissingSignature);
    }
    let nonce = match derive_contract_address(program_id, &borrower.key, &lender.key, &item.key) {
        Some((address, nonce)) => {
            if !address.same(&contract.key) {
                return Err(LoanContractError::InvalidDerivedAddress);
            }
            nonce
        },
        None => {
            return Err(LoanContractError::InvalidDerivedAddress);
        },
    };
    if !item.owner.same(program_id) {
        return Err(LoanContractError::IncorrectOwningProgram);
    }
    if item.data.len() == 0 {
        return Err(LoanContractError::UninitializedAccount);
    }
    let held = match ContractItemState::unpack(item.data.as_slice()) {
        Ok(s) => s,
        Err(e) => {
            return Err(e);
        },
    };
    proof {
        lemma_parse_item_fits(item.data@);
    }
    if !held.is_initialized {
        return Err(LoanContractError::UninitializedAccount);
    }
    if held.user.is_some() {
        return Err(LoanContractError::AlreadyActive);
    }
    let fresh = contract.data.len() == 0;
    if !fresh {
        if !contract.owner.same(program_id) {
            return Err(LoanContractError::IncorrectOwningProgram);
        }
        let existing = match LoanContractState::unpack(contract.data.as_slice()) {
            Ok(c) => c,
            Err(e) => {
                return Err(e);
            },
        };
        if existing.is_active() {
            return Err(LoanContractError::AlreadyActive);
        }
        proof {
            lemma_parse_contract_fits(contract.data@);
        }
    }
    let updated = ContractItemState {
        is_initialized: held.is_initialized,
        name: held.name,
        owner: held.owner,
        user: Some(borrower.key),
    };
    assert(updated@ == with_holder(parse_item(item.data@)->Some_0, Some(borrower.key@)));
    let item_image_bytes = updated.pack();
    if item_image_bytes.len() > item.data.len() {
        return Err(LoanContractError::InvalidDataLength);
    }
    let record = LoanContractState {
        lender: lender.key,
        borrower: borrower.key,
        item: item.key,
        escrow_account: escrow.key,
        expected_amount: deposit,
        status: ContractStatus::Active,
    };
    assert(record@ == activated_contract(accounts@, deposit));
    let contract_image_bytes = record.pack();
    proof {
        assert(contract_image(record@).len() == CONTRACT_LEN) by {
            vstd::bytes::lemma_auto_spec_u64_to_from_le_bytes();
        }
    }
    let (allocation, contract_data) = if fresh {
        let seeds = contract_seed_list(&borrower.key, &lender.key, &item.key);
        let size = LoanContractState::get_account_size();
        let blank = zero_bytes(size);
        (
            Some(Allocation { payer: borrower.key, address: contract.key, seeds, nonce, size }),
            overwritten(blank.as_slice(), contract_image_bytes),
        )
    } else {
        (None, overwritten(contract.data.as_slice(), contract_image_bytes))
    };
    let item_data = overwritten(item.data.as_slice(), item_image_bytes);
    Ok(Activation { allocation, contract_data, item_data })
}

// ---- closing a contract ----

/// Why closing a contract with these accounts fails, if it does; the same
/// for completion and termination.
pub open spec fn close_error(program_id: Key, accounts: Seq<AccountView>) -> Option<LoanContractError> {
    if accounts.len() < 5 {
        Some(LoanContractError::NotEnoughAccountKeys)
    } else {
        let lender = accounts[0];
        let contract = accounts[1];
        let item = accounts[2];
        let stored = parse_contract(contract.data@);
        if !lender.is_signer {
            Some(LoanContractError::MissingSignature)
        } else if contract.owner@ != program_id@ {
            Some(LoanContractError::IncorrectOwningProgram)
        } else if contract.data@.len() == 0 {
            Some(LoanContractError::UninitializedAccount)
        } else if stored is None {
            Some(LoanContractError::MalformedPayload)
        } else {
            let m = stored->Some_0;
            if m.status == ContractStatus::Uninitialized {
                Some(LoanContractError::UninitializedAccount)
            } else if m.status == ContractStatus::Closed {
                Some(LoanContractError::ContractNotActive)
            } else if m.lender != lender.key@ {
                Some(LoanContractError::OwnershipMismatch)
            } else if !derives_to(
                contract_address(program_id@, m.borrower, m.lender, m.item),
                contract.key@,
            ) {
                Some(LoanContractError::InvalidDerivedAddress)
            } else if item.key@ != m.item {
                Some(LoanContractError::OwnershipMismatch)
            } else if item.owner@ != program_id@ {
                Some(LoanContractError::IncorrectOwningProgram)
            } else if parse_item(item.data@) is None {
                Some(LoanContractError::MalformedPayload)
            } else {
                None
            }
        }
    }
}

/// The contract as closing writes it.
pub open spec fn closed_contract(m: ContractModel) -> ContractModel {
    ContractModel { status: ContractStatus::Closed, ..m }
}

/// `r` is what closing a contract with these accounts gives; with `forfeit`
/// the deposit goes to the lender, else back to the borrower.
pub open spec fn close_result(
    program_id: Key,
    accounts: Seq<AccountView>,
    forfeit: bool,
    r: Result<Closure, LoanContractError>,
) -> bool {
    match close_error(program_id, accounts) {
        Some(e) => r == Err::<Closure, LoanContractError>(e),
        None => r matches Ok(c) && {
            let m = parse_contract(accounts[1].data@)->Some_0;
            &&& c.contract_data@ == overwrite(accounts[1].data@, contract_image(closed_contract(m)))
            &&& c.item_data@ == overwrite(
                accounts[2].data@,
                item_image(with_holder(parse_item(accounts[2].data@)->Some_0, None)),
            )
            &&& c.settlement.custody@ == m.escrow_account
            &&& c.settlement.recipient@ == (if forfeit {
                m.lender
            } else {
                m.borrower
            })
            &&& c.settlement.amount == m.expected_amount
        },
    }
}

/// The checks and writes shared by completion and termination.
fn close_contract(program_id: &Key, accounts: &[AccountView], forfeit: bool) -> (r: Result<
    Closure,
    LoanContractError,
>)
    ensures
        close_result(*program_id, accounts@, forfeit, r),
{
    if accounts.len() < 5 {
        return Err(LoanContractError::NotEnoughAccountKeys);
    }
    let lender = &accounts[0];
    let contract = &accounts[1];
    let item = &accounts[2];
    if !lender.is_signer {
        return Err(LoanContractError::MissingSignature);
    }
    if !contract.owner.same(program_id) {
        return Err(LoanContractError::IncorrectOwningProgram);
    }
    if contract.data.len() == 0 {
        return Err(LoanContractError::UninitializedAccount);
    }
    let stored = match LoanContractState::unpack(contract.data.as_slice()) {
        Ok(c) => c,
        Err(e) => {
            return Err(e);
        },
    };
    proof {
        lemma_parse_contract_fits(contract.data@);
    }
    match stored.status {
        ContractStatus::Uninitialized => {
            return Err(LoanContractError::UninitializedAccount);
        },
        ContractStatus::Closed => {
            return Err(LoanContractError::ContractNotActive);
        },
        ContractStatus::Active => {},
    }
    if !stored.lender.same(&lender.key) {
        return Err(LoanContractError::OwnershipMismatch);
    }
    match derive_contract_address(program_id, &stored.borrower, &stored.lender, &stored.item) {
        Some((address, _)) => {
            if !address.same(&contract.key) {
                return Err(LoanContractError::InvalidDerivedAddress);
            }
        },
        None => {
            return Err(LoanContractError::InvalidDerivedAddress);
        },
    }
    if !item.key.same(&stored.item) {
        return Err(LoanContractError::OwnershipMismatch);
    }
    if !item.owner.same(program_id) {
        return Err(LoanContractError::IncorrectOwningProgram);
    }
    let held = match ContractItemState::unpack(item.data.as_slice()) {
        Ok(s) => s,
        Err(e) => {
            return Err(e);
        },
    };
    proof {
        lemma_parse_item_fits(item.data@);
    }
    let released = ContractItemState {
        is_initialized: held.is_initialized,
        name: held.name,
        owner: held.owner,
        user: None,
    };
    assert(released@ == with_holder(parse_item(item.data@)->Some_0, None));
    let item_data = overwritten(item.data.as_slice(), released.pack());
    let closed = LoanContractState { status: ContractStatus::Closed, ..stored };
    assert(closed@ == closed_contract(stored@));
    let contract_data = overwritten(contract.data.as_slice(), closed.pack());
    let recipient = if forfeit {
        stored.lender
    } else {
        stored.borrower
    };
    let settlement = Settlement {
        custody: stored.escrow_account,
        recipient,
        amount: stored.expected_amount,
    };
    Ok(Closure { contract_data, item_data, settlement })
}

/// Completes an active contract: the stored lender signs, the contract is
/// closed, the item released, and the deposit returned to the borrower.
pub fn complete_contract(program_id: &Key, accounts: &[AccountView]) -> (r: Result<
    Closure,
    LoanContractError,
>)
    ensures
        close_result(*program_id, accounts@, false, r),
{
    close_contract(program_id, accounts, false)
}

/// Terminates an active contract early: the stored lender signs, the
/// contract is closed, the item released, and the deposit forfeited to the
/// lender.
pub fn terminate_contract(program_id: &Key, accounts: &[AccountView]) -> (r: Result<
    Closure,
    LoanContractError,
>)
    ensures
        close_result(*program_id, accounts@, true, r),
{
    close_contract(program_id, accounts, true)
}

// ---- dispatch ----

/// `r` is what the instruction `input` does with these accounts: it is
/// decoded, and the operation it names is run.
pub open spec fn process_result(
    program_id: Key,
    accounts: Seq<AccountView>,
    input: Seq<u8>,
    r: Result<Outcome, LoanContractError>,
) -> bool {
    if input.len() == 0 {
        r == Err::<Outcome, LoanContractError>(LoanContractError::MalformedPayload)
    } else if input[0] == 0 {
        if is_string_frame(payload(input)) {
            let name = decode_utf8(payload(input).subrange(4, payload(input).len() as int));
            match r {
                Ok(Outcome::Registered(x)) => add_item_result(program_id, accounts, name, Ok(x)),
                Err(e) => add_item_result(program_id, accounts, name, Err(e)),
                _ => false,
            }
        } else {
            r == Err::<Outcome, LoanContractError>(LoanContractError::MalformedPayload)
        }
    } else if input[0] == 1 {
        if payload(input).len() == 8 {
            let deposit = vstd::bytes::spec_u64_from_le_bytes(payload(input));
            match r {
                Ok(Outcome::Activated(x)) => sign_contract_result(program_id, accounts, deposit, Ok(x)),
                Err(e) => sign_contract_result(program_id, accounts, deposit, Err(e)),
                _ => false,
            }
        } else {
            r == Err::<Outcome, LoanContractError>(LoanContractError::MalformedPayload)
        }
    } else if input[0] == 2 {
        match r {
            Ok(Outcome::Completed(x)) => close_result(program_id, accounts, false, Ok(x)),
            Err(e) => close_result(program_id, accounts, false, Err(e)),
            _ => false,
        }
    } else if input[0] == 3 {
        match r {
            Ok(Outcome::Terminated(x)) => close_result(program_id, accounts, true, Ok(x)),
            Err(e) => close_result(program_id, accounts, true, Err(e)),
            _ => false,
        }
    } else {
        r == Err::<Outcome, LoanContractError>(LoanContractError::UnknownOperation)
    }
}

/// Decodes an instruction and runs the operation it names.
pub fn process_instruction(program_id: &Key, accounts: &[AccountView], instruction_data: &[u8]) -> (r:
    Result<Outcome, LoanContractError>)
    ensures
        process_result(*program_id, accounts@, instruction_data@, r),
{
    let instruction = match LoanInstruction::unpack(instruction_data) {
        Ok(i) => i,
        Err(e) => {
            return Err(e);
        },
    };
    match instruction {
        LoanInstruction::AddItem { name } => match add_item(program_id, accounts, name) {
            Ok(x) => Ok(Outcome::Registered(x)),
            Err(e) => Err(e),
        },
        LoanInstruction::SignContract { deposit } => match sign_contract(program_id, accounts, deposit) {
            Ok(x) => Ok(Outcome::Activated(x)),
            Err(e) => Err(e),
        },
        LoanInstruction::CompleteContract {  } => match complete_contract(program_id, accounts) {
            Ok(x) => Ok(Outcome::Completed(x)),
            Err(e) => Err(e),
        },
        LoanInstruction::TerminateContract {  } => match terminate_contract(program_id, accounts) {
            Ok(x) => Ok(Outcome::Terminated(x)),
            Err(e) => Err(e),
        },
    }
}

// ---- laws of the state machine ----

/// A second registration of the same item is refused with
/// `AlreadyInitialized`: once the item slot holds what a successful
/// registration wrote, repeating that registration fails and writes nothing.
pub proof fn lemma_register_twice_refused(
    program_id: Key,
    accounts: Seq<AccountView>,
    name: Seq<char>,
    first: Registration,
    again: Seq<AccountView>,
    r: Result<Registration, LoanContractError>,
)
    requires
        add_item_result(program_id, accounts, name, Ok(first)),
        again.len() == accounts.len(),
        again[0] == accounts[0],
        again[1].key == accounts[1].key,
        again[1].data@ == first.item_data@,
        add_item_result(program_id, again, name, r),
    ensures
        r == Err::<Registration, LoanContractError>(LoanContractError::AlreadyInitialized),
{
    vstd::bytes::lemma_auto_spec_u32_to_from_le_bytes();
}

/// Activation against a contract slot other than the one derived from
/// borrower, lender and item is refused with `InvalidDerivedAddress`, and
/// writes nothing.
pub proof fn lemma_activate_wrong_address_refused(
    program_id: Key,
    accounts: Seq<AccountView>,
    deposit: u64,
    r: Result<Activation, LoanContractError>,
)
    requires
        accounts.len() >= 7,
        accounts[0].is_signer,
        !derives_to(
            contract_address(program_id@, accounts[0].key@, accounts[2].key@, accounts[3].key@),
            accounts[1].key@,
        ),
        sign_contract_result(program_id, accounts, deposit, r),
    ensures
        r == Err::<Activation, LoanContractError>(LoanContractError::InvalidDerivedAddress),
{
}

/// Activation against an item that someone already holds is refused, and
/// writes nothing.
pub proof fn lemma_activate_held_item_refused(
    program_id: Key,
    accounts: Seq<AccountView>,
    deposit: u64,
    r: Result<Activation, LoanContractError>,
)
    requires
        accounts.len() >= 4,
        parse_item(accounts[3].data@) matches Some(m) && m.held_by is Some,
        sign_contract_result(program_id, accounts, deposit, r),
    ensures
        r is Err,
{
}

/// A successful activation writes an active contract between the borrower
/// and the lender, and marks the item as held by the borrower.
pub proof fn lemma_activation_outcome(
    program_id: Key,
    accounts: Seq<AccountView>,
    deposit: u64,
    act: Activation,
)
    requires
        sign_contract_result(program_id, accounts, deposit, Ok(act)),
    ensures
        parse_contract(act.contract_data@) == Some(activated_contract(accounts, deposit)),
        parse_contract(act.contract_data@)->Some_0.status == ContractStatus::Active,
        parse_item(act.item_data@) matches Some(m) && m.held_by == Some(accounts[0].key@),
{
    let contract = accounts[1];
    let item = accounts[3];
    let old_contract = if contract.data@.len() == 0 {
        zeros(CONTRACT_LEN as nat)
    } else {
        contract.data@
    };
    let cm = activated_contract(accounts, deposit);
    let image = contract_image(cm);
    lemma_parse_item_fits(item.data@);
    let im = with_holder(parse_item(item.data@)->Some_0, Some(accounts[0].key@));
    lemma_contract_round_trip(cm, old_contract.subrange(image.len() as int, old_contract.len() as int));
    lemma_item_round_trip(im, item.data@.subrange(item_image(im).len() as int, item.data@.len() as int));
}

/// A successful completion or termination writes the contract as `Closed` and
/// releases the item.
pub proof fn lemma_close_outcome(
    program_id: Key,
    accounts: Seq<AccountView>,
    forfeit: bool,
    c: Closure,
)
    requires
        close_result(program_id, accounts, forfeit, Ok(c)),
    ensures
        parse_contract(c.contract_data@) matches Some(m) && m.status == ContractStatus::Closed,
        parse_item(c.item_data@) matches Some(m) && m.held_by is None,
{
    let contract = accounts[1];
    let item = accounts[2];
    lemma_parse_contract_fits(contract.data@);
    lemma_parse_item_fits(item.data@);
    let cm = closed_contract(parse_contract(contract.data@)->Some_0);
    let im = with_holder(parse_item(item.data@)->Some_0, None);
    lemma_contract_round_trip(
        cm,
        contract.data@.subrange(contract_image(cm).len() as int, contract.data@.len() as int),
    );
    lemma_item_round_trip(im, item.data@.subrange(item_image(im).len() as int, item.data@.len() as int));
}

/// A contract that is already closed cannot be completed or terminated
/// again: the call is refused and writes nothing.
pub proof fn lemma_no_double_close(
    program_id: Key,
    accounts: Seq<AccountView>,
    forfeit: bool,
    r: Result<Closure, LoanContractError>,
)
    requires
        accounts.len() >= 2,
        parse_contract(accounts[1].data@) matches Some(m) && m.status == ContractStatus::Closed,
        close_result(program_id, accounts, forfeit, r),
    ensures
        r is Err,
{
}

/// Completion or termination signed by anyone but the stored lender of an
/// active contract is refused with `OwnershipMismatch`, however valid the
/// signature.
pub proof fn lemma_wrong_lender_refused(
    program_id: Key,
    accounts: Seq<AccountView>,
    forfeit: bool,
    r: Result<Closure, LoanContractError>,
)
    requires
        accounts.len() >= 5,
        accounts[0].is_signer,
        accounts[1].owner@ == program_id@,
        parse_contract(accounts[1].data@) matches Some(m) && m.status == ContractStatus::Active
            && m.lender != accounts[0].key@,
        close_result(program_id, accounts, forfeit, r),
    ensures
        r == Err::<Closure, LoanContractError>(LoanContractError::OwnershipMismatch),
{
}

} // verus!
