use loan_contract::error::LoanContractError;
use loan_contract::instruction::LoanInstruction;
use loan_contract::processor::add_item;
use loan_contract::processor::complete_contract;
use loan_contract::processor::process_instruction;
use loan_contract::processor::sign_contract;
use loan_contract::processor::terminate_contract;
use loan_contract::processor::AccountView;
use loan_contract::processor::Outcome;
use loan_contract::address::derive_contract_address;
use loan_contract::address::derive_item_address;
use loan_contract::state::ContractItemState;
use loan_contract::state::ContractStatus;
use loan_contract::state::Key;
use loan_contract::state::LoanContractState;

fn program() -> Key {
    Key::new([7u8; 32])
}

fn system() -> Key {
    Key::new([0u8; 32])
}

fn alice() -> Key {
    Key::new([1u8; 32])
}

fn bob() -> Key {
    Key::new([2u8; 32])
}

fn custody() -> Key {
    Key::new([3u8; 32])
}

fn account(key: Key, owner: Key, is_signer: bool, data: Vec<u8>) -> AccountView {
    AccountView { key, owner, is_signer, data }
}

fn item_key(owner: Key, name: &str) -> Key {
    derive_item_address(&program(), &owner, &name.to_string()).unwrap().0
}

fn contract_key(borrower: Key, lender: Key, item: Key) -> Key {
    derive_contract_address(&program(), &borrower, &lender, &item).unwrap().0
}

/// Registers `name` for `owner` and returns the item's address and bytes.
fn register(owner: Key, name: &str) -> (Key, Vec<u8>) {
    let item = item_key(owner, name);
    let accounts = vec![
        account(owner, system(), true, vec![]),
        account(item, system(), false, vec![]),
        account(system(), system(), false, vec![]),
    ];
    let reg = add_item(&program(), &accounts, name.to_string()).unwrap();
    (item, reg.item_data)
}

fn activation_accounts(borrower: Key, lender: Key, item: Key, item_data: Vec<u8>, contract_data: Vec<u8>) -> Vec<AccountView> {
    let contract = contract_key(borrower, lender, item);
    let contract_owner = if contract_data.is_empty() { system() } else { program() };
    vec![
        account(borrower, system(), true, vec![]),
        account(contract, contract_owner, false, contract_data),
        account(lender, system(), false, vec![]),
        account(item, program(), false, item_data),
        account(custody(), system(), false, vec![]),
        account(system(), system(), false, vec![]),
        account(system(), system(), false, vec![]),
    ]
}

fn close_accounts(signer: Key, contract: Key, contract_data: Vec<u8>, item: Key, item_data: Vec<u8>) -> Vec<AccountView> {
    vec![
        account(signer, system(), true, vec![]),
        account(contract, program(), false, contract_data),
        account(item, program(), false, item_data),
        account(system(), system(), false, vec![]),
        account(system(), system(), false, vec![]),
    ]
}

/// Registers "bike" for alice and lends it to bob with a deposit of 100.
fn active_loan() -> (Key, Vec<u8>, Key, Vec<u8>) {
    let (item, item_data) = register(alice(), "bike");
    let accounts = activation_accounts(bob(), alice(), item, item_data, vec![]);
    let act = sign_contract(&program(), &accounts, 100).unwrap();
    (accounts[1].key, act.contract_data, item, act.item_data)
}

#[test]
fn full_lifecycle_ends_closed_and_released() {
    let (item, item_data) = register(alice(), "bike");
    let registered = ContractItemState::unpack(&item_data).unwrap();
    assert!(registered.is_initialized);
    assert_eq!(registered.name, "bike");
    assert_eq!(registered.owner, alice());
    assert_eq!(registered.user, None);

    let accounts = activation_accounts(bob(), alice(), item, item_data, vec![]);
    let act = sign_contract(&program(), &accounts, 100).unwrap();
    let alloc = act.allocation.as_ref().unwrap();
    assert_eq!(alloc.address, accounts[1].key);
    assert_eq!(alloc.payer, bob());
    assert_eq!(alloc.size, 144);
    let contract = LoanContractState::unpack(&act.contract_data).unwrap();
    assert_eq!(contract.status, ContractStatus::Active);
    assert_eq!(contract.lender, alice());
    assert_eq!(contract.borrower, bob());
    assert_eq!(contract.item, item);
    assert_eq!(contract.escrow_account, custody());
    assert_eq!(contract.expected_amount, 100);
    let held = ContractItemState::unpack(&act.item_data).unwrap();
    assert_eq!(held.user, Some(bob()));

    let closing = close_accounts(alice(), accounts[1].key, act.contract_data, item, act.item_data);
    let done = complete_contract(&program(), &closing).unwrap();
    let contract = LoanContractState::unpack(&done.contract_data).unwrap();
    assert_eq!(contract.status, ContractStatus::Closed);
    let released = ContractItemState::unpack(&done.item_data).unwrap();
    assert_eq!(released.user, None);
    assert_eq!(released.name, "bike");
    assert_eq!(done.settlement.recipient, bob());
    assert_eq!(done.settlement.custody, custody());
    assert_eq!(done.settlement.amount, 100);
}

#[test]
fn terminate_forfeits_to_lender() {
    let (contract, contract_data, item, item_data) = active_loan();
    let closing = close_accounts(alice(), contract, contract_data, item, item_data);
    let done = terminate_contract(&program(), &closing).unwrap();
    assert_eq!(done.settlement.recipient, alice());
    assert_eq!(done.settlement.amount, 100);
    let closed = LoanContractState::unpack(&done.contract_data).unwrap();
    assert_eq!(closed.status, ContractStatus::Closed);
}

#[test]
fn registering_twice_is_refused() {
    let (item, item_data) = register(alice(), "bike");
    let accounts = vec![
        account(alice(), system(), true, vec![]),
        account(item, program(), false, item_data.clone()),
        account(system(), system(), false, vec![]),
    ];
    let again = add_item(&program(), &accounts, "bike".to_string());
    assert!(matches!(again, Err(LoanContractError::AlreadyInitialized)));
    assert_eq!(accounts[1].data, item_data);
}

#[test]
fn register_needs_signature() {
    let item = item_key(alice(), "bike");
    let accounts = vec![
        account(alice(), system(), false, vec![]),
        account(item, system(), false, vec![]),
        account(system(), system(), false, vec![]),
    ];
    let r = add_item(&program(), &accounts, "bike".to_string());
    assert!(matches!(r, Err(LoanContractError::MissingSignature)));
}

#[test]
fn register_at_wrong_address_is_refused() {
    let accounts = vec![
        account(alice(), system(), true, vec![]),
        account(Key::new([9u8; 32]), system(), false, vec![]),
        account(system(), system(), false, vec![]),
    ];
    let r = add_item(&program(), &accounts, "bike".to_string());
    assert!(matches!(r, Err(LoanContractError::InvalidDerivedAddress)));
}

#[test]
fn register_with_overlong_name_is_refused() {
    let name = "x".repeat(33);
    let accounts = vec![
        account(alice(), system(), true, vec![]),
        account(Key::new([9u8; 32]), system(), false, vec![]),
        account(system(), system(), false, vec![]),
    ];
    let r = add_item(&program(), &accounts, name);
    assert!(matches!(r, Err(LoanContractError::InvalidDataLength)));
}

#[test]
fn register_with_too_few_accounts_is_refused() {
    let accounts = vec![account(alice(), system(), true, vec![])];
    let r = add_item(&program(), &accounts, "bike".to_string());
    assert!(matches!(r, Err(LoanContractError::NotEnoughAccountKeys)));
}

#[test]
fn registration_allocates_the_derived_slot() {
    let item = item_key(alice(), "bike");
    let accounts = vec![
        account(alice(), system(), true, vec![]),
        account(item, system(), false, vec![]),
        account(system(), system(), false, vec![]),
    ];
    let reg = add_item(&program(), &accounts, "bike".to_string()).unwrap();
    let nonce = derive_item_address(&program(), &alice(), &"bike".to_string()).unwrap().1;
    assert_eq!(reg.allocation.address, item);
    assert_eq!(reg.allocation.payer, alice());
    assert_eq!(reg.allocation.nonce, nonce);
    assert_eq!(reg.allocation.size, 74);
    assert_eq!(reg.allocation.seeds, vec![vec![1u8; 32], b"bike".to_vec()]);
    assert_eq!(reg.item_data.len(), 74);
    assert_eq!(&reg.item_data[0..9], &[1u8, 4, 0, 0, 0, b'b', b'i', b'k', b'e']);
    assert!(reg.item_data[42..].iter().all(|b| *b == 0));
}

#[test]
fn activation_at_wrong_address_is_refused() {
    let (item, item_data) = register(alice(), "bike");
    let mut accounts = activation_accounts(bob(), alice(), item, item_data.clone(), vec![]);
    accounts[1].key = Key::new([9u8; 32]);
    let r = sign_contract(&program(), &accounts, 100);
    assert!(matches!(r, Err(LoanContractError::InvalidDerivedAddress)));
    assert_eq!(accounts[3].data, item_data);
}

#[test]
fn activation_of_held_item_is_refused() {
    let (_, _, item, item_data) = active_loan();
    let carol = Key::new([4u8; 32]);
    let accounts = activation_accounts(carol, alice(), item, item_data.clone(), vec![]);
    let r = sign_contract(&program(), &accounts, 50);
    assert!(matches!(r, Err(LoanContractError::AlreadyActive)));
    assert_eq!(accounts[3].data, item_data);
}

#[test]
fn activation_needs_signature() {
    let (item, item_data) = register(alice(), "bike");
    let mut accounts = activation_accounts(bob(), alice(), item, item_data, vec![]);
    accounts[0].is_signer = false;
    let r = sign_contract(&program(), &accounts, 100);
    assert!(matches!(r, Err(LoanContractError::MissingSignature)));
}

#[test]
fn activation_of_foreign_item_is_refused() {
    let (item, item_data) = register(alice(), "bike");
    let mut accounts = activation_accounts(bob(), alice(), item, item_data, vec![]);
    accounts[3].owner = Key::new([5u8; 32]);
    let r = sign_contract(&program(), &accounts, 100);
    assert!(matches!(r, Err(LoanContractError::IncorrectOwningProgram)));
}

#[test]
fn activation_of_unregistered_item_is_refused() {
    let item = item_key(alice(), "bike");
    let accounts = activation_accounts(bob(), alice(), item, vec![], vec![]);
    let r = sign_contract(&program(), &accounts, 100);
    assert!(matches!(r, Err(LoanContractError::UninitializedAccount)));
}

#[test]
fn activation_of_garbled_item_is_refused() {
    let item = item_key(alice(), "bike");
    let accounts = activation_accounts(bob(), alice(), item, vec![7u8; 80], vec![]);
    let r = sign_contract(&program(), &accounts, 100);
    assert!(matches!(r, Err(LoanContractError::MalformedPayload)));
}

#[test]
fn reactivation_of_closed_contract_reuses_the_slot() {
    let (contract, contract_data, item, item_data) = active_loan();
    let closing = close_accounts(alice(), contract, contract_data, item, item_data);
    let done = complete_contract(&program(), &closing).unwrap();
    let accounts = activation_accounts(bob(), alice(), item, done.item_data, done.contract_data);
    let act = sign_contract(&program(), &accounts, 70).unwrap();
    assert!(act.allocation.is_none());
    let c = LoanContractState::unpack(&act.contract_data).unwrap();
    assert_eq!(c.status, ContractStatus::Active);
    assert_eq!(c.expected_amount, 70);
}

#[test]
fn terminate_after_close_is_refused() {
    let (contract, contract_data, item, item_data) = active_loan();
    let closing = close_accounts(alice(), contract, contract_data, item, item_data);
    let done = terminate_contract(&program(), &closing).unwrap();
    let again = close_accounts(alice(), contract, done.contract_data.clone(), item, done.item_data);
    let r = terminate_contract(&program(), &again);
    assert!(matches!(r, Err(LoanContractError::ContractNotActive)));
    let c = LoanContractState::unpack(&again[1].data).unwrap();
    assert_eq!(c.status, ContractStatus::Closed);
}

#[test]
fn complete_by_other_signer_is_refused() {
    let (contract, contract_data, item, item_data) = active_loan();
    let closing = close_accounts(bob(), contract, contract_data.clone(), item, item_data.clone());
    let r = complete_contract(&program(), &closing);
    assert!(matches!(r, Err(LoanContractError::OwnershipMismatch)));
    let r = terminate_contract(&program(), &closing);
    assert!(matches!(r, Err(LoanContractError::OwnershipMismatch)));
}

#[test]
fn close_needs_signature() {
    let (contract, contract_data, item, item_data) = active_loan();
    let mut closing = close_accounts(alice(), contract, contract_data, item, item_data);
    closing[0].is_signer = false;
    let r = complete_contract(&program(), &closing);
    assert!(matches!(r, Err(LoanContractError::MissingSignature)));
}

#[test]
fn close_of_foreign_contract_is_refused() {
    let (contract, contract_data, item, item_data) = active_loan();
    let mut closing = close_accounts(alice(), contract, contract_data, item, item_data);
    closing[1].owner = Key::new([5u8; 32]);
    let r = complete_contract(&program(), &closing);
    assert!(matches!(r, Err(LoanContractError::IncorrectOwningProgram)));
}

#[test]
fn close_with_other_item_is_refused() {
    let (contract, contract_data, _, _) = active_loan();
    let (other, other_data) = register(alice(), "car");
    let closing = close_accounts(alice(), contract, contract_data, other, other_data);
    let r = complete_contract(&program(), &closing);
    assert!(matches!(r, Err(LoanContractError::OwnershipMismatch)));
}

#[test]
fn close_of_uninitialized_contract_is_refused() {
    let (item, item_data) = register(alice(), "bike");
    let contract = contract_key(bob(), alice(), item);
    let closing = close_accounts(alice(), contract, vec![0u8; 144], item, item_data);
    let r = complete_contract(&program(), &closing);
    assert!(matches!(r, Err(LoanContractError::UninitializedAccount)));
}

#[test]
fn close_at_wrong_address_is_refused() {
    let (_, contract_data, item, item_data) = active_loan();
    let closing = close_accounts(alice(), Key::new([9u8; 32]), contract_data, item, item_data);
    let r = complete_contract(&program(), &closing);
    assert!(matches!(r, Err(LoanContractError::InvalidDerivedAddress)));
}

#[test]
fn process_runs_the_decoded_operation() {
    let item = item_key(alice(), "bike");
    let accounts = vec![
        account(alice(), system(), true, vec![]),
        account(item, system(), false, vec![]),
        account(system(), system(), false, vec![]),
    ];
    let data = vec![0u8, 4, 0, 0, 0, b'b', b'i', b'k', b'e'];
    match process_instruction(&program(), &accounts, &data) {
        Ok(Outcome::Registered(reg)) => assert_eq!(reg.allocation.address, item),
        _ => panic!("expected a registration"),
    }
    let r = process_instruction(&program(), &accounts, &[9u8]);
    assert!(matches!(r, Err(LoanContractError::UnknownOperation)));
    let r = process_instruction(&program(), &accounts, &[2u8]);
    assert!(matches!(r, Err(LoanContractError::NotEnoughAccountKeys)));
}

#[test]
fn derivation_is_deterministic() {
    let a = derive_item_address(&program(), &alice(), &"bike".to_string()).unwrap();
    let b = derive_item_address(&program(), &alice(), &"bike".to_string()).unwrap();
    assert_eq!(a, b);
    assert_ne!(a.0, alice());
    let c = derive_item_address(&program(), &alice(), &"car".to_string()).unwrap();
    assert_ne!(a.0, c.0);
    let d = derive_item_address(&program(), &bob(), &"bike".to_string()).unwrap();
    assert_ne!(a.0, d.0);
}

#[test]
fn unpack_decodes_each_operation() {
    match LoanInstruction::unpack(&[0u8, 4, 0, 0, 0, b'b', b'i', b'k', b'e']) {
        Ok(LoanInstruction::AddItem { name }) => assert_eq!(name, "bike"),
        _ => panic!("expected AddItem"),
    }
    match LoanInstruction::unpack(&[1u8, 100, 0, 0, 0, 0, 0, 0, 1]) {
        Ok(LoanInstruction::SignContract { deposit }) => assert_eq!(deposit, 100 + (1u64 << 56)),
        _ => panic!("expected SignContract"),
    }
    assert!(matches!(LoanInstruction::unpack(&[2u8]), Ok(LoanInstruction::CompleteContract {})));
    assert!(matches!(LoanInstruction::unpack(&[3u8]), Ok(LoanInstruction::TerminateContract {})));
}

#[test]
fn unpack_refuses_bad_input() {
    assert!(matches!(LoanInstruction::unpack(&[]), Err(LoanContractError::MalformedPayload)));
    assert!(matches!(LoanInstruction::unpack(&[4u8]), Err(LoanContractError::UnknownOperation)));
    assert!(matches!(LoanInstruction::unpack(&[1u8, 1, 2, 3]), Err(LoanContractError::MalformedPayload)));
    assert!(matches!(
        LoanInstruction::unpack(&[0u8, 5, 0, 0, 0, b'b', b'i', b'k', b'e']),
        Err(LoanContractError::MalformedPayload)
    ));
    assert!(matches!(
        LoanInstruction::unpack(&[0u8, 2, 0, 0, 0, 0xff, 0xfe]),
        Err(LoanContractError::MalformedPayload)
    ));
}

#[test]
fn item_record_round_trips() {
    let item = ContractItemState {
        is_initialized: true,
        name: "vélo".to_string(),
        owner: alice(),
        user: Some(bob()),
    };
    let mut bytes = item.pack();
    assert_eq!(bytes.len(), 1 + 4 + 5 + 32 + 33);
    bytes.extend_from_slice(&[0xaa; 10]);
    let back = ContractItemState::unpack(&bytes).unwrap();
    assert_eq!(back.is_initialized, item.is_initialized);
    assert_eq!(back.name, item.name);
    assert_eq!(back.owner, item.owner);
    assert_eq!(back.user, item.user);
}

#[test]
fn contract_record_round_trips() {
    let contract = LoanContractState {
        lender: alice(),
        borrower: bob(),
        item: Key::new([5u8; 32]),
        escrow_account: custody(),
        expected_amount: 0x0102030405060708,
        status: ContractStatus::Closed,
    };
    let bytes = contract.pack();
    assert_eq!(bytes.len(), 144);
    assert_eq!(&bytes[128..136], &[8u8, 7, 6, 5, 4, 3, 2, 1]);
    assert_eq!(&bytes[136..144], &[2u8, 0, 0, 0, 0, 0, 0, 0]);
    let back = LoanContractState::unpack(&bytes).unwrap();
    assert_eq!(back, contract);
}

#[test]
fn contract_with_unknown_status_is_refused() {
    let mut bytes = vec![0u8; 144];
    bytes[136] = 3;
    assert!(matches!(LoanContractState::unpack(&bytes), Err(LoanContractError::MalformedPayload)));
    assert!(matches!(LoanContractState::unpack(&[0u8; 143]), Err(LoanContractError::MalformedPayload)));
}

#[test]
fn status_queries_and_codes() {
    let mut c = LoanContractState {
        lender: alice(),
        borrower: bob(),
        item: alice(),
        escrow_account: custody(),
        expected_amount: 1,
        status: ContractStatus::Uninitialized,
    };
    assert!(c.is_signable() && !c.is_active() && !c.is_initialized());
    c.status = ContractStatus::Active;
    assert!(!c.is_signable() && c.is_active() && c.is_initialized());
    c.status = ContractStatus::Closed;
    assert!(c.is_signable() && !c.is_active() && c.is_initialized());
    assert_eq!(u64::from(ContractStatus::Uninitialized), 0);
    assert_eq!(u64::from(ContractStatus::Active), 1);
    assert_eq!(u64::from(ContractStatus::Closed), 2);
}

#[test]
fn account_sizes() {
    assert_eq!(LoanContractState::get_account_size(), 144);
    assert_eq!(ContractItemState::get_account_size("bike".to_string()), 74);
    assert_eq!(ContractItemState::get_account_size(String::new()), 70);
}

#[test]
fn error_codes_are_distinct() {
    assert_eq!(LoanContractError::UninitializedAccount.code(), 0);
    assert_eq!(LoanContractError::InvalidDerivedAddress.code(), 1);
    assert_eq!(LoanContractError::InvalidDataLength.code(), 2);
    assert_eq!(LoanContractError::MalformedPayload.code(), 3);
    assert_eq!(LoanContractError::OwnershipMismatch.code(), 4);
    assert_eq!(LoanContractError::AlreadyActive.code(), 5);
    assert_eq!(LoanContractError::AlreadyInitialized.code(), 6);
    assert_eq!(LoanContractError::ContractNotActive.code(), 7);
    assert_eq!(LoanContractError::IncorrectOwningProgram.code(), 8);
    assert_eq!(LoanContractError::MissingSignature.code(), 9);
    assert_eq!(LoanContractError::UnknownOperation.code(), 10);
    assert_eq!(LoanContractError::NotEnoughAccountKeys.code(), 11);
}

#[test]
fn key_comparison_and_bytes() {
    assert!(alice().same(&Key::new([1u8; 32])));
    assert!(!alice().same(&bob()));
    assert_eq!(alice().to_bytes_vec(), vec![1u8; 32]);
    assert_eq!(Key::from_slice(&[2u8; 32]), bob());
}

#[test]
fn activation_without_room_in_item_slot_is_refused() {
    let item = item_key(alice(), "bike");
    let record = ContractItemState {
        is_initialized: true,
        name: "bike".to_string(),
        owner: alice(),
        user: None,
    };
    let tight = record.pack();
    assert_eq!(tight.len(), 42);
    let accounts = activation_accounts(bob(), alice(), item, tight, vec![]);
    let r = sign_contract(&program(), &accounts, 100);
    assert!(matches!(r, Err(LoanContractError::InvalidDataLength)));
}

#[test]
fn activation_over_live_contract_is_refused() {
    let (_, contract_data, item, _) = active_loan();
    let (_, free_item_data) = register(alice(), "bike");
    let accounts = activation_accounts(bob(), alice(), item, free_item_data, contract_data);
    let r = sign_contract(&program(), &accounts, 100);
    assert!(matches!(r, Err(LoanContractError::AlreadyActive)));
}

#[test]
fn activation_over_garbled_contract_is_refused() {
    let (item, item_data) = register(alice(), "bike");
    let mut garbled = vec![0u8; 144];
    garbled[136] = 9;
    let accounts = activation_accounts(bob(), alice(), item, item_data, garbled);
    let r = sign_contract(&program(), &accounts, 100);
    assert!(matches!(r, Err(LoanContractError::MalformedPayload)));
}
