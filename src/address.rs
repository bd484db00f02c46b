use vstd::prelude::*;
use vstd::utf8::encode_utf8;

use solana_program::pubkey::Pubkey;

use crate::state::Key;

verus! {

/// The address and nonce that the ledger derives for a program from a list
/// of seeds, or none where the seeds are refused or no nonce yields an address
/// off the signing curve.
pub uninterp spec fn program_address(seeds: Seq<Seq<u8>>, program_id: Seq<u8>) -> Option<(Seq<u8>, u8)>;

/// The mathematical value of a derivation result.
pub open spec fn derivation_view(r: Option<(Key, u8)>) -> Option<(Seq<u8>, u8)> {
    match r {
        Some((k, nonce)) => Some((k@, nonce)),
        None => None,
    }
}

/// Relies on solana_program's `Pubkey::try_find_program_address`, a function
/// of the seeds and the program identity alone.
#[verifier::external_body]
fn try_find_program_address(seeds: &Vec<Vec<u8>>, program_id: &Key) -> (r: Option<(Key, u8)>)
    ensures
        derivation_view(r) == program_address(seeds.deep_view(), program_id@),
{
    let refs: Vec<&[u8]> = seeds.iter().map(|s| s.as_slice()).collect();
    let program = Pubkey::new_from_array(program_id.0);
    Pubkey::try_find_program_address(&refs, &program).map(|(k, nonce)| (Key(k.to_bytes()), nonce))
}

/// The seeds of a collateral item's address: its owner and its name.
pub open spec fn item_seeds(owner: Seq<u8>, name: Seq<char>) -> Seq<Seq<u8>> {
    seq![owner, encode_utf8(name)]
}

/// The seeds of a loan contract's address: borrower, lender and item.
pub open spec fn contract_seeds(borrower: Seq<u8>, lender: Seq<u8>, item: Seq<u8>) -> Seq<Seq<u8>> {
    seq![borrower, lender, item]
}

/// The derived address and nonce of a collateral item.
pub open spec fn item_address(program_id: Seq<u8>, owner: Seq<u8>, name: Seq<char>) -> Option<(Seq<u8>, u8)> {
    program_address(item_seeds(owner, name), program_id)
}

/// The derived address and nonce of a loan contract.
pub open spec fn contract_address(
    program_id: Seq<u8>,
    borrower: Seq<u8>,
    lender: Seq<u8>,
    item: Seq<u8>,
) -> Option<(Seq<u8>, u8)> {
    program_address(contract_seeds(borrower, lender, item), program_id)
}

/// The seeds of an item's address, as vectors.
pub(crate) fn item_seed_list(owner: &Key, name: &String) -> (r: Vec<Vec<u8>>)
    ensures
        r.deep_view() == item_seeds(owner@, name@),
{
    let mut seeds: Vec<Vec<u8>> = Vec::new();
    seeds.push(owner.to_bytes_vec());
    let mut name_vec: Vec<u8> = Vec::new();
    crate::state::push_all(&mut name_vec, name.as_str().as_bytes());
    seeds.push(name_vec);
    assert(seeds.deep_view()[0] =~= owner@);
    assert(seeds.deep_view()[1] =~= encode_utf8(name@));
    assert(seeds.deep_view() =~= item_seeds(owner@, name@));
    seeds
}

/// The seeds of a contract's address, as vectors.
pub(crate) fn contract_seed_list(borrower: &Key, lender: &Key, item: &Key) -> (r: Vec<Vec<u8>>)
    ensures
        r.deep_view() == contract_seeds(borrower@, lender@, item@),
{
    let mut seeds: Vec<Vec<u8>> = Vec::new();
    seeds.push(borrower.to_bytes_vec());
    seeds.push(lender.to_bytes_vec());
    seeds.push(item.to_bytes_vec());
    assert(seeds.deep_view()[0] =~= borrower@);
    assert(seeds.deep_view()[1] =~= lender@);
    assert(seeds.deep_view()[2] =~= item@);
    assert(seeds.deep_view() =~= contract_seeds(borrower@, lender@, item@));
    seeds
}

/// Derives the address of the collateral item that `owner` registers under
/// `name`.
pub fn derive_item_address(program_id: &Key, owner: &Key, name: &String) -> (r: Option<(Key, u8)>)
    ensures
        derivation_view(r) == item_address(program_id@, owner@, name@),
{
    try_find_program_address(&item_seed_list(owner, name), program_id)
}

/// Derives the address of the loan contract between `borrower` and `lender`
/// over the item at `item`.
pub fn derive_contract_address(program_id: &Key, borrower: &Key, lender: &Key, item: &Key) -> (r:
    Option<(Key, u8)>)
    ensures
        derivation_view(r) == contract_address(program_id@, borrower@, lender@, item@),
{
    try_find_program_address(&contract_seed_list(borrower, lender, item), program_id)
}

/// Derivation is deterministic: two derivations of a collateral item's address
/// from the same program, owner and name give the same address and nonce.
pub proof fn lemma_item_address_deterministic(
    program_id: Key,
    owner: Key,
    name: String,
    r1: Option<(Key, u8)>,
    r2: Option<(Key, u8)>,
)
    requires
        derivation_view(r1) == item_address(program_id@, owner@, name@),
        derivation_view(r2) == item_address(program_id@, owner@, name@),
    ensures
        r1 == r2,
{
    broadcast use vstd::array::axiom_array_ext_equal;

    match (r1, r2) {
        (Some((k1, n1)), Some((k2, n2))) => {
            assert(k1.0 =~= k2.0);
        },
        _ => {},
    }
}

} // verus!
