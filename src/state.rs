use vstd::bytes::*;
use vstd::prelude::*;
use vstd::slice::slice_subrange;
use vstd::utf8::*;

use crate::error::LoanContractError;
use crate::wire::is_string_frame;
use crate::wire::string_from_frame;

verus! {

/// The width of an identity on the ledger.
pub const KEY_LEN: usize = 32;

/// The encoded size of a loan contract record.
pub const CONTRACT_LEN: usize = 144;

/// An identity or a record address: 32 bytes.
#[derive(Clone, Copy, Debug, PartialEq, Eq)]
pub struct Key(pub [u8; 32]);

impl View for Key {
    type V = Seq<u8>;

    open spec fn view(&self) -> Seq<u8> {
        self.0@
    }
}

impl Key {
    /// The key made of `bytes`.
    pub fn new(bytes: [u8; 32]) -> (r: Key)
        ensures
            r@ == bytes@,
    {
        Key(bytes)
    }

    /// The key made of the 32 bytes of `b`.
    pub fn from_slice(b: &[u8]) -> (r: Key)
        requires
            b@.len() == 32,
        ensures
            r@ == b@,
    {
        let mut a: [u8; 32] = [0u8; 32];
        let mut i: usize = 0;
        while i < 32
            invariant
                b@.len() == 32,
                a@.len() == 32,
                i <= 32,
                a@.subrange(0, i as int) == b@.subrange(0, i as int),
            decreases 32 - i,
        {
            a[i] = b[i];
            assert(a@.subrange(0, i + 1) =~= b@.subrange(0, i + 1)) by {
                assert(a@.subrange(0, i as int) =~= b@.subrange(0, i as int));
            }
            i = i + 1;
        }
        assert(a@ =~= b@) by {
            assert(a@.subrange(0, 32) =~= a@);
            assert(b@.subrange(0, 32) =~= b@);
        }
        Key(a)
    }

    /// Whether the two keys hold the same bytes.
    pub fn same(&self, other: &Key) -> (r: bool)
        ensures
            r == (self@ == other@),
    {
        let mut i: usize = 0;
        while i < 32
            invariant
                self@.len() == 32,
                other@.len() == 32,
                i <= 32,
                forall|j: int| 0 <= j < i ==> self@[j] == other@[j],
            decreases 32 - i,
        {
            if self.0[i] != other.0[i] {
                return false;
            }
            i = i + 1;
        }
        assert(self@ =~= other@);
        true
    }

    /// The bytes of the key, as a vector.
    pub fn to_bytes_vec(&self) -> (r: Vec<u8>)
        ensures
            r@ == self@,
    {
        let mut v: Vec<u8> = Vec::new();
        let mut i: usize = 0;
        while i < 32
            invariant
                self@.len() == 32,
                i <= 32,
                v@ == self@.subrange(0, i as int),
            decreases 32 - i,
        {
            v.push(self.0[i]);
            assert(v@ =~= self@.subrange(0, i + 1));
            i = i + 1;
        }
        assert(v@ =~= self@);
        v
    }
}

/// Appends the bytes of `b` to `out`.
pub(crate) fn push_all(out: &mut Vec<u8>, b: &[u8])
    ensures
        final(out)@ == old(out)@ + b@,
{
    let mut i: usize = 0;
    while i < b.len()
        invariant
            i <= b@.len(),
            out@ == old(out)@ + b@.subrange(0, i as int),
        decreases b@.len() - i,
    {
        out.push(b[i]);
        assert(out@ =~= old(out)@ + b@.subrange(0, i + 1));
        i = i + 1;
    }
    assert(b@.subrange(0, b@.len() as int) =~= b@);
}

/// The lifecycle of a loan contract.
#[derive(Clone, Copy, Debug, PartialEq, Eq, Structural)]
pub enum ContractStatus {
    Uninitialized,
    Active,
    Closed,
}

/// The number under which a status is stored.
pub open spec fn status_code(s: ContractStatus) -> u64 {
    match s {
        ContractStatus::Uninitialized => 0,
        ContractStatus::Active => 1,
        ContractStatus::Closed => 2,
    }
}

/// The status stored under a number, if any.
pub open spec fn status_of_code(c: u64) -> Option<ContractStatus> {
    if c == 0 {
        Some(ContractStatus::Uninitialized)
    } else if c == 1 {
        Some(ContractStatus::Active)
    } else if c == 2 {
        Some(ContractStatus::Closed)
    } else {
        None
    }
}

impl From<ContractStatus> for u64 {
    fn from(status: ContractStatus) -> (r: u64) {
        match status {
            ContractStatus::Uninitialized => 0,
            ContractStatus::Active => 1,
            ContractStatus::Closed => 2,
        }
    }
}

impl vstd::std_specs::convert::FromSpecImpl<ContractStatus> for u64 {
    open spec fn obeys_from_spec() -> bool {
        true
    }

    open spec fn from_spec(v: ContractStatus) -> u64 {
        status_code(v)
    }
}

/// A loan contract record.
#[derive(Clone, Copy, Debug, PartialEq, Eq)]
pub struct LoanContractState {
    pub lender: Key,
    pub borrower: Key,
    pub item: Key,
    pub escrow_account: Key,
    pub expected_amount: u64,
    pub status: ContractStatus,
}

/// The mathematical value of a loan contract record.
pub struct ContractModel {
    pub lender: Seq<u8>,
    pub borrower: Seq<u8>,
    pub item: Seq<u8>,
    pub escrow_account: Seq<u8>,
    pub expected_amount: u64,
    pub status: ContractStatus,
}

impl View for LoanContractState {
    type V = ContractModel;

    open spec fn view(&self) -> ContractModel {
        ContractModel {
            lender: self.lender@,
            borrower: self.borrower@,
            item: self.item@,
            escrow_account: self.escrow_account@,
            expected_amount: self.expected_amount,
            status: self.status,
        }
    }
}

/// A collateral item record.
#[derive(Debug)]
pub struct ContractItemState {
    pub is_initialized: bool,
    pub name: String,
    pub owner: Key,
    pub user: Option<Key>,
}

/// The mathematical value of a collateral item record.
pub struct ItemModel {
    pub initialized: bool,
    pub name: Seq<char>,
    pub owner: Seq<u8>,
    pub held_by: Option<Seq<u8>>,
}

pub open spec fn key_option_view(k: Option<Key>) -> Option<Seq<u8>> {
    match k {
        Some(k) => Some(k@),
        None => None,
    }
}

impl View for ContractItemState {
    type V = ItemModel;

    open spec fn view(&self) -> ItemModel {
        ItemModel {
            initialized: self.is_initialized,
            name: self.name@,
            owner: self.owner@,
            held_by: key_option_view(self.user),
        }
    }
}

// ---- record layouts ----

/// A string: its UTF-8 byte count as a little-endian `u32`, then the bytes.
pub open spec fn name_image(name: Seq<char>) -> Seq<u8> {
    spec_u32_to_le_bytes(encode_utf8(name).len() as u32) + encode_utf8(name)
}

pub open spec fn bool_image(b: bool) -> Seq<u8> {
    if b {
        seq![1u8]
    } else {
        seq![0u8]
    }
}

/// An optional key: a tag byte 0 for none, or 1 followed by the key.
pub open spec fn key_option_image(k: Option<Seq<u8>>) -> Seq<u8> {
    match k {
        None => seq![0u8],
        Some(k) => seq![1u8] + k,
    }
}

/// The bytes of a collateral item record: flag, name, owner, borrower.
pub open spec fn item_image(m: ItemModel) -> Seq<u8> {
    bool_image(m.initialized) + name_image(m.name) + m.owner + key_option_image(m.held_by)
}

/// The bytes of a loan contract record: the four keys, the amount, the status.
pub open spec fn contract_image(m: ContractModel) -> Seq<u8> {
    m.lender + m.borrower + m.item + m.escrow_account + spec_u64_to_le_bytes(m.expected_amount)
        + spec_u64_to_le_bytes(status_code(m.status))
}

/// The same record with another borrower, or none.
pub open spec fn with_holder(m: ItemModel, held_by: Option<Seq<u8>>) -> ItemModel {
    ItemModel { held_by, ..m }
}

/// A record whose every key has the ledger's width and whose name length fits
/// its prefix.
pub open spec fn item_model_wf(m: ItemModel) -> bool {
    &&& m.owner.len() == 32
    &&& encode_utf8(m.name).len() <= u32::MAX
    &&& (m.held_by matches Some(k) ==> k.len() == 32)
}

pub open spec fn contract_model_wf(m: ContractModel) -> bool {
    &&& m.lender.len() == 32
    &&& m.borrower.len() == 32
    &&& m.item.len() == 32
    &&& m.escrow_account.len() == 32
}

/// The collateral item record at the start of `d`, if `d` begins with one;
/// bytes after it are ignored.
pub open spec fn parse_item(d: Seq<u8>) -> Option<ItemModel> {
    if d.len() < 5 || d[0] > 1 {
        None
    } else {
        let name_end = 5 + spec_u32_from_le_bytes(d.subrange(1, 5)) as int;
        if d.len() < name_end + 33 || !valid_utf8(d.subrange(5, name_end)) {
            None
        } else {
            let tag = d[name_end + 32];
            let base = ItemModel {
                initialized: d[0] == 1,
                name: decode_utf8(d.subrange(5, name_end)),
                owner: d.subrange(name_end, name_end + 32),
                held_by: None,
            };
            if tag == 0 {
                Some(base)
            } else if tag == 1 && d.len() >= name_end + 65 {
                Some(ItemModel { held_by: Some(d.subrange(name_end + 33, name_end + 65)), ..base })
            } else {
                None
            }
        }
    }
}

/// The loan contract record at the start of `d`, if `d` begins with one;
/// bytes after it are ignored.
pub open spec fn parse_contract(d: Seq<u8>) -> Option<ContractModel> {
    if d.len() < 144 {
        None
    } else {
        match status_of_code(spec_u64_from_le_bytes(d.subrange(136, 144))) {
            None => None,
            Some(status) => Some(
                ContractModel {
                    lender: d.subrange(0, 32),
                    borrower: d.subrange(32, 64),
                    item: d.subrange(64, 96),
                    escrow_account: d.subrange(96, 128),
                    expected_amount: spec_u64_from_le_bytes(d.subrange(128, 136)),
                    status,
                },
            ),
        }
    }
}

/// The space reserved for a collateral item named `name`: its record with a
/// borrower present.
pub open spec fn item_space(name: Seq<char>) -> nat {
    70 + encode_utf8(name).len()
}

impl LoanContractState {
    pub fn is_initialized(&self) -> (r: bool)
        ensures
            r == (self.status != ContractStatus::Uninitialized),
    {
        !matches!(self.status, ContractStatus::Uninitialized)
    }

    /// Whether a new contract may be signed over this record.
    pub fn is_signable(&self) -> (r: bool)
        ensures
            r == (self.status == ContractStatus::Uninitialized || self.status
                == ContractStatus::Closed),
    {
        matches!(self.status, ContractStatus::Uninitialized | ContractStatus::Closed)
    }

    pub fn is_active(&self) -> (r: bool)
        ensures
            r == (self.status == ContractStatus::Active),
    {
        matches!(self.status, ContractStatus::Active)
    }

    /// The space a loan contract record takes, rounded up to eight bytes.
    pub fn get_account_size() -> (r: usize)
        ensures
            r == CONTRACT_LEN,
            forall|m: ContractModel| contract_model_wf(m) ==> #[trigger] contract_image(m).len() == r,
    {
        let key_size: usize = KEY_LEN;
        let amount_size: usize = 8;
        let status_size: usize = 8;
        let total_size: usize = 4 * key_size + amount_size + status_size;
        proof {
            assert forall|m: ContractModel| contract_model_wf(m) implies #[trigger] contract_image(m).len()
                == 144 by {
                lemma_auto_spec_u64_to_from_le_bytes();
            }
        }
        (total_size + 7) / 8 * 8
    }

    /// The record's bytes.
    pub fn pack(&self) -> (r: Vec<u8>)
        ensures
            r@ == contract_image(self@),
    {
        let mut out: Vec<u8> = Vec::new();
        push_all(&mut out, self.lender.0.as_slice());
        push_all(&mut out, self.borrower.0.as_slice());
        push_all(&mut out, self.item.0.as_slice());
        push_all(&mut out, self.escrow_account.0.as_slice());
        let amount = u64_to_le_bytes(self.expected_amount);
        push_all(&mut out, amount.as_slice());
        let status = u64_to_le_bytes(u64::from(self.status));
        push_all(&mut out, status.as_slice());
        out
    }

    /// The loan contract record at the start of `data`.
    pub fn unpack(data: &[u8]) -> (r: Result<LoanContractState, LoanContractError>)
        ensures
            match parse_contract(data@) {
                Some(m) => r is Ok && r->Ok_0@ == m,
                None => r == Err::<LoanContractState, LoanContractError>(
                    LoanContractError::MalformedPayload,
                ),
            },
    {
        if data.len() < CONTRACT_LEN {
            return Err(LoanContractError::MalformedPayload);
        }
        let code = u64_from_le_bytes(slice_subrange(data, 136, 144));
        let status = if code == 0 {
            ContractStatus::Uninitialized
        } else if code == 1 {
            ContractStatus::Active
        } else if code == 2 {
            ContractStatus::Closed
        } else {
            return Err(LoanContractError::MalformedPayload);
        };
        Ok(
            LoanContractState {
                lender: Key::from_slice(slice_subrange(data, 0, 32)),
                borrower: Key::from_slice(slice_subrange(data, 32, 64)),
                item: Key::from_slice(slice_subrange(data, 64, 96)),
                escrow_account: Key::from_slice(slice_subrange(data, 96, 128)),
                expected_amount: u64_from_le_bytes(slice_subrange(data, 128, 136)),
                status,
            },
        )
    }
}

impl ContractItemState {
    pub fn is_initialized(&self) -> (r: bool)
        ensures
            r == self.is_initialized,
    {
        self.is_initialized
    }

    /// The space reserved for an item named `name`: enough for its record once
    /// a borrower holds it.
    pub fn get_account_size(name: String) -> (r: usize)
        requires
            item_space(name@) <= usize::MAX,
        ensures
            r == item_space(name@),
            forall|m: ItemModel|
                item_model_wf(m) && m.name == name@ ==> #[trigger] item_image(m).len() <= r,
    {
        proof {
            lemma_auto_spec_u32_to_from_le_bytes();
        }
        let n = name.as_str().as_bytes().len();
        70 + n
    }

    /// The record's bytes.
    pub fn pack(&self) -> (r: Vec<u8>)
        requires
            encode_utf8(self.name@).len() <= u32::MAX,
        ensures
            r@ == item_image(self@),
    {
        let mut out: Vec<u8> = Vec::new();
        out.push(if self.is_initialized { 1u8 } else { 0u8 });
        let bytes = self.name.as_str().as_bytes();
        let len = u32_to_le_bytes(bytes.len() as u32);
        push_all(&mut out, len.as_slice());
        push_all(&mut out, bytes);
        push_all(&mut out, self.owner.0.as_slice());
        match self.user {
            None => {
                out.push(0u8);
            },
            Some(k) => {
                out.push(1u8);
                push_all(&mut out, k.0.as_slice());
            },
        }
        assert(out@ =~= item_image(self@));
        out
    }

    /// The collateral item record at the start of `data`.
    pub fn unpack(data: &[u8]) -> (r: Result<ContractItemState, LoanContractError>)
        ensures
            match parse_item(data@) {
                Some(m) => r is Ok && r->Ok_0@ == m,
                None => r == Err::<ContractItemState, LoanContractError>(
                    LoanContractError::MalformedPayload,
                ),
            },
    {
        if data.len() < 5 || data[0] > 1 {
            return Err(LoanContractError::MalformedPayload);
        }
        let n = u32_from_le_bytes(slice_subrange(data, 1, 5)) as usize;
        if data.len() - 5 < 33 || n > data.len() - 5 - 33 {
            return Err(LoanContractError::MalformedPayload);
        }
        let name_end = 5 + n;
        let frame = slice_subrange(data, 1, name_end);
        proof {
            lemma_auto_spec_u32_to_from_le_bytes();
            assert(frame@.subrange(0, 4) =~= data@.subrange(1, 5));
            assert(frame@.subrange(4, frame@.len() as int) =~= data@.subrange(5, name_end as int));
        }
        let name = match string_from_frame(frame) {
            Some(s) => s,
            None => {
                return Err(LoanContractError::MalformedPayload);
            },
        };
        let owner = Key::from_slice(slice_subrange(data, name_end, name_end + 32));
        let tag = data[name_end + 32];
        let user = if tag == 0 {
            None
        } else if tag == 1 && data.len() - name_end >= 65 {
            Some(Key::from_slice(slice_subrange(data, name_end + 33, name_end + 65)))
        } else {
            return Err(LoanContractError::MalformedPayload);
        };
        Ok(ContractItemState { is_initialized: data[0] == 1, name, owner, user })
    }
}

/// Decoding the bytes of any well-formed collateral item record, whatever
/// follows them, gives back that record field for field.
pub proof fn lemma_item_round_trip(m: ItemModel, rest: Seq<u8>)
    requires
        item_model_wf(m),
    ensures
        parse_item(item_image(m) + rest) == Some(m),
{
    lemma_auto_spec_u32_to_from_le_bytes();
    encode_utf8_valid_utf8(m.name);
    encode_utf8_decode_utf8(m.name);
    let bytes = encode_utf8(m.name);
    let n = bytes.len() as int;
    let d = item_image(m) + rest;
    let len_bytes = spec_u32_to_le_bytes(n as u32);
    assert(len_bytes.len() == 4);
    assert(d.subrange(1, 5) =~= len_bytes);
    assert(spec_u32_from_le_bytes(d.subrange(1, 5)) == n as u32);
    assert(d.subrange(5, 5 + n) =~= bytes);
    assert(d.subrange(5 + n, 5 + n + 32) =~= m.owner);
    match m.held_by {
        Some(k) => {
            assert(d.subrange(5 + n + 33, 5 + n + 65) =~= k);
        },
        None => {},
    }
}

/// Decoding the bytes of any well-formed loan contract record, whatever
/// follows them, gives back that record field for field.
pub proof fn lemma_contract_round_trip(m: ContractModel, rest: Seq<u8>)
    requires
        contract_model_wf(m),
    ensures
        parse_contract(contract_image(m) + rest) == Some(m),
{
    lemma_auto_spec_u64_to_from_le_bytes();
    let d = contract_image(m) + rest;
    assert(d.subrange(0, 32) =~= m.lender);
    assert(d.subrange(32, 64) =~= m.borrower);
    assert(d.subrange(64, 96) =~= m.item);
    assert(d.subrange(96, 128) =~= m.escrow_account);
    assert(d.subrange(128, 136) =~= spec_u64_to_le_bytes(m.expected_amount));
    assert(d.subrange(136, 144) =~= spec_u64_to_le_bytes(status_code(m.status)));
}

/// A record read from bytes is well formed, and its own bytes fit in what it
/// was read from.
pub proof fn lemma_parse_item_fits(d: Seq<u8>)
    requires
        parse_item(d) is Some,
    ensures
        item_model_wf(parse_item(d)->Some_0),
        item_image(parse_item(d)->Some_0).len() <= d.len(),
        item_image(with_holder(parse_item(d)->Some_0, None)).len() <= d.len(),
        forall|k: Seq<u8>|
            k.len() == 32 ==> #[trigger] item_image(with_holder(parse_item(d)->Some_0, Some(k))).len()
                == item_image(with_holder(parse_item(d)->Some_0, None)).len() + 32,
{
    lemma_auto_spec_u32_to_from_le_bytes();
    let n = spec_u32_from_le_bytes(d.subrange(1, 5)) as int;
    let bytes = d.subrange(5, 5 + n);
    decode_utf8_encode_utf8(bytes);
    assert(encode_utf8(decode_utf8(bytes)) == bytes);
}

/// A contract read from bytes is well formed, and its own bytes fit in what
/// it was read from.
pub proof fn lemma_parse_contract_fits(d: Seq<u8>)
    requires
        parse_contract(d) is Some,
    ensures
        contract_model_wf(parse_contract(d)->Some_0),
        forall|m: ContractModel|
            contract_model_wf(m) ==> #[trigger] contract_image(m).len() == CONTRACT_LEN,
        CONTRACT_LEN <= d.len(),
{
    lemma_auto_spec_u64_to_from_le_bytes();
}

} // verus!
