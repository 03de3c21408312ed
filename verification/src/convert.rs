//! Conversion of a block as the node reports it into its canonical form.

use vstd::prelude::*;

verus! {

/// The error of the RLP decoder, carried through unchanged.
#[verifier::external_type_specification]
#[verifier::external_body]
pub struct ExRlpError(alloy_rlp::Error);

/// The value of eight bytes read as a big-endian number.
pub open spec fn be_word(bytes: Seq<u8>) -> int {
    bytes[0] * 0x0100_0000_0000_0000 + bytes[1] * 0x0001_0000_0000_0000 + bytes[2]
        * 0x0000_0100_0000_0000 + bytes[3] * 0x0000_0001_0000_0000 + bytes[4] * 0x0100_0000
        + bytes[5] * 0x0001_0000 + bytes[6] * 0x0100 + bytes[7]
}

/// `ethers_core::types::U256::as_u64`: the lowest limb of a 256-bit number
/// whose three upper limbs are zero. On any other number the call panics,
/// so those are left out.
#[verifier::external_body]
fn u256_as_u64(limbs: [u64; 4]) -> (word: u64)
    requires
        limbs[1] == 0,
        limbs[2] == 0,
        limbs[3] == 0,
    ensures
        word == limbs[0],
{
    ethers_core::types::U256(limbs).as_u64()
}

/// `ethers_core::types::H64::to_low_u64_be`: the eight bytes of the hash read
/// as one big-endian number.
#[verifier::external_body]
fn h64_to_low_u64_be(bytes: [u8; 8]) -> (word: u64)
    ensures
        word == be_word(bytes@),
{
    ethers_core::types::H64(bytes).to_low_u64_be()
}

/// A field that a canonical block cannot do without.
#[derive(Clone, Copy, Debug, PartialEq, Eq, Structural)]
pub enum Field {
    Number,
    GasLimit,
    GasUsed,
    StateRoot,
    TransactionsRoot,
    ReceiptsRoot,
    Nonce,
    MixHash,
    Beneficiary,
    LogsBloom,
}

/// Why a raw block has no canonical form.
#[derive(Clone, Copy, Debug, PartialEq, Eq)]
pub enum ConvertError {
    /// The node left out a mandatory field.
    FieldMissing(Field),
    /// The wire form of the transaction at `index` does not decode.
    TxDecodeError { index: usize, cause: alloy_rlp::Error },
}

/// One withdrawal as the node lists it.
#[derive(Clone, Copy, Debug, PartialEq, Eq)]
pub struct RawWithdrawal {
    pub index: u64,
    pub validator_index: u64,
    pub address: [u8; 20],
    pub amount: [u64; 4],
}

/// A block as the node's RPC interface reports it. 256-bit quantities are
/// four limbs, least significant first. A transaction stands as what the
/// decoding of its wire form gave: the canonical transaction or the failure.
#[derive(Clone, Debug, PartialEq, Eq)]
pub struct RawBlock<T> {
    pub parent_hash: [u8; 32],
    pub uncles_hash: [u8; 32],
    pub author: Option<[u8; 20]>,
    pub state_root: Option<[u8; 32]>,
    pub transactions_root: Option<[u8; 32]>,
    pub receipts_root: Option<[u8; 32]>,
    pub number: Option<u64>,
    pub gas_used: Option<[u64; 4]>,
    pub gas_limit: Option<[u64; 4]>,
    pub extra_data: Vec<u8>,
    pub logs_bloom: Option<[u8; 256]>,
    pub timestamp: [u64; 4],
    pub difficulty: [u64; 4],
    pub transactions: Vec<Result<T, alloy_rlp::Error>>,
    pub mix_hash: Option<[u8; 32]>,
    pub nonce: Option<[u8; 8]>,
    pub base_fee_per_gas: Option<[u64; 4]>,
    pub blob_gas_used: Option<[u64; 4]>,
    pub excess_blob_gas: Option<[u64; 4]>,
    pub withdrawals_root: Option<[u8; 32]>,
    pub withdrawals: Option<Vec<RawWithdrawal>>,
    pub parent_beacon_block_root: Option<[u8; 32]>,
}

/// The header of a canonical block.
#[derive(Clone, Debug, PartialEq, Eq)]
pub struct Header {
    pub parent_hash: [u8; 32],
    pub ommers_hash: [u8; 32],
    pub beneficiary: [u8; 20],
    pub state_root: [u8; 32],
    pub transactions_root: [u8; 32],
    pub receipts_root: [u8; 32],
    pub withdrawals_root: Option<[u8; 32]>,
    pub logs_bloom: [u8; 256],
    pub difficulty: [u64; 4],
    pub number: u64,
    pub gas_limit: u64,
    pub gas_used: u64,
    pub timestamp: u64,
    pub mix_hash: [u8; 32],
    pub nonce: u64,
    pub base_fee_per_gas: Option<u64>,
    pub blob_gas_used: Option<u64>,
    pub excess_blob_gas: Option<u64>,
    pub parent_beacon_block_root: Option<[u8; 32]>,
    pub extra_data: Vec<u8>,
}

/// One withdrawal of a canonical block.
#[derive(Clone, Copy, Debug, PartialEq, Eq)]
pub struct Withdrawal {
    pub index: u64,
    pub validator_index: u64,
    pub address: [u8; 20],
    pub amount: u64,
}

/// The withdrawals container of a canonical block.
#[derive(Clone, Debug, PartialEq, Eq)]
pub struct Withdrawals(pub Vec<Withdrawal>);

impl Withdrawals {
    /// A container of these withdrawals.
    pub fn new(withdrawals: Vec<Withdrawal>) -> (container: Withdrawals)
        ensures
            container.0 == withdrawals,
    {
        Withdrawals(withdrawals)
    }
}

/// A canonical block: what is written to the output.
#[derive(Clone, Debug, PartialEq, Eq)]
pub struct Block<T> {
    pub header: Header,
    pub body: Vec<T>,
    pub ommers: Vec<Header>,
    pub withdrawals: Option<Withdrawals>,
}

/// True when a 256-bit quantity is below 2^64.
pub open spec fn fits_word(limbs: [u64; 4]) -> bool {
    limbs[1] == 0 && limbs[2] == 0 && limbs[3] == 0
}

/// True when an optional quantity is absent or below 2^64.
pub open spec fn fits_word_if_present(quantity: Option<[u64; 4]>) -> bool {
    quantity matches Some(limbs) ==> fits_word(limbs)
}

/// The lowest limb of an optional quantity.
pub open spec fn low_limb(quantity: Option<[u64; 4]>) -> Option<u64> {
    match quantity {
        Some(limbs) => Some(limbs[0]),
        None => None,
    }
}

/// The first mandatory field that the raw block lacks, in the order in which
/// the header is filled.
pub open spec fn missing_field<T>(raw: RawBlock<T>) -> Option<Field> {
    if raw.number is None {
        Some(Field::Number)
    } else if raw.gas_limit is None {
        Some(Field::GasLimit)
    } else if raw.nonce is None {
        Some(Field::Nonce)
    } else if raw.state_root is None {
        Some(Field::StateRoot)
    } else if raw.transactions_root is None {
        Some(Field::TransactionsRoot)
    } else if raw.receipts_root is None {
        Some(Field::ReceiptsRoot)
    } else if raw.mix_hash is None {
        Some(Field::MixHash)
    } else if raw.author is None {
        Some(Field::Beneficiary)
    } else if raw.gas_used is None {
        Some(Field::GasUsed)
    } else if raw.logs_bloom is None {
        Some(Field::LogsBloom)
    } else {
        None
    }
}

/// True when every transaction decoded.
pub open spec fn all_decoded<T>(transactions: Seq<Result<T, alloy_rlp::Error>>) -> bool {
    forall|i: int| 0 <= i < transactions.len() ==> (#[trigger] transactions[i]) is Ok
}

/// True when `index` is the first transaction that did not decode.
pub open spec fn is_first_failure<T>(
    transactions: Seq<Result<T, alloy_rlp::Error>>,
    index: int,
) -> bool {
    &&& 0 <= index < transactions.len()
    &&& transactions[index] is Err
    &&& forall|i: int| 0 <= i < index ==> (#[trigger] transactions[i]) is Ok
}

/// True when `body` holds the decoded transactions, one for one and in order.
pub open spec fn is_body_of<T>(
    body: Seq<T>,
    transactions: Seq<Result<T, alloy_rlp::Error>>,
) -> bool {
    &&& body.len() == transactions.len()
    &&& forall|i: int|
        0 <= i < body.len() ==> (#[trigger] transactions[i]) == Ok::<T, alloy_rlp::Error>(body[i])
}

impl<T> RawBlock<T> {
    /// True when every quantity that the canonical header holds in 64 bits
    /// is below 2^64.
    pub open spec fn quantities_fit(self) -> bool {
        &&& fits_word(self.timestamp)
        &&& fits_word_if_present(self.gas_limit)
        &&& fits_word_if_present(self.gas_used)
        &&& fits_word_if_present(self.base_fee_per_gas)
        &&& fits_word_if_present(self.blob_gas_used)
        &&& fits_word_if_present(self.excess_blob_gas)
    }

    /// Tests `quantities_fit`.
    pub fn check_quantities(&self) -> (fit: bool)
        ensures
            fit == self.quantities_fit(),
    {
        word_fits(&self.timestamp) && word_fits_if_present(&self.gas_limit) && word_fits_if_present(
            &self.gas_used,
        ) && word_fits_if_present(&self.base_fee_per_gas) && word_fits_if_present(
            &self.blob_gas_used,
        ) && word_fits_if_present(&self.excess_blob_gas)
    }
}

/// Tests whether a 256-bit quantity is below 2^64.
fn word_fits(limbs: &[u64; 4]) -> (fit: bool)
    ensures
        fit == fits_word(*limbs),
{
    limbs[1] == 0 && limbs[2] == 0 && limbs[3] == 0
}

/// Tests whether an optional quantity is absent or below 2^64.
fn word_fits_if_present(quantity: &Option<[u64; 4]>) -> (fit: bool)
    ensures
        fit == fits_word_if_present(*quantity),
{
    match quantity {
        Some(limbs) => word_fits(limbs),
        None => true,
    }
}

/// An optional quantity in 64 bits.
fn narrow(quantity: Option<[u64; 4]>) -> (word: Option<u64>)
    requires
        fits_word_if_present(quantity),
    ensures
        word == low_limb(quantity),
{
    match quantity {
        Some(limbs) => Some(u256_as_u64(limbs)),
        None => None,
    }
}

/// True when `header` is the canonical header of `raw`: every hash and the
/// difficulty taken over, every other quantity narrowed to 64 bits, the nonce
/// read as a big-endian number, each optional field present exactly when the
/// raw block has it. Presupposes `raw.quantities_fit()`.
pub open spec fn is_header_of<T>(header: Header, raw: RawBlock<T>) -> bool {
    &&& header.parent_hash == raw.parent_hash
    &&& header.ommers_hash == raw.uncles_hash
    &&& raw.author == Some(header.beneficiary)
    &&& raw.state_root == Some(header.state_root)
    &&& raw.transactions_root == Some(header.transactions_root)
    &&& raw.receipts_root == Some(header.receipts_root)
    &&& header.withdrawals_root == raw.withdrawals_root
    &&& raw.logs_bloom == Some(header.logs_bloom)
    &&& header.difficulty == raw.difficulty
    &&& raw.number == Some(header.number)
    &&& low_limb(raw.gas_limit) == Some(header.gas_limit)
    &&& low_limb(raw.gas_used) == Some(header.gas_used)
    &&& header.timestamp == raw.timestamp[0]
    &&& raw.mix_hash == Some(header.mix_hash)
    &&& raw.nonce matches Some(bytes) && header.nonce == be_word(bytes@)
    &&& header.base_fee_per_gas == low_limb(raw.base_fee_per_gas)
    &&& header.blob_gas_used == low_limb(raw.blob_gas_used)
    &&& header.excess_blob_gas == low_limb(raw.excess_blob_gas)
    &&& header.parent_beacon_block_root == raw.parent_beacon_block_root
    &&& header.extra_data@ == raw.extra_data@
}

/// True when `block` is the canonical form of `raw`: its header is the
/// canonical header, its body the decoded transactions in order, it has no
/// ommers, and it has a withdrawals container, always an empty one, exactly
/// when the raw block lists withdrawals.
pub open spec fn is_canonical_form<T>(block: Block<T>, raw: RawBlock<T>) -> bool {
    &&& is_header_of(block.header, raw)
    &&& is_body_of(block.body@, raw.transactions@)
    &&& block.ommers@.len() == 0
    &&& block.withdrawals is Some <==> raw.withdrawals is Some
    &&& block.withdrawals matches Some(container) ==> container.0@.len() == 0
}

/// What the conversion of `raw` owes: the canonical form when no mandatory
/// field is missing and every transaction decoded; else the first missing
/// field; else the first transaction that did not decode, with its cause.
pub open spec fn is_conversion_of<T>(
    result: Result<Block<T>, ConvertError>,
    raw: RawBlock<T>,
) -> bool {
    match result {
        Ok(block) => {
            &&& missing_field(raw) is None
            &&& all_decoded(raw.transactions@)
            &&& is_canonical_form(block, raw)
        },
        Err(ConvertError::FieldMissing(field)) => missing_field(raw) == Some(field),
        Err(ConvertError::TxDecodeError { index, cause }) => {
            &&& missing_field(raw) is None
            &&& is_first_failure(raw.transactions@, index as int)
            &&& raw.transactions@[index as int] == Err::<T, alloy_rlp::Error>(cause)
        },
    }
}

/// Gathers the decoded transactions in order, or stops at the first one that
/// did not decode.
pub fn collect_transactions<T>(transactions: Vec<Result<T, alloy_rlp::Error>>) -> (result: Result<
    Vec<T>,
    ConvertError,
>)
    ensures
        match result {
            Ok(body) => all_decoded(transactions@) && is_body_of(body@, transactions@),
            Err(ConvertError::TxDecodeError { index, cause }) => {
                &&& is_first_failure(transactions@, index as int)
                &&& transactions@[index as int] == Err::<T, alloy_rlp::Error>(cause)
            },
            Err(ConvertError::FieldMissing(_)) => false,
        },
{
    let mut body: Vec<T> = Vec::new();
    for decoded in it: transactions.into_iter()
        invariant
            it.seq() == transactions@,
            body@.len() == it.index(),
            forall|i: int|
                0 <= i < body@.len() ==> (#[trigger] transactions@[i]) == Ok::<T, alloy_rlp::Error>(
                    body@[i],
                ),
    {
        match decoded {
            Ok(transaction) => {
                body.push(transaction);
            },
            Err(cause) => {
                return Err(ConvertError::TxDecodeError { index: body.len(), cause });
            },
        }
    }
    Ok(body)
}

/// Converts a raw block into its canonical form.
pub fn ethers_block_to_block<T>(block: RawBlock<T>) -> (result: Result<Block<T>, ConvertError>)
    requires
        block.quantities_fit(),
    ensures
        is_conversion_of(result, block),
{
    let RawBlock {
        parent_hash,
        uncles_hash,
        author,
        state_root,
        transactions_root,
        receipts_root,
        number,
        gas_used,
        gas_limit,
        extra_data,
        logs_bloom,
        timestamp,
        difficulty,
        transactions,
        mix_hash,
        nonce,
        base_fee_per_gas,
        blob_gas_used,
        excess_blob_gas,
        withdrawals_root,
        withdrawals,
        parent_beacon_block_root,
    } = block;
    let number: u64 = match number {
        Some(number) => number,
        None => return Err(ConvertError::FieldMissing(Field::Number)),
    };
    let gas_limit: u64 = match gas_limit {
        Some(limbs) => u256_as_u64(limbs),
        None => return Err(ConvertError::FieldMissing(Field::GasLimit)),
    };
    let nonce: u64 = match nonce {
        Some(bytes) => h64_to_low_u64_be(bytes),
        None => return Err(ConvertError::FieldMissing(Field::Nonce)),
    };
    let state_root = match state_root {
        Some(root) => root,
        None => return Err(ConvertError::FieldMissing(Field::StateRoot)),
    };
    let transactions_root = match transactions_root {
        Some(root) => root,
        None => return Err(ConvertError::FieldMissing(Field::TransactionsRoot)),
    };
    let receipts_root = match receipts_root {
        Some(root) => root,
        None => return Err(ConvertError::FieldMissing(Field::ReceiptsRoot)),
    };
    let mix_hash = match mix_hash {
        Some(hash) => hash,
        None => return Err(ConvertError::FieldMissing(Field::MixHash)),
    };
    let beneficiary = match author {
        Some(address) => address,
        None => return Err(ConvertError::FieldMissing(Field::Beneficiary)),
    };
    let gas_used: u64 = match gas_used {
        Some(limbs) => u256_as_u64(limbs),
        None => return Err(ConvertError::FieldMissing(Field::GasUsed)),
    };
    let logs_bloom = match logs_bloom {
        Some(bloom) => bloom,
        None => return Err(ConvertError::FieldMissing(Field::LogsBloom)),
    };
    let header = Header {
        parent_hash,
        ommers_hash: uncles_hash,
        beneficiary,
        state_root,
        transactions_root,
        receipts_root,
        withdrawals_root,
        logs_bloom,
        difficulty,
        number,
        gas_limit,
        gas_used,
        timestamp: u256_as_u64(timestamp),
        mix_hash,
        nonce,
        base_fee_per_gas: narrow(base_fee_per_gas),
        blob_gas_used: narrow(blob_gas_used),
        excess_blob_gas: narrow(excess_blob_gas),
        parent_beacon_block_root,
        extra_data,
    };
    let body = match collect_transactions(transactions) {
        Ok(body) => body,
        Err(error) => return Err(error),
    };
    let withdrawals = match withdrawals {
        Some(_) => Some(Withdrawals::new(Vec::new())),
        None => None,
    };
    Ok(Block { header, body, ommers: Vec::new(), withdrawals })
}

} // verus!
