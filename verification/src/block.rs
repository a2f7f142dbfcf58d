//! The block that collects the replayed transactions: its header, its hash,
//! and what is handed to the database once it has been executed.
use crate::primitives::{copy_bytes, zeros, Address, Bloom, B256, B64, U256};
use alloy_primitives::Sealable;
use vstd::prelude::*;

verus! {

/// The number of the genesis block, on whose state everything is executed.
pub const GENESIS_NUMBER: u64 = 0;

/// The number of the block, the one after genesis.
pub const BLOCK_NUMBER: u64 = 1;

/// The gas limit of the block.
pub const BLOCK_GAS_LIMIT: u64 = 30_000_000;

/// A block header.
#[derive(Debug, PartialEq, Eq)]
pub struct Header {
    pub parent_hash: B256,
    pub ommers_hash: B256,
    pub beneficiary: Address,
    pub state_root: B256,
    pub transactions_root: B256,
    pub receipts_root: B256,
    pub logs_bloom: Bloom,
    pub difficulty: U256,
    pub number: u64,
    pub gas_limit: u64,
    pub gas_used: u64,
    pub timestamp: u64,
    pub extra_data: Vec<u8>,
    pub mix_hash: B256,
    pub nonce: B64,
    pub base_fee_per_gas: Option<u64>,
    pub withdrawals_root: Option<B256>,
    pub blob_gas_used: Option<u64>,
    pub excess_blob_gas: Option<u64>,
    pub parent_beacon_block_root: Option<B256>,
    pub requests_root: Option<B256>,
}

/// The bytes of a root that may be absent.
pub open spec fn root_view(root: Option<B256>) -> Option<Seq<u8>> {
    match root {
        Some(root) => Some(root@),
        None => None,
    }
}

/// The hash under which a header with these fields is known: the Keccak-256
/// hash of its RLP encoding.
pub uninterp spec fn header_hash(
    parent_hash: Seq<u8>,
    ommers_hash: Seq<u8>,
    beneficiary: Seq<u8>,
    state_root: Seq<u8>,
    transactions_root: Seq<u8>,
    receipts_root: Seq<u8>,
    logs_bloom: Seq<u8>,
    difficulty: Seq<u8>,
    number: u64,
    gas_limit: u64,
    gas_used: u64,
    timestamp: u64,
    extra_data: Seq<u8>,
    mix_hash: Seq<u8>,
    nonce: Seq<u8>,
    base_fee_per_gas: Option<u64>,
    withdrawals_root: Option<Seq<u8>>,
    blob_gas_used: Option<u64>,
    excess_blob_gas: Option<u64>,
    parent_beacon_block_root: Option<Seq<u8>>,
    requests_root: Option<Seq<u8>>,
) -> Seq<u8>;

/// Calls `alloy_primitives::Sealable::seal_slow` on an
/// `alloy_consensus::Header` with the fields given, and reads the seal. The
/// contract claims that the seal is a function of the fields alone: the crate
/// encodes the header as RLP and hashes the bytes with Keccak-256.
#[verifier::external_body]
fn seal_header(
    parent_hash: B256,
    ommers_hash: B256,
    beneficiary: Address,
    state_root: B256,
    transactions_root: B256,
    receipts_root: B256,
    logs_bloom: Bloom,
    difficulty: U256,
    number: u64,
    gas_limit: u64,
    gas_used: u64,
    timestamp: u64,
    extra_data: Vec<u8>,
    mix_hash: B256,
    nonce: B64,
    base_fee_per_gas: Option<u64>,
    withdrawals_root: Option<B256>,
    blob_gas_used: Option<u64>,
    excess_blob_gas: Option<u64>,
    parent_beacon_block_root: Option<B256>,
    requests_root: Option<B256>,
) -> (hash: B256)
    ensures
        hash@ == header_hash(
            parent_hash@,
            ommers_hash@,
            beneficiary@,
            state_root@,
            transactions_root@,
            receipts_root@,
            logs_bloom@,
            difficulty@,
            number,
            gas_limit,
            gas_used,
            timestamp,
            extra_data@,
            mix_hash@,
            nonce@,
            base_fee_per_gas,
            root_view(withdrawals_root),
            blob_gas_used,
            excess_blob_gas,
            root_view(parent_beacon_block_root),
            root_view(requests_root),
        ),
{
    let header = alloy_consensus::Header {
        parent_hash: parent_hash.into(), ommers_hash: ommers_hash.into(),
        beneficiary: beneficiary.into(), state_root: state_root.into(),
        transactions_root: transactions_root.into(), receipts_root: receipts_root.into(),
        logs_bloom: logs_bloom.into(), extra_data: extra_data.into(),
        difficulty: alloy_primitives::U256::from_be_bytes(difficulty),
        mix_hash: mix_hash.into(), nonce: nonce.into(),
        withdrawals_root: withdrawals_root.map(Into::into),
        parent_beacon_block_root: parent_beacon_block_root.map(Into::into),
        requests_root: requests_root.map(Into::into),
        number, gas_limit, gas_used, timestamp, base_fee_per_gas, blob_gas_used, excess_blob_gas,
    };
    header.seal_slow().seal().0
}

impl Header {
    /// The hash under which this header is known.
    pub open spec fn hash(self) -> Seq<u8> {
        header_hash(
            self.parent_hash@,
            self.ommers_hash@,
            self.beneficiary@,
            self.state_root@,
            self.transactions_root@,
            self.receipts_root@,
            self.logs_bloom@,
            self.difficulty@,
            self.number,
            self.gas_limit,
            self.gas_used,
            self.timestamp,
            self.extra_data@,
            self.mix_hash@,
            self.nonce@,
            self.base_fee_per_gas,
            root_view(self.withdrawals_root),
            self.blob_gas_used,
            self.excess_blob_gas,
            root_view(self.parent_beacon_block_root),
            root_view(self.requests_root),
        )
    }

    /// Calculates the hash of this header.
    pub fn seal_slow(&self) -> (hash: B256)
        ensures
            hash@ == self.hash(),
            hash@ == header_hash(
                self.parent_hash@,
                self.ommers_hash@,
                self.beneficiary@,
                self.state_root@,
                self.transactions_root@,
                self.receipts_root@,
                self.logs_bloom@,
                self.difficulty@,
                self.number,
                self.gas_limit,
                self.gas_used,
                self.timestamp,
                self.extra_data@,
                self.mix_hash@,
                self.nonce@,
                self.base_fee_per_gas,
                root_view(self.withdrawals_root),
                self.blob_gas_used,
                self.excess_blob_gas,
                root_view(self.parent_beacon_block_root),
                root_view(self.requests_root),
            ),
    {
        seal_header(
            self.parent_hash,
            self.ommers_hash,
            self.beneficiary,
            self.state_root,
            self.transactions_root,
            self.receipts_root,
            self.logs_bloom,
            self.difficulty,
            self.number,
            self.gas_limit,
            self.gas_used,
            self.timestamp,
            copy_bytes(&self.extra_data),
            self.mix_hash,
            self.nonce,
            self.base_fee_per_gas,
            self.withdrawals_root,
            self.blob_gas_used,
            self.excess_blob_gas,
            self.parent_beacon_block_root,
            self.requests_root,
        )
    }
}

/// What the lists of a block body hash to.
#[derive(Debug, PartialEq, Eq, Clone, Copy)]
pub struct BodyRoots {
    pub transactions_root: B256,
    pub requests_root: Option<B256>,
}

/// The hash of an empty list of ommers: the Keccak-256 hash of the RLP
/// encoding of an empty list.
pub open spec fn empty_ommers_hash() -> Seq<u8> {
    seq![
        0x1du8, 0xcc, 0x4d, 0xe8, 0xde, 0xc7, 0x5d, 0x7a,
        0xab, 0x85, 0xb5, 0x67, 0xb6, 0xcc, 0xd4, 0x1a,
        0xd3, 0x12, 0x45, 0x1b, 0x94, 0x8a, 0x74, 0x13,
        0xf0, 0xa1, 0x42, 0xfd, 0x40, 0xd4, 0x93, 0x47,
    ]
}

/// The header of the block that follows `parent_hash`: number, gas limit,
/// parent, beneficiary and the roots of the body are set, the ommers hash is
/// that of the empty list that the body holds, the parent beacon block root is
/// zero, every other hash and counter is zero, and every other optional field
/// is absent.
pub open spec fn is_block_header(
    header: Header,
    parent_hash: Seq<u8>,
    beneficiary: Seq<u8>,
    roots: BodyRoots,
) -> bool {
    &&& header.parent_hash@ == parent_hash
    &&& header.ommers_hash@ == empty_ommers_hash()
    &&& header.beneficiary@ == beneficiary
    &&& header.state_root@ == zeros(32)
    &&& header.transactions_root@ == roots.transactions_root@
    &&& header.receipts_root@ == zeros(32)
    &&& header.logs_bloom@ == zeros(256)
    &&& header.difficulty@ == zeros(32)
    &&& header.number == BLOCK_NUMBER
    &&& header.gas_limit == BLOCK_GAS_LIMIT
    &&& header.gas_used == 0
    &&& header.timestamp == 0
    &&& header.extra_data@ == Seq::<u8>::empty()
    &&& header.mix_hash@ == zeros(32)
    &&& header.nonce@ == zeros(8)
    &&& header.base_fee_per_gas is None
    &&& header.withdrawals_root is None
    &&& header.blob_gas_used is None
    &&& header.excess_blob_gas is None
    &&& root_view(header.parent_beacon_block_root) == Some(zeros(32))
    &&& root_view(header.requests_root) == root_view(roots.requests_root)
}

/// The header of the block that follows `parent_hash`.
pub fn block_header(parent_hash: B256, beneficiary: Address, roots: &BodyRoots) -> (header: Header)
    ensures
        is_block_header(header, parent_hash@, beneficiary@, *roots),
        header.parent_hash@ == parent_hash@,
        header.beneficiary@ == beneficiary@,
        header.transactions_root@ == roots.transactions_root@,
        header.requests_root is Some <==> roots.requests_root is Some,
        header.requests_root matches Some(root) ==> root@ == roots.requests_root->0@,
        header.ommers_hash@ == empty_ommers_hash(),
        header.number == 1,
        header.gas_limit == 30_000_000,
{
    let zero: B256 = [0u8; 32];
    let bloom: Bloom = [0u8; 256];
    let nonce: B64 = [0u8; 8];
    let ommers_hash: B256 = [
        0x1du8, 0xcc, 0x4d, 0xe8, 0xde, 0xc7, 0x5d, 0x7a,
        0xab, 0x85, 0xb5, 0x67, 0xb6, 0xcc, 0xd4, 0x1a,
        0xd3, 0x12, 0x45, 0x1b, 0x94, 0x8a, 0x74, 0x13,
        0xf0, 0xa1, 0x42, 0xfd, 0x40, 0xd4, 0x93, 0x47,
    ];
    assert(zero@ =~= zeros(32));
    assert(ommers_hash@ =~= empty_ommers_hash());
    assert(bloom@ =~= zeros(256));
    assert(nonce@ =~= zeros(8));
    Header {
        parent_hash,
        ommers_hash,
        beneficiary,
        state_root: zero,
        transactions_root: roots.transactions_root,
        receipts_root: zero,
        logs_bloom: bloom,
        difficulty: zero,
        number: BLOCK_NUMBER,
        gas_limit: BLOCK_GAS_LIMIT,
        gas_used: 0,
        timestamp: 0,
        extra_data: Vec::new(),
        mix_hash: zero,
        nonce,
        base_fee_per_gas: None,
        withdrawals_root: None,
        blob_gas_used: None,
        excess_blob_gas: None,
        parent_beacon_block_root: Some(zero),
        requests_root: roots.requests_root,
    }
}

/// A block header holds the parent hash, the beneficiary and the roots that it
/// was made for, byte for byte, the hash of the empty list of ommers, the
/// number one and the gas limit, and is zero, empty or absent elsewhere.
pub proof fn law_block_header_field_by_field(
    header: Header,
    parent_hash: Seq<u8>,
    beneficiary: Seq<u8>,
    roots: BodyRoots,
)
    requires
        is_block_header(header, parent_hash, beneficiary, roots),
    ensures
        header.parent_hash@ == parent_hash,
        header.ommers_hash@ == empty_ommers_hash(),
        header.beneficiary@ == beneficiary,
        forall|i: int| 0 <= i < 32 ==> #[trigger] header.state_root@[i] == 0,
        header.transactions_root@ == roots.transactions_root@,
        forall|i: int| 0 <= i < 32 ==> #[trigger] header.receipts_root@[i] == 0,
        forall|i: int| 0 <= i < 256 ==> #[trigger] header.logs_bloom@[i] == 0,
        forall|i: int| 0 <= i < 32 ==> #[trigger] header.difficulty@[i] == 0,
        header.number == 1,
        header.gas_limit == 30_000_000,
        header.gas_used == 0,
        header.timestamp == 0,
        header.extra_data@.len() == 0,
        forall|i: int| 0 <= i < 32 ==> #[trigger] header.mix_hash@[i] == 0,
        forall|i: int| 0 <= i < 8 ==> #[trigger] header.nonce@[i] == 0,
        header.base_fee_per_gas is None,
        header.withdrawals_root is None,
        header.blob_gas_used is None,
        header.excess_blob_gas is None,
        header.parent_beacon_block_root matches Some(root) && forall|i: int|
            0 <= i < 32 ==> #[trigger] root@[i] == 0,
        header.requests_root is Some <==> roots.requests_root is Some,
        header.requests_root matches Some(root) ==> root@ == roots.requests_root->0@,
{
    assert(forall|i: int| 0 <= i < 32 ==> zeros(32)[i] == 0);
}

/// The hash of an empty list of ommers has the length of a hash.
pub proof fn law_empty_ommers_hash_is_a_hash()
    ensures
        empty_ommers_hash().len() == 32,
{
}

/// The hash of a header is the hash of all its fields, whatever they hold.
pub proof fn law_hash_covers_every_field(header: Header)
    ensures
        header.hash() == header_hash(
            header.parent_hash@,
            header.ommers_hash@,
            header.beneficiary@,
            header.state_root@,
            header.transactions_root@,
            header.receipts_root@,
            header.logs_bloom@,
            header.difficulty@,
            header.number,
            header.gas_limit,
            header.gas_used,
            header.timestamp,
            header.extra_data@,
            header.mix_hash@,
            header.nonce@,
            header.base_fee_per_gas,
            match header.withdrawals_root {
                Some(root) => Some(root@),
                None => None,
            },
            header.blob_gas_used,
            header.excess_blob_gas,
            match header.parent_beacon_block_root {
                Some(root) => Some(root@),
                None => None,
            },
            match header.requests_root {
                Some(root) => Some(root@),
                None => None,
            },
        ),
{
}

/// The block hash is settled by the parent, the beneficiary and the roots of
/// the body.
pub proof fn law_block_hash_is_determined(
    one: Header,
    other: Header,
    parent_hash: Seq<u8>,
    beneficiary: Seq<u8>,
    roots: BodyRoots,
)
    requires
        is_block_header(one, parent_hash, beneficiary, roots),
        is_block_header(other, parent_hash, beneficiary, roots),
    ensures
        one.hash() == other.hash(),
{
}

/// A withdrawal from the consensus layer.
#[derive(Debug, PartialEq, Eq, Clone, Copy)]
pub struct Withdrawal {
    pub index: u64,
    pub validator_index: u64,
    pub address: Address,
    pub amount: u64,
}

/// A block body, over the transactions `T` and the requests `Q` of a block.
#[derive(Debug, PartialEq, Eq)]
pub struct BlockBody<T, Q> {
    pub transactions: Vec<T>,
    pub ommers: Vec<Header>,
    pub withdrawals: Option<Vec<Withdrawal>>,
    pub requests: Option<Q>,
}

impl<T, Q> BlockBody<T, Q> {
    /// The body carries transactions and nothing else.
    pub open spec fn only_transactions(self) -> bool {
        &&& self.ommers@ == Seq::<Header>::empty()
        &&& self.withdrawals is None
        &&& self.requests is None
    }

    /// A body without transactions.
    pub fn empty() -> (body: Self)
        ensures
            body.transactions@ == Seq::<T>::empty(),
            body.only_transactions(),
            body.ommers@.len() == 0,
            body.withdrawals is None,
            body.requests is None,
    {
        BlockBody {
            transactions: Vec::new(),
            ommers: Vec::new(),
            withdrawals: None,
            requests: None,
        }
    }
}

/// A body of transactions alone has no ommers, no withdrawals and no requests,
/// whatever its transactions are.
pub proof fn law_only_transactions_means_nothing_else<T, Q>(body: BlockBody<T, Q>)
    ensures
        body.only_transactions() <==> body.ommers@.len() == 0 && body.withdrawals is None
            && body.requests is None,
{
    assert(body.ommers@.len() == 0 ==> body.ommers@ =~= Seq::<Header>::empty());
}

/// A block, with the hash of its header.
#[derive(Debug, PartialEq, Eq)]
pub struct SealedBlock<T, Q> {
    pub header: Header,
    pub hash: B256,
    pub body: BlockBody<T, Q>,
}

/// A sealed block, with the sender of each of its transactions.
#[derive(Debug, PartialEq, Eq)]
pub struct SealedBlockWithSenders<T, Q> {
    pub block: SealedBlock<T, Q>,
    pub senders: Vec<Address>,
}

/// The execution of a block that the program is asked for.
#[derive(Debug, PartialEq, Eq, Clone, Copy)]
pub struct BlockExecutionRequest {
    /// The total difficulty of the chain at the block.
    pub total_difficulty: U256,
    /// The block on whose state it is executed.
    pub state_at: u64,
}

impl<T, Q> SealedBlockWithSenders<T, Q> {
    /// Pairs a block with the senders of its transactions. `None` where there
    /// are more or fewer senders than transactions.
    pub fn new(block: SealedBlock<T, Q>, senders: Vec<Address>) -> (paired: Option<Self>)
        ensures
            paired == (if block.body.transactions@.len() == senders@.len() {
                Some(SealedBlockWithSenders { block, senders })
            } else {
                None
            }),
    {
        if block.body.transactions.len() == senders.len() {
            Some(SealedBlockWithSenders { block, senders })
        } else {
            None
        }
    }

    /// The execution to ask for a block: on the genesis state, at a total
    /// difficulty of zero.
    pub fn execution_request(&self) -> (request: BlockExecutionRequest)
        ensures
            request.total_difficulty@ == zeros(32),
            request.state_at == GENESIS_NUMBER,
    {
        let total_difficulty: U256 = [0u8; 32];
        assert(total_difficulty@ =~= zeros(32));
        BlockExecutionRequest { total_difficulty, state_at: GENESIS_NUMBER }
    }
}

/// What the execution of a block gave: the state bundle `B` and the receipts
/// `R`.
#[derive(Debug, PartialEq, Eq)]
pub struct BlockExecutionOutput<B, R> {
    pub state: B,
    pub receipts: R,
}

/// What is stored of an execution.
#[derive(Debug, PartialEq, Eq)]
pub struct ExecutionOutcome<B, R, Q> {
    pub bundle: B,
    pub receipts: R,
    pub first_block: u64,
    pub requests: Vec<Q>,
}

/// Blocks to append to the database, with the outcome of executing them, the
/// hashed state `H` and the trie updates `U`.
#[derive(Debug, PartialEq, Eq)]
pub struct AppendRequest<T, Q, B, R, H, U> {
    pub blocks: Vec<SealedBlockWithSenders<T, Q>>,
    pub outcome: ExecutionOutcome<B, R, Q>,
    pub hashed_state: H,
    pub trie_updates: U,
}

/// `append` is what the execution of `block` with `output` has the database
/// append: the block alone, with the outcome filed under its number and
/// without requests, and with the hashed state and the trie updates that their
/// types default to. Nothing where the execution failed.
pub open spec fn is_append_of<T, Q, B, R, H: Default, U: Default>(
    append: Option<AppendRequest<T, Q, B, R, H, U>>,
    block: SealedBlockWithSenders<T, Q>,
    output: Option<BlockExecutionOutput<B, R>>,
) -> bool {
    match output {
        Some(output) => append matches Some(request) && {
            &&& request.blocks@ == seq![block]
            &&& request.outcome.bundle == output.state
            &&& request.outcome.receipts == output.receipts
            &&& request.outcome.first_block == BLOCK_NUMBER
            &&& request.outcome.requests@ == Seq::<Q>::empty()
            &&& call_ensures(H::default, (), request.hashed_state)
            &&& call_ensures(U::default, (), request.trie_updates)
        },
        None => append is None,
    }
}

/// What to append once the block has been executed.
pub fn on_block_executed<T, Q, B, R, H: Default, U: Default>(
    block: SealedBlockWithSenders<T, Q>,
    output: Option<BlockExecutionOutput<B, R>>,
) -> (append: Option<AppendRequest<T, Q, B, R, H, U>>)
    ensures
        is_append_of(append, block, output),
        append is Some <==> output is Some,
        append matches Some(request) ==> request.blocks@ == seq![block],
        append matches Some(request) ==> request.outcome.bundle == output->0.state,
        append matches Some(request) ==> request.outcome.receipts == output->0.receipts,
        append matches Some(request) ==> request.outcome.first_block == 1,
        append matches Some(request) ==> request.outcome.requests@.len() == 0,
{
    match output {
        Some(output) => {
            let mut blocks: Vec<SealedBlockWithSenders<T, Q>> = Vec::new();
            blocks.push(block);
            assert(blocks@ =~= seq![block]);
            Some(
                AppendRequest {
                    blocks,
                    outcome: ExecutionOutcome {
                        bundle: output.state,
                        receipts: output.receipts,
                        first_block: BLOCK_NUMBER,
                        requests: Vec::new(),
                    },
                    hashed_state: H::default(),
                    trie_updates: U::default(),
                },
            )
        },
        None => None,
    }
}

/// There is something to append exactly where the execution succeeded,
/// whatever the block holds: that one block, with the bundle and the receipts
/// that the execution gave, filed under block one, without requests, and with
/// default hashed state and trie updates.
pub proof fn law_every_executed_block_is_appended<T, Q, B, R, H: Default, U: Default>(
    append: Option<AppendRequest<T, Q, B, R, H, U>>,
    block: SealedBlockWithSenders<T, Q>,
    output: Option<BlockExecutionOutput<B, R>>,
)
    requires
        is_append_of(append, block, output),
    ensures
        append is Some <==> output is Some,
        append matches Some(request) ==> request.blocks@.len() == 1 && request.blocks@[0] == block,
        append matches Some(request) ==> request.outcome.bundle == output->0.state,
        append matches Some(request) ==> request.outcome.receipts == output->0.receipts,
        append matches Some(request) ==> request.outcome.first_block == 1,
        append matches Some(request) ==> request.outcome.requests@.len() == 0,
        append matches Some(request) ==> call_ensures(H::default, (), request.hashed_state),
        append matches Some(request) ==> call_ensures(U::default, (), request.trie_updates),
{
}

/// The first block that an outcome is filed under is the number of the block
/// that is appended with it.
pub proof fn law_outcome_is_filed_under_its_block<T, Q, B, R, H: Default, U: Default>(
    block: SealedBlockWithSenders<T, Q>,
    output: BlockExecutionOutput<B, R>,
    append: AppendRequest<T, Q, B, R, H, U>,
    parent_hash: Seq<u8>,
    beneficiary: Seq<u8>,
    roots: BodyRoots,
)
    requires
        is_block_header(block.block.header, parent_hash, beneficiary, roots),
        is_append_of(Some(append), block, Some(output)),
    ensures
        append.blocks@.len() == 1,
        append.outcome.first_block == append.blocks@[0].block.header.number,
{
}

} // verus!
