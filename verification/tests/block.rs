use alloy_primitives::Sealable;
use engine_launcher::block::{
    block_header, on_block_executed, AppendRequest, BlockBody, BlockExecutionOutput,
    BlockExecutionRequest, BodyRoots, Header, SealedBlock, SealedBlockWithSenders, Withdrawal,
};

fn bytes32(hex: &str) -> [u8; 32] {
    let mut bytes = [0; 32];
    for i in 0..32 {
        bytes[i] = u8::from_str_radix(&hex[2 * i..2 * i + 2], 16).unwrap();
    }
    bytes
}

fn roots() -> BodyRoots {
    BodyRoots { transactions_root: [7; 32], requests_root: None }
}

fn empty_ommers_hash() -> [u8; 32] {
    bytes32("1dcc4de8dec75d7aab85b567b6ccd41ad312451b948a7413f0a142fd40d49347")
}

fn block(transactions: Vec<u32>) -> SealedBlock<u32, u8> {
    let header = block_header([1; 32], [2; 20], &roots());
    let hash = header.seal_slow();
    SealedBlock { header, hash, body: BlockBody { transactions, ..BlockBody::empty() } }
}

#[test]
fn the_hash_of_the_mainnet_genesis_header() {
    let empty_root = bytes32("56e81f171bcc55a6ff8345e692c0f86e5b48e01b996cadc001622fb5e363b421");
    let mut difficulty = [0; 32];
    difficulty[27] = 4;
    let header = Header {
        parent_hash: [0; 32],
        ommers_hash: empty_ommers_hash(),
        beneficiary: [0; 20],
        state_root: bytes32("d7f8974fb5ac78d9ac099b9ad5018bedc2ce0a72dad1827a1709da30580f0544"),
        transactions_root: empty_root,
        receipts_root: empty_root,
        logs_bloom: [0; 256],
        difficulty,
        number: 0,
        gas_limit: 5000,
        gas_used: 0,
        timestamp: 0,
        extra_data: bytes32("11bbe8db4e347b4e8c937c1c8370e4b5ed33adb3db69cbdb7a38e1e50b1b82fa")
            .to_vec(),
        mix_hash: [0; 32],
        nonce: [0, 0, 0, 0, 0, 0, 0, 0x42],
        base_fee_per_gas: None,
        withdrawals_root: None,
        blob_gas_used: None,
        excess_blob_gas: None,
        parent_beacon_block_root: None,
        requests_root: None,
    };
    assert_eq!(
        header.seal_slow(),
        bytes32("d4e56740f876aef8c010b86a40d5f56745a118d0906a34e69aec8c0db1cb8fa3")
    );
}

#[test]
fn every_field_reaches_the_hash() {
    let header = Header {
        parent_hash: [1; 32],
        ommers_hash: [2; 32],
        beneficiary: [3; 20],
        state_root: [4; 32],
        transactions_root: [5; 32],
        receipts_root: [6; 32],
        logs_bloom: [7; 256],
        difficulty: [8; 32],
        number: 9,
        gas_limit: 10,
        gas_used: 11,
        timestamp: 12,
        extra_data: vec![13, 14],
        mix_hash: [15; 32],
        nonce: [16; 8],
        base_fee_per_gas: Some(17),
        withdrawals_root: Some([18; 32]),
        blob_gas_used: Some(19),
        excess_blob_gas: Some(20),
        parent_beacon_block_root: Some([21; 32]),
        requests_root: Some([22; 32]),
    };
    let same = alloy_consensus::Header {
        parent_hash: [1; 32].into(),
        ommers_hash: [2; 32].into(),
        beneficiary: [3; 20].into(),
        state_root: [4; 32].into(),
        transactions_root: [5; 32].into(),
        receipts_root: [6; 32].into(),
        logs_bloom: [7; 256].into(),
        difficulty: alloy_primitives::U256::from_be_bytes([8; 32]),
        number: 9,
        gas_limit: 10,
        gas_used: 11,
        timestamp: 12,
        extra_data: vec![13, 14].into(),
        mix_hash: [15; 32].into(),
        nonce: [16; 8].into(),
        base_fee_per_gas: Some(17),
        withdrawals_root: Some([18; 32].into()),
        blob_gas_used: Some(19),
        excess_blob_gas: Some(20),
        parent_beacon_block_root: Some([21; 32].into()),
        requests_root: Some([22; 32].into()),
    };
    assert_eq!(header.seal_slow(), same.hash_slow().0);
    assert_eq!(header.seal_slow(), same.seal_slow().seal().0);
}

#[test]
fn the_header_that_follows_genesis() {
    let header = block_header([1; 32], [2; 20], &roots());
    assert_eq!(
        header,
        Header {
            parent_hash: [1; 32],
            ommers_hash: empty_ommers_hash(),
            beneficiary: [2; 20],
            state_root: [0; 32],
            transactions_root: [7; 32],
            receipts_root: [0; 32],
            logs_bloom: [0; 256],
            difficulty: [0; 32],
            number: 1,
            gas_limit: 30_000_000,
            gas_used: 0,
            timestamp: 0,
            extra_data: vec![],
            mix_hash: [0; 32],
            nonce: [0; 8],
            base_fee_per_gas: None,
            withdrawals_root: None,
            blob_gas_used: None,
            excess_blob_gas: None,
            parent_beacon_block_root: Some([0; 32]),
            requests_root: None,
        }
    );
    let with_requests = BodyRoots { requests_root: Some([3; 32]), ..roots() };
    assert_eq!(block_header([1; 32], [2; 20], &with_requests).requests_root, Some([3; 32]));
}

#[test]
fn the_ommers_hash_is_that_of_an_empty_list() {
    let header = block_header([1; 32], [2; 20], &roots());
    assert_eq!(header.ommers_hash, alloy_consensus::EMPTY_OMMER_ROOT_HASH.0);
    let empty_list = [0xc0];
    assert_eq!(header.ommers_hash, alloy_primitives::keccak256(empty_list).0);
}

#[test]
fn the_same_parent_beneficiary_and_roots_give_the_same_hash() {
    let one = block_header([1; 32], [2; 20], &roots()).seal_slow();
    assert_eq!(one, block_header([1; 32], [2; 20], &roots()).seal_slow());
    assert_ne!(one, block_header([9; 32], [2; 20], &roots()).seal_slow());
    assert_ne!(one, block_header([1; 32], [9; 20], &roots()).seal_slow());
}

#[test]
fn an_empty_body_holds_nothing() {
    let body = BlockBody::<u32, u8>::empty();
    assert!(body.transactions.is_empty());
    assert!(body.ommers.is_empty());
    assert_eq!(body.withdrawals, None::<Vec<Withdrawal>>);
    assert_eq!(body.requests, None);
}

#[test]
fn senders_are_paired_with_as_many_transactions() {
    assert!(SealedBlockWithSenders::new(block(vec![1, 2]), vec![[1; 20]]).is_none());
    assert!(SealedBlockWithSenders::new(block(vec![1]), vec![[1; 20], [2; 20]]).is_none());
    let paired = SealedBlockWithSenders::new(block(vec![1]), vec![[1; 20]]).unwrap();
    assert_eq!(paired.block, block(vec![1]));
    assert_eq!(paired.senders, vec![[1; 20]]);
}

#[test]
fn a_block_is_executed_on_genesis_at_total_difficulty_zero() {
    let paired = SealedBlockWithSenders::new(block(vec![1]), vec![[1; 20]]).unwrap();
    assert_eq!(
        paired.execution_request(),
        BlockExecutionRequest { total_difficulty: [0; 32], state_at: 0 }
    );
}

#[test]
fn an_executed_block_is_appended_under_its_number() {
    let paired = SealedBlockWithSenders::new(block(vec![1]), vec![[1; 20]]).unwrap();
    let output = BlockExecutionOutput { state: "bundle", receipts: vec!["receipt"] };
    let append: AppendRequest<u32, u8, &str, Vec<&str>, Vec<u16>, u64> =
        on_block_executed(paired, Some(output)).unwrap();
    assert_eq!(append.blocks.len(), 1);
    assert_eq!(append.blocks[0].block, block(vec![1]));
    assert_eq!(append.outcome.bundle, "bundle");
    assert_eq!(append.outcome.receipts, vec!["receipt"]);
    assert_eq!(append.outcome.first_block, 1);
    assert_eq!(append.outcome.first_block, append.blocks[0].block.header.number);
    assert!(append.outcome.requests.is_empty());
    assert_eq!(append.hashed_state, Vec::<u16>::new());
    assert_eq!(append.trie_updates, 0);
}

#[test]
fn a_block_that_failed_is_not_appended() {
    let paired = SealedBlockWithSenders::new(block(vec![1]), vec![[1; 20]]).unwrap();
    let output: Option<BlockExecutionOutput<u8, u8>> = None;
    let append: Option<AppendRequest<u32, u8, u8, u8, u16, u64>> =
        on_block_executed(paired, output);
    assert!(append.is_none());
}
