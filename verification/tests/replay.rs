use engine_launcher::block::{block_header, BodyRoots};
use engine_launcher::replay::{Execution, ExecutionRequest, Replay};
use engine_launcher::state::{AccountChange, AccountInfo, StateChangeset, TouchedAccount};

fn info(nonce: u64) -> AccountInfo {
    AccountInfo { balance: [0; 32], nonce, code_hash: [0; 32], code: None }
}

fn base() -> StateChangeset {
    StateChangeset {
        accounts: vec![AccountChange { address: [1; 20], info: Some(info(1)) }],
        storage: Vec::new(),
        contracts: Vec::new(),
    }
}

fn success(signer: u8, address: u8, nonce: u64) -> Execution {
    Execution::Success {
        signer: [signer; 20],
        touched: vec![TouchedAccount { address: [address; 20], info: info(nonce) }],
    }
}

fn roots() -> BodyRoots {
    BodyRoots { transactions_root: [7; 32], requests_root: None }
}

#[test]
fn transactions_are_executed_on_genesis_with_nonce_zero() {
    let replay = Replay::<&str, u8>::new(base());
    assert_eq!(
        replay.request("tx"),
        ExecutionRequest { transaction: "tx", chain_id: 1337, nonce: Some(0), state_at: 0 }
    );
}

#[test]
fn queued_transactions_come_before_pending_ones() {
    let replay = Replay::<&str, u8>::new(base());
    assert_eq!(replay.order(vec![3, 1], vec![2, 0]), vec![3, 1, 2, 0]);
    assert_eq!(replay.order(Vec::<u8>::new(), vec![2]), vec![2]);
    assert_eq!(replay.order(vec![2], Vec::<u8>::new()), vec![2]);
}

#[test]
fn a_failed_transaction_leaves_no_trace() {
    let mut replay = Replay::<&str, u8>::new(base());
    assert_eq!(replay.on_executed("tx", Execution::Failure), None);
    assert!(replay.body().transactions.is_empty());
    assert!(replay.senders().is_empty());
    assert!(replay.seal([0; 32], &roots()).is_none());
}

#[test]
fn every_write_starts_from_the_same_state() {
    let mut replay = Replay::<&str, u8>::new(base());
    let write = replay.on_executed("a", success(1, 2, 5)).unwrap();
    assert_eq!(
        write.accounts,
        vec![
            AccountChange { address: [1; 20], info: Some(info(1)) },
            AccountChange { address: [2; 20], info: Some(info(5)) },
        ]
    );
    let write = replay.on_executed("b", success(2, 1, 6)).unwrap();
    assert_eq!(write.accounts, vec![AccountChange { address: [1; 20], info: Some(info(6)) }]);
    let write = replay.on_executed("c", success(2, 3, 7)).unwrap();
    assert_eq!(write.accounts[0], AccountChange { address: [1; 20], info: Some(info(1)) });
    assert_eq!(write.accounts.len(), 2);
}

#[test]
fn the_block_lists_what_went_through_in_order() {
    let queued = vec![("q1", Execution::Failure), ("q2", success(2, 2, 1)), ("q3", success(3, 3, 1))];
    let pending = vec![("p1", success(4, 4, 1)), ("p2", Execution::Failure)];
    let mut replay = Replay::<&str, u8>::new(base());
    for (tx, execution) in replay.order(queued, pending) {
        replay.on_executed(tx, execution);
    }
    assert_eq!(replay.body().transactions, vec!["q2", "q3", "p1"]);
    assert_eq!(*replay.senders(), vec![[2; 20], [3; 20], [4; 20]]);
    let sealed = replay.seal([6; 32], &roots()).unwrap();
    assert_eq!(sealed.block.header, block_header([6; 32], [2; 20], &roots()));
    assert_eq!(sealed.block.hash, sealed.block.header.seal_slow());
    assert_eq!(sealed.block.body.transactions, vec!["q2", "q3", "p1"]);
    assert!(sealed.block.body.ommers.is_empty());
    assert_eq!(sealed.block.body.withdrawals, None);
    assert_eq!(sealed.block.body.requests, None);
    assert_eq!(sealed.senders, vec![[2; 20], [3; 20], [4; 20]]);
    assert_eq!(sealed.senders.len(), sealed.block.body.transactions.len());
}
