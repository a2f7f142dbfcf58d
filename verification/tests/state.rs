use engine_launcher::state::{
    position, upsert, AccountChange, AccountInfo, ContractCode, StateChangeset, StorageChange,
    TouchedAccount,
};

fn info(nonce: u64) -> AccountInfo {
    AccountInfo {
        balance: [nonce as u8; 32],
        nonce,
        code_hash: [9; 32],
        code: Some(vec![nonce as u8, 0x60]),
    }
}

fn change(address: u8, info: Option<AccountInfo>) -> AccountChange {
    AccountChange { address: [address; 20], info }
}

fn touched(address: u8, nonce: u64) -> TouchedAccount {
    TouchedAccount { address: [address; 20], info: info(nonce) }
}

fn changeset(accounts: Vec<AccountChange>) -> StateChangeset {
    StateChangeset {
        accounts,
        storage: vec![StorageChange {
            address: [5; 20],
            wipe_storage: true,
            slots: vec![([1; 32], [2; 32]), ([3; 32], [4; 32])],
        }],
        contracts: vec![ContractCode { code_hash: [6; 32], code: vec![1, 2, 3] }],
    }
}

#[test]
fn position_is_that_of_the_first_entry() {
    let accounts = vec![change(1, None), change(2, None), change(2, Some(info(1)))];
    assert_eq!(position(&accounts, &[2; 20]), Some(1));
    assert_eq!(position(&accounts, &[1; 20]), Some(0));
    assert_eq!(position(&accounts, &[3; 20]), None);
    let mut close = [2; 20];
    close[19] = 3;
    assert_eq!(position(&accounts, &close), None);
}

#[test]
fn an_upsert_rewrites_the_first_entry_or_appends() {
    let mut accounts = vec![change(1, None), change(2, None), change(2, Some(info(1)))];
    upsert(&mut accounts, &touched(2, 7));
    assert_eq!(
        accounts,
        vec![change(1, None), change(2, Some(info(7))), change(2, Some(info(1)))]
    );
    upsert(&mut accounts, &touched(3, 8));
    assert_eq!(accounts.len(), 4);
    assert_eq!(accounts[3], change(3, Some(info(8))));
}

#[test]
fn a_merge_leaves_storage_and_contracts_alone() {
    let mut set = changeset(vec![change(1, Some(info(1))), change(2, None)]);
    let before = set.clone();
    assert_eq!(before, set);
    set.apply(&vec![touched(3, 3), touched(2, 2), touched(3, 4)]);
    assert_eq!(
        set.accounts,
        vec![change(1, Some(info(1))), change(2, Some(info(2))), change(3, Some(info(4)))]
    );
    assert_eq!(set.storage, before.storage);
    assert_eq!(set.contracts, before.contracts);
}

#[test]
fn a_merge_of_nothing_changes_nothing() {
    let mut set = changeset(vec![change(1, Some(info(1)))]);
    let before = set.clone();
    set.apply(&Vec::new());
    assert_eq!(set, before);
}

#[test]
fn the_order_of_a_merge_does_not_matter_to_what_is_stored() {
    let mut one = changeset(vec![change(1, None)]);
    let mut other = one.clone();
    one.apply(&vec![touched(1, 1), touched(2, 2), touched(3, 3)]);
    other.apply(&vec![touched(3, 3), touched(1, 1), touched(2, 2)]);
    assert_ne!(one.accounts, other.accounts);
    for address in 0u8..5 {
        let stored = |set: &StateChangeset| {
            position(&set.accounts, &[address; 20]).map(|i| set.accounts[i].clone())
        };
        assert_eq!(stored(&one), stored(&other));
    }
}
