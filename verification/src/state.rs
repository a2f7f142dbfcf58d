//! Plain state: the accounts, storage and contracts of a change set, and how
//! the accounts that an execution touched are merged into it.
use crate::primitives::{copy_bytes, same_address, Address, B256, U256};
use vstd::prelude::*;

verus! {

/// What the state holds of one account.
#[derive(Debug, PartialEq, Eq)]
pub struct AccountInfo {
    pub balance: U256,
    pub nonce: u64,
    pub code_hash: B256,
    pub code: Option<Vec<u8>>,
}

/// The model of [`AccountInfo`].
pub struct AccountView {
    pub balance: Seq<u8>,
    pub nonce: u64,
    pub code_hash: Seq<u8>,
    pub code: Option<Seq<u8>>,
}

impl View for AccountInfo {
    type V = AccountView;

    open spec fn view(&self) -> AccountView {
        AccountView {
            balance: self.balance@,
            nonce: self.nonce,
            code_hash: self.code_hash@,
            code: match self.code {
                Some(code) => Some(code@),
                None => None,
            },
        }
    }
}

impl Clone for AccountInfo {
    fn clone(&self) -> (copy: Self)
        ensures
            copy@ == self@,
            copy.balance@ == self.balance@,
            copy.nonce == self.nonce,
            copy.code_hash@ == self.code_hash@,
            copy.code is Some <==> self.code is Some,
            copy.code matches Some(code) ==> code@ == self.code->0@,
    {
        AccountInfo {
            balance: self.balance,
            nonce: self.nonce,
            code_hash: self.code_hash,
            code: match &self.code {
                Some(code) => Some(copy_bytes(code)),
                None => None,
            },
        }
    }
}

/// One entry of a change set: an address and the account to store there, or
/// `None` where the account is to be removed.
#[derive(Debug, PartialEq, Eq)]
pub struct AccountChange {
    pub address: Address,
    pub info: Option<AccountInfo>,
}

impl View for AccountChange {
    type V = (Seq<u8>, Option<AccountView>);

    open spec fn view(&self) -> (Seq<u8>, Option<AccountView>) {
        (
            self.address@,
            match self.info {
                Some(info) => Some(info@),
                None => None,
            },
        )
    }
}

impl Clone for AccountChange {
    fn clone(&self) -> (copy: Self)
        ensures
            copy@ == self@,
            copy.address@ == self.address@,
            copy.info is Some <==> self.info is Some,
            copy.info matches Some(info) ==> info@ == self.info->0@,
    {
        AccountChange {
            address: self.address,
            info: match &self.info {
                Some(info) => Some(info.clone()),
                None => None,
            },
        }
    }
}

/// An account as an execution left it.
#[derive(Debug, PartialEq, Eq)]
pub struct TouchedAccount {
    pub address: Address,
    pub info: AccountInfo,
}

impl View for TouchedAccount {
    type V = (Seq<u8>, AccountView);

    open spec fn view(&self) -> (Seq<u8>, AccountView) {
        (self.address@, self.info@)
    }
}

/// One account's row in a storage change set.
#[derive(Debug, PartialEq, Eq)]
pub struct StorageChange {
    pub address: Address,
    pub wipe_storage: bool,
    pub slots: Vec<(U256, U256)>,
}

/// The model of [`StorageChange`].
pub struct StorageView {
    pub address: Seq<u8>,
    pub wipe_storage: bool,
    pub slots: Seq<(Seq<u8>, Seq<u8>)>,
}

impl View for StorageChange {
    type V = StorageView;

    open spec fn view(&self) -> StorageView {
        StorageView {
            address: self.address@,
            wipe_storage: self.wipe_storage,
            slots: Seq::new(self.slots@.len(), |i: int| (self.slots@[i].0@, self.slots@[i].1@)),
        }
    }
}

impl Clone for StorageChange {
    fn clone(&self) -> (copy: Self)
        ensures
            copy@ == self@,
            copy.address@ == self.address@,
            copy.wipe_storage == self.wipe_storage,
            copy.slots@ == self.slots@,
    {
        let mut slots: Vec<(U256, U256)> = Vec::new();
        let mut i: usize = 0;
        while i < self.slots.len()
            invariant
                i <= self.slots@.len(),
                slots@ == self.slots@.take(i as int),
            decreases self.slots@.len() - i,
        {
            slots.push((self.slots[i].0, self.slots[i].1));
            i += 1;
            assert(slots@ =~= self.slots@.take(i as int));
        }
        assert(slots@ =~= self.slots@);
        let copy = StorageChange { address: self.address, wipe_storage: self.wipe_storage, slots };
        assert(copy@.slots =~= self@.slots);
        copy
    }
}

/// A contract's code, under its hash.
#[derive(Debug, PartialEq, Eq)]
pub struct ContractCode {
    pub code_hash: B256,
    pub code: Vec<u8>,
}

impl View for ContractCode {
    type V = (Seq<u8>, Seq<u8>);

    open spec fn view(&self) -> (Seq<u8>, Seq<u8>) {
        (self.code_hash@, self.code@)
    }
}

impl Clone for ContractCode {
    fn clone(&self) -> (copy: Self)
        ensures
            copy@ == self@,
            copy.code_hash@ == self.code_hash@,
            copy.code@ == self.code@,
    {
        ContractCode { code_hash: self.code_hash, code: copy_bytes(&self.code) }
    }
}

/// A set of changes to the plain state, as it is written to the database.
#[derive(Debug, PartialEq, Eq)]
pub struct StateChangeset {
    pub accounts: Vec<AccountChange>,
    pub storage: Vec<StorageChange>,
    pub contracts: Vec<ContractCode>,
}

/// The model of [`StateChangeset`].
#[verifier::ext_equal]
pub struct ChangesetView {
    pub accounts: Seq<(Seq<u8>, Option<AccountView>)>,
    pub storage: Seq<StorageView>,
    pub contracts: Seq<(Seq<u8>, Seq<u8>)>,
}

/// The models of the entries, in order.
pub open spec fn account_views(accounts: Seq<AccountChange>) -> Seq<(Seq<u8>, Option<AccountView>)> {
    Seq::new(accounts.len(), |i: int| accounts[i]@)
}

/// The models of the touched accounts, in order.
pub open spec fn touched_views(touched: Seq<TouchedAccount>) -> Seq<(Seq<u8>, AccountView)> {
    Seq::new(touched.len(), |i: int| touched[i]@)
}

impl View for StateChangeset {
    type V = ChangesetView;

    open spec fn view(&self) -> ChangesetView {
        ChangesetView {
            accounts: account_views(self.accounts@),
            storage: Seq::new(self.storage@.len(), |i: int| self.storage@[i]@),
            contracts: Seq::new(self.contracts@.len(), |i: int| self.contracts@[i]@),
        }
    }
}

impl Clone for StateChangeset {
    fn clone(&self) -> (copy: Self)
        ensures
            copy@ == self@,
            copy.accounts@.len() == self.accounts@.len(),
            copy.storage@.len() == self.storage@.len(),
            copy.contracts@.len() == self.contracts@.len(),
            forall|i: int|
                0 <= i < self.accounts@.len() ==> (#[trigger] copy.accounts@[i])@
                    == self.accounts@[i]@,
            forall|i: int|
                0 <= i < self.storage@.len() ==> (#[trigger] copy.storage@[i])@
                    == self.storage@[i]@,
            forall|i: int|
                0 <= i < self.contracts@.len() ==> (#[trigger] copy.contracts@[i])@
                    == self.contracts@[i]@,
    {
        let mut accounts: Vec<AccountChange> = Vec::new();
        let mut i: usize = 0;
        while i < self.accounts.len()
            invariant
                i <= self.accounts@.len(),
                accounts@.len() == i,
                forall|j: int| 0 <= j < i ==> (#[trigger] accounts@[j])@ == self.accounts@[j]@,
            decreases self.accounts@.len() - i,
        {
            accounts.push(self.accounts[i].clone());
            i += 1;
        }
        let mut storage: Vec<StorageChange> = Vec::new();
        let mut i: usize = 0;
        while i < self.storage.len()
            invariant
                i <= self.storage@.len(),
                storage@.len() == i,
                forall|j: int| 0 <= j < i ==> (#[trigger] storage@[j])@ == self.storage@[j]@,
            decreases self.storage@.len() - i,
        {
            storage.push(self.storage[i].clone());
            i += 1;
        }
        let mut contracts: Vec<ContractCode> = Vec::new();
        let mut i: usize = 0;
        while i < self.contracts.len()
            invariant
                i <= self.contracts@.len(),
                contracts@.len() == i,
                forall|j: int| 0 <= j < i ==> (#[trigger] contracts@[j])@ == self.contracts@[j]@,
            decreases self.contracts@.len() - i,
        {
            contracts.push(self.contracts[i].clone());
            i += 1;
        }
        let copy = StateChangeset { accounts, storage, contracts };
        assert(copy@ =~= self@);
        copy
    }
}

/// Entry `i` is the first one under `address`.
pub open spec fn is_first(
    accounts: Seq<(Seq<u8>, Option<AccountView>)>,
    address: Seq<u8>,
    i: int,
) -> bool {
    &&& 0 <= i < accounts.len()
    &&& accounts[i].0 == address
    &&& forall|j: int| 0 <= j < i ==> (#[trigger] accounts[j]).0 != address
}

/// `accounts` with one touched account written to it: over the first entry
/// under its address, or at the end where there is none.
pub open spec fn upserted(
    accounts: Seq<(Seq<u8>, Option<AccountView>)>,
    touched: (Seq<u8>, AccountView),
) -> Seq<(Seq<u8>, Option<AccountView>)> {
    let entry = (touched.0, Some(touched.1));
    if exists|i: int| is_first(accounts, touched.0, i) {
        accounts.update(choose|i: int| is_first(accounts, touched.0, i), entry)
    } else {
        accounts.push(entry)
    }
}

/// `accounts` with each touched account written to it, in order.
pub open spec fn merged(
    accounts: Seq<(Seq<u8>, Option<AccountView>)>,
    touched: Seq<(Seq<u8>, AccountView)>,
) -> Seq<(Seq<u8>, Option<AccountView>)>
    decreases touched.len(),
{
    if touched.len() == 0 {
        accounts
    } else {
        upserted(merged(accounts, touched.drop_last()), touched.last())
    }
}

/// The index of the first entry under `address`.
pub fn position(accounts: &Vec<AccountChange>, address: &Address) -> (index: Option<usize>)
    ensures
        match index {
            Some(i) => is_first(account_views(accounts@), address@, i as int),
            None => forall|i: int|
                0 <= i < accounts@.len() ==> (#[trigger] accounts@[i]).address@ != address@,
        },
        index matches Some(i) ==> i < accounts@.len() && accounts@[i as int].address@ == address@,
        index matches Some(i) ==> forall|j: int|
            0 <= j < i ==> (#[trigger] accounts@[j]).address@ != address@,
{
    let mut i: usize = 0;
    while i < accounts.len()
        invariant
            i <= accounts@.len(),
            forall|j: int| 0 <= j < i ==> (#[trigger] accounts@[j]).address@ != address@,
        decreases accounts@.len() - i,
    {
        if same_address(&accounts[i].address, address) {
            proof {
                assert forall|j: int| 0 <= j < i implies (#[trigger] account_views(
                    accounts@,
                )[j]).0 != address@ by {
                    assert(accounts@[j].address@ != address@);
                }
            }
            return Some(i);
        }
        i += 1;
    }
    None
}

/// Writes one touched account into `accounts`.
pub fn upsert(accounts: &mut Vec<AccountChange>, touched: &TouchedAccount)
    ensures
        account_views(final(accounts)@) == upserted(account_views(old(accounts)@), touched@),
        forall|address: Seq<u8>| #[trigger]
            lookup(account_views(final(accounts)@), address) == (if address == touched.address@ {
                Some(Some(touched.info@))
            } else {
                lookup(account_views(old(accounts)@), address)
            }),
{
    let entry = AccountChange { address: touched.address, info: Some(touched.info.clone()) };
    let ghost before = account_views(accounts@);
    match position(accounts, &touched.address) {
        Some(i) => {
            accounts.set(i, entry);
            assert(account_views(accounts@) =~= before.update(i as int, entry@));
        },
        None => {
            assert forall|i: int| !is_first(before, touched.address@, i) by {
                if 0 <= i < before.len() {
                    assert(before[i].0 == old(accounts)@[i].address@);
                }
            }
            accounts.push(entry);
            assert(account_views(accounts@) =~= before.push(entry@));
        },
    }
    proof {
        assert forall|address: Seq<u8>| #[trigger]
            lookup(account_views(accounts@), address) == (if address == touched.address@ {
                Some(Some(touched.info@))
            } else {
                lookup(before, address)
            }) by {
            law_lookup_after_upsert(before, touched@, address);
        }
    }
}

impl StateChangeset {
    /// Merges the accounts that an execution touched into this change set, in
    /// the order given. Storage and contracts stay as they are.
    pub fn apply(&mut self, touched: &Vec<TouchedAccount>)
        ensures
            final(self)@ == (ChangesetView {
                accounts: merged(old(self)@.accounts, touched_views(touched@)),
                ..old(self)@
            }),
            forall|address: Seq<u8>| #[trigger]
                lookup(final(self)@.accounts, address) == (match last_touch(
                    touched_views(touched@),
                    address,
                ) {
                    Some(info) => Some(Some(info)),
                    None => lookup(old(self)@.accounts, address),
                }),
            final(self).storage@ == old(self).storage@,
            final(self).contracts@ == old(self).contracts@,
    {
        let ghost before = account_views(self.accounts@);
        let ghost all = touched_views(touched@);
        assert(all.take(0) =~= Seq::empty());
        let mut i: usize = 0;
        while i < touched.len()
            invariant
                i <= touched@.len(),
                all == touched_views(touched@),
                account_views(self.accounts@) == merged(before, all.take(i as int)),
                self.storage == old(self).storage,
                self.contracts == old(self).contracts,
            decreases touched@.len() - i,
        {
            upsert(&mut self.accounts, &touched[i]);
            i += 1;
            assert(all.take(i as int).drop_last() =~= all.take(i - 1));
            assert(all.take(i as int).last() == touched@[i - 1]@);
        }
        assert(all.take(i as int) =~= all);
        assert(self@ =~= ChangesetView { accounts: merged(before, all), ..old(self)@ });
        proof {
            assert forall|address: Seq<u8>| #[trigger]
                lookup(self@.accounts, address) == (match last_touch(all, address) {
                    Some(info) => Some(Some(info)),
                    None => lookup(before, address),
                }) by {
                law_lookup_after_merge(before, all, address);
            }
        }
    }
}

/// What a change set stores under `address`: the first entry there counts.
/// `None` where it has no entry, `Some(None)` where it removes the account.
pub open spec fn lookup(
    accounts: Seq<(Seq<u8>, Option<AccountView>)>,
    address: Seq<u8>,
) -> Option<Option<AccountView>> {
    if exists|i: int| is_first(accounts, address, i) {
        Some(accounts[choose|i: int| is_first(accounts, address, i)].1)
    } else {
        None
    }
}

/// What the last of the touched accounts under `address` holds.
pub open spec fn last_touch(
    touched: Seq<(Seq<u8>, AccountView)>,
    address: Seq<u8>,
) -> Option<AccountView>
    decreases touched.len(),
{
    if touched.len() == 0 {
        None
    } else if touched.last().0 == address {
        Some(touched.last().1)
    } else {
        last_touch(touched.drop_last(), address)
    }
}

/// No address has two entries.
pub open spec fn addresses_unique(accounts: Seq<(Seq<u8>, Option<AccountView>)>) -> bool {
    forall|i: int, j: int|
        0 <= i < j < accounts.len() ==> (#[trigger] accounts[i]).0 != (#[trigger] accounts[j]).0
}

/// No address is touched twice: the touched accounts come out of a map.
pub open spec fn touched_once(touched: Seq<(Seq<u8>, AccountView)>) -> bool {
    forall|i: int, j: int|
        0 <= i < j < touched.len() ==> (#[trigger] touched[i]).0 != (#[trigger] touched[j]).0
}

/// An entry under `address` means that there is a first one.
proof fn lemma_first_exists(
    accounts: Seq<(Seq<u8>, Option<AccountView>)>,
    address: Seq<u8>,
    i: int,
)
    requires
        0 <= i < accounts.len(),
        accounts[i].0 == address,
    ensures
        exists|k: int| is_first(accounts, address, k) && k <= i,
    decreases i,
{
    if exists|j: int| 0 <= j < i && (#[trigger] accounts[j]).0 == address {
        let j = choose|j: int| 0 <= j < i && (#[trigger] accounts[j]).0 == address;
        lemma_first_exists(accounts, address, j);
    } else {
        assert(is_first(accounts, address, i));
    }
}

/// What is stored under an address is what the first entry under it holds, and
/// nothing where there is no entry under it.
pub proof fn law_lookup_is_the_first_entry(
    accounts: Seq<(Seq<u8>, Option<AccountView>)>,
    address: Seq<u8>,
)
    ensures
        lookup(accounts, address) is None <==> forall|i: int|
            0 <= i < accounts.len() ==> (#[trigger] accounts[i]).0 != address,
        forall|i: int|
            0 <= i < accounts.len() && (#[trigger] accounts[i]).0 == address && (forall|j: int|
                0 <= j < i ==> (#[trigger] accounts[j]).0 != address) ==> lookup(
                accounts,
                address,
            ) == Some(accounts[i].1),
{
    if lookup(accounts, address) is None {
        assert forall|i: int| 0 <= i < accounts.len() implies (#[trigger] accounts[i]).0
            != address by {
            if accounts[i].0 == address {
                lemma_first_exists(accounts, address, i);
            }
        }
    }
    assert forall|i: int|
        0 <= i < accounts.len() && (#[trigger] accounts[i]).0 == address && (forall|j: int|
            0 <= j < i ==> (#[trigger] accounts[j]).0 != address) implies lookup(accounts, address)
        == Some(accounts[i].1) by {
        assert(is_first(accounts, address, i));
    }
}

/// The last touch of an address is the last of the touched accounts under it,
/// and there is none where none is under it.
pub proof fn law_last_touch_is_the_last_one(
    touched: Seq<(Seq<u8>, AccountView)>,
    address: Seq<u8>,
)
    ensures
        last_touch(touched, address) is None <==> forall|i: int|
            0 <= i < touched.len() ==> (#[trigger] touched[i]).0 != address,
        forall|i: int|
            0 <= i < touched.len() && (#[trigger] touched[i]).0 == address && (forall|j: int|
                i < j < touched.len() ==> (#[trigger] touched[j]).0 != address) ==> last_touch(
                touched,
                address,
            ) == Some(touched[i].1),
    decreases touched.len(),
{
    if touched.len() > 0 {
        let rest = touched.drop_last();
        let last = touched.len() - 1;
        law_last_touch_is_the_last_one(rest, address);
        assert(touched[last] == touched.last());
        assert(forall|i: int| 0 <= i < rest.len() ==> #[trigger] rest[i] == touched[i]);
        if last_touch(touched, address) is None {
            assert forall|i: int| 0 <= i < touched.len() implies (#[trigger] touched[i]).0
                != address by {
                if i < rest.len() {
                    assert(rest[i].0 != address);
                }
            }
        }
        assert forall|i: int|
            0 <= i < touched.len() && (#[trigger] touched[i]).0 == address && (forall|j: int|
                i < j < touched.len() ==> (#[trigger] touched[j]).0 != address) implies last_touch(
            touched,
            address,
        ) == Some(touched[i].1) by {
            if i < last {
                assert(touched[last].0 != address);
                assert(rest[i].0 == address);
                assert forall|j: int| i < j < rest.len() implies (#[trigger] rest[j]).0
                    != address by {
                    assert(touched[j].0 != address);
                }
            }
        }
        if forall|i: int| 0 <= i < touched.len() ==> (#[trigger] touched[i]).0 != address {
            assert(touched[last].0 != address);
            assert forall|i: int| 0 <= i < rest.len() implies (#[trigger] rest[i]).0
                != address by {
                assert(touched[i].0 != address);
            }
        }
    }
}

/// The models of accounts, storage and contracts hold every field.
pub proof fn law_models_hold_every_field(
    info: AccountInfo,
    change: AccountChange,
    touched: TouchedAccount,
    storage: StorageChange,
    contract: ContractCode,
)
    ensures
        info@.balance == info.balance@,
        info@.nonce == info.nonce,
        info@.code_hash == info.code_hash@,
        info@.code is Some <==> info.code is Some,
        info.code matches Some(code) ==> info@.code == Some(code@),
        change@.0 == change.address@,
        change@.1 is Some <==> change.info is Some,
        change.info matches Some(stored) ==> change@.1 == Some(stored@),
        touched@.0 == touched.address@,
        touched@.1 == touched.info@,
        storage@.address == storage.address@,
        storage@.wipe_storage == storage.wipe_storage,
        storage@.slots.len() == storage.slots@.len(),
        forall|i: int|
            0 <= i < storage.slots@.len() ==> (#[trigger] storage@.slots[i]).0
                == storage.slots@[i].0@ && storage@.slots[i].1 == storage.slots@[i].1@,
        contract@.0 == contract.code_hash@,
        contract@.1 == contract.code@,
{
}

/// The models of a change set and of touched accounts hold every entry, in
/// order.
pub proof fn law_models_hold_every_entry(set: StateChangeset, touched: Seq<TouchedAccount>)
    ensures
        set@.accounts.len() == set.accounts@.len(),
        set@.storage.len() == set.storage@.len(),
        set@.contracts.len() == set.contracts@.len(),
        forall|i: int|
            0 <= i < set.accounts@.len() ==> #[trigger] set@.accounts[i] == set.accounts@[i]@,
        forall|i: int|
            0 <= i < set.storage@.len() ==> #[trigger] set@.storage[i] == set.storage@[i]@,
        forall|i: int|
            0 <= i < set.contracts@.len() ==> #[trigger] set@.contracts[i] == set.contracts@[i]@,
        touched_views(touched).len() == touched.len(),
        forall|i: int|
            0 <= i < touched.len() ==> #[trigger] touched_views(touched)[i] == touched[i]@,
{
}

/// An upsert leaves each entry at its place and changes at most one of them:
/// the first under the touched address. It appends one entry exactly where
/// there is none under that address.
pub proof fn law_upsert_in_place(
    accounts: Seq<(Seq<u8>, Option<AccountView>)>,
    touched: (Seq<u8>, AccountView),
)
    ensures
        upserted(accounts, touched).len() == accounts.len() <==> exists|i: int|
            0 <= i < accounts.len() && (#[trigger] accounts[i]).0 == touched.0,
        upserted(accounts, touched).len() == accounts.len() || upserted(accounts, touched).len()
            == accounts.len() + 1,
        forall|i: int|
            0 <= i < accounts.len() ==> (#[trigger] upserted(accounts, touched)[i]).0
                == accounts[i].0,
        forall|i: int|
            0 <= i < accounts.len() && accounts[i].0 != touched.0 ==> #[trigger] upserted(
                accounts,
                touched,
            )[i] == accounts[i],
        forall|i: int, j: int|
            #![trigger accounts[j], upserted(accounts, touched)[i]]
            0 <= j < i < accounts.len() && accounts[j].0 == accounts[i].0 ==> upserted(
                accounts,
                touched,
            )[i] == accounts[i],
        upserted(accounts, touched).len() == accounts.len() + 1 ==> upserted(
            accounts,
            touched,
        ).last() == (touched.0, Some(touched.1)),
{
    let after = upserted(accounts, touched);
    lemma_upserted(accounts, touched);
    if after.len() == accounts.len() {
        let i = choose|i: int| is_first(accounts, touched.0, i);
        assert(accounts[i].0 == touched.0);
    }
}

/// Entry by entry, what an upsert does.
proof fn lemma_upserted(
    accounts: Seq<(Seq<u8>, Option<AccountView>)>,
    touched: (Seq<u8>, AccountView),
)
    ensures
        accounts.len() <= upserted(accounts, touched).len() <= accounts.len() + 1,
        forall|i: int|
            0 <= i < accounts.len() ==> (#[trigger] upserted(accounts, touched)[i]).0
                == accounts[i].0,
        forall|i: int|
            0 <= i < accounts.len() && accounts[i].0 != touched.0 ==> #[trigger] upserted(
                accounts,
                touched,
            )[i] == accounts[i],
        upserted(accounts, touched).len() == accounts.len() + 1 ==> upserted(
            accounts,
            touched,
        ).last() == (touched.0, Some(touched.1)) && forall|i: int|
            0 <= i < accounts.len() ==> (#[trigger] accounts[i]).0 != touched.0,
{
    let after = upserted(accounts, touched);
    if after.len() == accounts.len() + 1 {
        assert forall|i: int| 0 <= i < accounts.len() implies (#[trigger] accounts[i]).0
            != touched.0 by {
            if accounts[i].0 == touched.0 {
                lemma_first_exists(accounts, touched.0, i);
            }
        }
    }
}

/// Writing one account changes what is stored under its address, and nothing
/// that is stored under another.
pub proof fn law_lookup_after_upsert(
    accounts: Seq<(Seq<u8>, Option<AccountView>)>,
    touched: (Seq<u8>, AccountView),
    address: Seq<u8>,
)
    ensures
        lookup(upserted(accounts, touched), address) == (if address == touched.0 {
            Some(Some(touched.1))
        } else {
            lookup(accounts, address)
        }),
{
    let after = upserted(accounts, touched);
    lemma_upserted(accounts, touched);
    if address == touched.0 {
        if exists|i: int| is_first(accounts, address, i) {
            let i = choose|i: int| is_first(accounts, address, i);
            assert forall|j: int| 0 <= j < i implies (#[trigger] after[j]).0 != address by {
                assert(accounts[j].0 != address);
            }
            assert(is_first(after, address, i));
        } else {
            let i = accounts.len() as int;
            assert forall|j: int| 0 <= j < i implies (#[trigger] after[j]).0 != address by {
                if accounts[j].0 == address {
                    lemma_first_exists(accounts, address, j);
                }
            }
            assert(is_first(after, address, i));
        }
    } else {
        if exists|i: int| is_first(accounts, address, i) {
            let i = choose|i: int| is_first(accounts, address, i);
            assert forall|j: int| 0 <= j < i implies (#[trigger] after[j]).0 != address by {
                assert(accounts[j].0 != address);
            }
            assert(is_first(after, address, i));
        } else {
            assert forall|i: int| !is_first(after, address, i) by {
                if is_first(after, address, i) && i < accounts.len() {
                    lemma_first_exists(accounts, address, i);
                }
            }
        }
    }
}

/// After a merge every touched address holds what the execution left there
/// last, and every other address holds what it held before.
pub proof fn law_lookup_after_merge(
    accounts: Seq<(Seq<u8>, Option<AccountView>)>,
    touched: Seq<(Seq<u8>, AccountView)>,
    address: Seq<u8>,
)
    ensures
        lookup(merged(accounts, touched), address) == (match last_touch(touched, address) {
            Some(info) => Some(Some(info)),
            None => lookup(accounts, address),
        }),
    decreases touched.len(),
{
    if touched.len() > 0 {
        law_lookup_after_merge(accounts, touched.drop_last(), address);
        law_lookup_after_upsert(
            merged(accounts, touched.drop_last()),
            touched.last(),
            address,
        );
    }
}

/// A merge leaves each entry at its place, rewrites entries of touched
/// addresses alone, and appends entries of touched addresses that had none.
pub proof fn law_merge_in_place(
    accounts: Seq<(Seq<u8>, Option<AccountView>)>,
    touched: Seq<(Seq<u8>, AccountView)>,
)
    ensures
        merged(accounts, touched).len() >= accounts.len(),
        forall|i: int|
            0 <= i < accounts.len() ==> (#[trigger] merged(accounts, touched)[i]).0
                == accounts[i].0,
        forall|i: int|
            0 <= i < accounts.len() && last_touch(touched, accounts[i].0) is None
                ==> #[trigger] merged(accounts, touched)[i] == accounts[i],
        forall|i: int, j: int|
            #![trigger accounts[j], merged(accounts, touched)[i]]
            0 <= j < i < accounts.len() && accounts[j].0 == accounts[i].0 ==> merged(
                accounts,
                touched,
            )[i] == accounts[i],
        forall|i: int, j: int|
            0 <= i < accounts.len() <= j < merged(accounts, touched).len() ==> (#[trigger] merged(
                accounts,
                touched,
            )[j]).0 != (#[trigger] accounts[i]).0,
        forall|j: int|
            accounts.len() <= j < merged(accounts, touched).len() ==> last_touch(
                touched,
                (#[trigger] merged(accounts, touched)[j]).0,
            ) is Some,
    decreases touched.len(),
{
    if touched.len() > 0 {
        let before = merged(accounts, touched.drop_last());
        let after = merged(accounts, touched);
        law_merge_in_place(accounts, touched.drop_last());
        lemma_upserted(before, touched.last());
        law_upsert_in_place(before, touched.last());
        assert forall|i: int, j: int|
            #![trigger accounts[j], after[i]]
            0 <= j < i < accounts.len() && accounts[j].0 == accounts[i].0 implies after[i]
            == accounts[i] by {
            assert(before[j].0 == accounts[j].0);
            assert(before[i].0 == accounts[i].0);
            assert(before[i] == accounts[i]);
        }
        assert forall|i: int, j: int| 0 <= i < accounts.len() <= j < after.len() implies (
        #[trigger] after[j]).0 != (#[trigger] accounts[i]).0 by {
            assert(before[i].0 == accounts[i].0);
            if j < before.len() {
                assert(after[j].0 == before[j].0);
            }
        }
        assert forall|j: int| accounts.len() <= j < after.len() implies last_touch(
            touched,
            (#[trigger] after[j]).0,
        ) is Some by {
            if j < before.len() {
                assert(after[j].0 == before[j].0);
            }
        }
        assert forall|i: int|
            0 <= i < accounts.len() && last_touch(touched, accounts[i].0) is None implies
            #[trigger] after[i] == accounts[i] by {
            assert(before[i] == accounts[i]);
        }
    }
}

/// A merge gives no address a second entry.
pub proof fn law_merge_keeps_addresses_unique(
    accounts: Seq<(Seq<u8>, Option<AccountView>)>,
    touched: Seq<(Seq<u8>, AccountView)>,
)
    requires
        addresses_unique(accounts),
    ensures
        addresses_unique(merged(accounts, touched)),
    decreases touched.len(),
{
    if touched.len() > 0 {
        let before = merged(accounts, touched.drop_last());
        let after = merged(accounts, touched);
        law_merge_keeps_addresses_unique(accounts, touched.drop_last());
        lemma_upserted(before, touched.last());
        assert forall|i: int, j: int| 0 <= i < j < after.len() implies (#[trigger] after[i]).0 != (
        #[trigger] after[j]).0 by {
            assert(after[i].0 == before[i].0);
            if j < before.len() {
                assert(after[j].0 == before[j].0);
            }
        }
    }
}

/// Where no address is touched twice, the last touch of an address is the one
/// pair with it.
proof fn lemma_last_touch_contains(
    touched: Seq<(Seq<u8>, AccountView)>,
    address: Seq<u8>,
    info: AccountView,
)
    requires
        touched_once(touched),
    ensures
        last_touch(touched, address) == Some(info) <==> touched.contains((address, info)),
    decreases touched.len(),
{
    if touched.len() > 0 {
        let rest = touched.drop_last();
        lemma_last_touch_contains(rest, address, info);
        if touched.contains((address, info)) {
            let k = choose|k: int| 0 <= k < touched.len() && touched[k] == (address, info);
            if k < rest.len() {
                assert(rest[k] == (address, info));
                assert(touched[k].0 != touched[touched.len() - 1].0);
            }
        }
        if last_touch(touched, address) == Some(info) {
            if touched.last().0 == address {
                assert(touched[touched.len() - 1] == (address, info));
            } else {
                let k = choose|k: int| 0 <= k < rest.len() && rest[k] == (address, info);
                assert(touched[k] == (address, info));
            }
        }
    }
}

/// The order in which the touched accounts are walked does not matter to what
/// is stored: any two orders of the same accounts store the same under every
/// address.
pub proof fn law_merge_order_does_not_matter(
    accounts: Seq<(Seq<u8>, Option<AccountView>)>,
    one: Seq<(Seq<u8>, AccountView)>,
    other: Seq<(Seq<u8>, AccountView)>,
    address: Seq<u8>,
)
    requires
        touched_once(one),
        touched_once(other),
        one.to_multiset() == other.to_multiset(),
    ensures
        lookup(merged(accounts, one), address) == lookup(merged(accounts, other), address),
{
    broadcast use vstd::seq_lib::group_to_multiset_ensures;

    law_lookup_after_merge(accounts, one, address);
    law_lookup_after_merge(accounts, other, address);
    assert forall|info: AccountView|
        last_touch(one, address) == Some(info) <==> last_touch(other, address) == Some(info) by {
        lemma_last_touch_contains(one, address, info);
        lemma_last_touch_contains(other, address, info);
        assert(one.contains((address, info)) <==> one.to_multiset().count((address, info)) > 0);
        assert(other.contains((address, info)) <==> other.to_multiset().count((address, info)) > 0);
    }
    match last_touch(one, address) {
        Some(info) => {
            assert(last_touch(other, address) == Some(info));
        },
        None => {
            if last_touch(other, address) is Some {
                assert(last_touch(one, address) == Some(last_touch(other, address)->0));
            }
        },
    }
}

} // verus!
