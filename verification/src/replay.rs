//! Replaying the transaction pool at launch: queued transactions first, then
//! pending ones, each on the genesis state.
//!
//! The program executes; a [`Replay`] decides what is executed, what is
//! written to the database after each execution, and which block collects the
//! transactions that went through.
use crate::block::{
    block_header, BlockBody, BodyRoots, SealedBlock, SealedBlockWithSenders, GENESIS_NUMBER,
};
#[allow(unused_imports)]
use crate::block::is_block_header;
use crate::primitives::{Address, B256};
use crate::state::{StateChangeset, TouchedAccount};
#[allow(unused_imports)]
use crate::state::{
    account_views, last_touch, law_lookup_after_merge, law_merge_in_place,
    law_merge_keeps_addresses_unique, lookup, merged, touched_views, AccountView, ChangesetView,
};
use vstd::prelude::*;

verus! {

/// The chain id that the transactions are executed under.
pub const REPLAY_CHAIN_ID: u64 = 1337;

/// An execution that the program is asked for: the transaction, and what its
/// environment holds in place of what the transaction says.
#[derive(Debug, PartialEq, Eq)]
pub struct ExecutionRequest<T> {
    pub transaction: T,
    pub chain_id: u64,
    pub nonce: Option<u64>,
    pub state_at: u64,
}

/// How an execution went: the sender and the accounts it touched, or nothing
/// where it failed.
#[derive(Debug, PartialEq, Eq)]
pub enum Execution {
    Success { signer: Address, touched: Vec<TouchedAccount> },
    Failure,
}

/// The model of [`Execution`].
pub enum ExecutionView {
    Success { signer: Seq<u8>, touched: Seq<(Seq<u8>, AccountView)> },
    Failure,
}

impl View for Execution {
    type V = ExecutionView;

    open spec fn view(&self) -> ExecutionView {
        match *self {
            Execution::Success { signer, touched } => ExecutionView::Success {
                signer: signer@,
                touched: touched_views(touched@),
            },
            Execution::Failure => ExecutionView::Failure,
        }
    }
}

/// A replay under way, over the transactions `T` and the requests `Q` of a
/// block.
#[derive(Debug)]
pub struct Replay<T, Q> {
    base: StateChangeset,
    senders: Vec<Address>,
    body: BlockBody<T, Q>,
}

/// The model of [`Replay`].
#[verifier::ext_equal]
pub struct ReplayView<T> {
    /// The change set that every write starts from.
    pub base: ChangesetView,
    /// The senders of the transactions that went through.
    pub senders: Seq<Seq<u8>>,
    /// The transactions that went through.
    pub transactions: Seq<T>,
}

/// The bytes of the addresses, in order.
pub open spec fn address_views(addresses: Seq<Address>) -> Seq<Seq<u8>> {
    Seq::new(addresses.len(), |i: int| addresses[i]@)
}

impl<T, Q> View for Replay<T, Q> {
    type V = ReplayView<T>;

    closed spec fn view(&self) -> ReplayView<T> {
        ReplayView {
            base: self.base@,
            senders: address_views(self.senders@),
            transactions: self.body.transactions@,
        }
    }
}

impl<T> ReplayView<T> {
    /// The replay after one execution: a transaction that went through is
    /// added with its sender, one that failed is dropped.
    pub open spec fn after(self, transaction: T, execution: ExecutionView) -> ReplayView<T> {
        match execution {
            ExecutionView::Success { signer, .. } => ReplayView {
                base: self.base,
                senders: self.senders.push(signer),
                transactions: self.transactions.push(transaction),
            },
            ExecutionView::Failure => self,
        }
    }

    /// What is written to the database after one execution: the change set
    /// that the replay started from, with the accounts that this execution
    /// touched merged into it. Nothing where it failed.
    pub open spec fn write_for(self, execution: ExecutionView) -> Option<ChangesetView> {
        match execution {
            ExecutionView::Success { touched, .. } => Some(
                ChangesetView { accounts: merged(self.base.accounts, touched), ..self.base },
            ),
            ExecutionView::Failure => None,
        }
    }
}

impl<T, Q> Replay<T, Q> {
    /// Each transaction of the body has its sender, and the body holds
    /// transactions alone.
    pub closed spec fn wf(self) -> bool {
        &&& self.senders@.len() == self.body.transactions@.len()
        &&& self.body.only_transactions()
    }

    /// A replay that has executed nothing yet. `base` is the state that every
    /// write starts from.
    pub fn new(base: StateChangeset) -> (replay: Self)
        ensures
            replay.wf(),
            replay@ == (ReplayView::<T> {
                base: base@,
                senders: Seq::empty(),
                transactions: Seq::empty(),
            }),
    {
        let replay = Replay { base, senders: Vec::new(), body: BlockBody::empty() };
        assert(replay@.senders =~= Seq::empty());
        replay
    }

    /// The order in which the transactions of the pool are executed: the
    /// queued ones, then the pending ones, each in the order given.
    pub fn order<P>(&self, queued: Vec<P>, pending: Vec<P>) -> (order: Vec<P>)
        ensures
            order@ == queued@ + pending@,
    {
        let mut order = queued;
        let mut rest = pending;
        order.append(&mut rest);
        order
    }

    /// The execution to ask for a transaction: on the genesis state, under the
    /// replay's chain id, with nonce zero whatever its own nonce is.
    pub fn request(&self, transaction: T) -> (request: ExecutionRequest<T>)
        ensures
            request == (ExecutionRequest {
                transaction,
                chain_id: REPLAY_CHAIN_ID,
                nonce: Some(0u64),
                state_at: GENESIS_NUMBER,
            }),
    {
        ExecutionRequest {
            transaction,
            chain_id: REPLAY_CHAIN_ID,
            nonce: Some(0),
            state_at: GENESIS_NUMBER,
        }
    }

    /// Takes the result of an execution, and returns the change set to write
    /// to the database on account of it.
    pub fn on_executed(&mut self, transaction: T, execution: Execution) -> (write: Option<
        StateChangeset,
    >)
        requires
            old(self).wf(),
        ensures
            final(self).wf(),
            final(self)@ == old(self)@.after(transaction, execution@),
            write is Some <==> old(self)@.write_for(execution@) is Some,
            write matches Some(changes) ==> old(self)@.write_for(execution@) == Some(changes@),
            execution is Failure ==> write is None && final(self)@ == old(self)@,
            execution is Success ==> write is Some,
            execution matches Execution::Success { signer, .. } ==> final(self)@.senders == old(
                self,
            )@.senders.push(signer@),
            execution is Success ==> final(self)@.transactions == old(self)@.transactions.push(
                transaction,
            ),
            final(self)@.base == old(self)@.base,
            execution matches Execution::Success { touched, .. } ==> (forall|address: Seq<u8>|
                #[trigger]
                lookup(account_views(write->0.accounts@), address) == (match last_touch(
                    touched_views(touched@),
                    address,
                ) {
                    Some(info) => Some(Some(info)),
                    None => lookup(old(self)@.base.accounts, address),
                })),
            write matches Some(changes) ==> changes@.storage == old(self)@.base.storage,
            write matches Some(changes) ==> changes@.contracts == old(self)@.base.contracts,
    {
        match execution {
            Execution::Success { signer, touched } => {
                self.senders.push(signer);
                self.body.transactions.push(transaction);
                assert(self@.senders =~= old(self)@.senders.push(signer@));
                let mut changes = self.base.clone();
                changes.apply(&touched);
                assert(account_views(changes.accounts@) == changes@.accounts);
                Some(changes)
            },
            Execution::Failure => None,
        }
    }

    /// The body that collects the transactions that went through.
    pub fn body(&self) -> (body: &BlockBody<T, Q>)
        requires
            self.wf(),
        ensures
            body.transactions@ == self@.transactions,
            body.only_transactions(),
    {
        &self.body
    }

    /// The senders of the transactions that went through.
    pub fn senders(&self) -> (senders: &Vec<Address>)
        ensures
            address_views(senders@) == self@.senders,
    {
        &self.senders
    }

    /// Seals the block that collects the transactions that went through, on
    /// top of `parent_hash`. `roots` is what the lists of the body hash to.
    /// The first sender is the beneficiary; there is no block where no
    /// transaction went through.
    pub fn seal(self, parent_hash: B256, roots: &BodyRoots) -> (sealed: Option<
        SealedBlockWithSenders<T, Q>,
    >)
        requires
            self.wf(),
        ensures
            sealed is Some <==> self@.transactions.len() > 0,
            sealed matches Some(sealed) ==> {
                &&& is_block_header(
                    sealed.block.header,
                    parent_hash@,
                    self@.senders[0],
                    *roots,
                )
                &&& sealed.block.hash@ == sealed.block.header.hash()
                &&& sealed.block.body.transactions@ == self@.transactions
                &&& sealed.block.body.only_transactions()
                &&& address_views(sealed.senders@) == self@.senders
                &&& sealed.senders@.len() == sealed.block.body.transactions@.len()
                &&& sealed.block.header.parent_hash@ == parent_hash@
                &&& sealed.block.header.beneficiary@ == sealed.senders@[0]@
                &&& sealed.block.header.transactions_root@ == roots.transactions_root@
                &&& sealed.block.header.number == 1
            },
    {
        if self.senders.len() == 0 {
            return None;
        }
        let header = block_header(parent_hash, self.senders[0], roots);
        assert(self@.senders[0] == self.senders@[0]@);
        let hash = header.seal_slow();
        SealedBlockWithSenders::new(SealedBlock { header, hash, body: self.body }, self.senders)
    }
}

/// For every successful execution there is something to write: under each
/// address that the execution touched, what it left there last; under every
/// other address, what the launch stores there; and the storage and the
/// contracts of the launch. For a failed one there is nothing to write.
pub proof fn law_write_stores_every_touched_account<T>(
    replay: ReplayView<T>,
    execution: Execution,
    write: Option<StateChangeset>,
)
    requires
        write is Some <==> replay.write_for(execution@) is Some,
        write matches Some(changes) ==> replay.write_for(execution@) == Some(changes@),
    ensures
        execution is Failure ==> write is None,
        execution is Success ==> write is Some,
        execution matches Execution::Success { touched, .. } ==> (forall|address: Seq<u8>|
            #[trigger]
            lookup(account_views(write->0.accounts@), address) == (match last_touch(
                touched_views(touched@),
                address,
            ) {
                Some(info) => Some(Some(info)),
                None => lookup(replay.base.accounts, address),
            })),
        write matches Some(changes) ==> changes@.storage == replay.base.storage,
        write matches Some(changes) ==> changes@.contracts == replay.base.contracts,
{
    if let Execution::Success { touched, .. } = execution {
        assert forall|address: Seq<u8>| #[trigger]
            lookup(account_views(write->0.accounts@), address) == (match last_touch(
                touched_views(touched@),
                address,
            ) {
                Some(info) => Some(Some(info)),
                None => lookup(replay.base.accounts, address),
            }) by {
            assert(account_views(write->0.accounts@) == write->0@.accounts);
            law_lookup_after_merge(replay.base.accounts, touched_views(touched@), address);
        }
    }
}

/// What is written keeps each entry of the launch at its place, rewrites
/// entries of touched addresses alone, appends entries of touched addresses
/// that had none, and has one entry for each address where the launch has.
pub proof fn law_write_keeps_the_entries_of_the_launch<T>(
    replay: ReplayView<T>,
    execution: Execution,
    changes: StateChangeset,
)
    requires
        replay.write_for(execution@) == Some(changes@),
    ensures
        changes.accounts@.len() >= replay.base.accounts.len(),
        forall|i: int|
            0 <= i < replay.base.accounts.len() ==> (#[trigger] changes.accounts@[i]).address@
                == replay.base.accounts[i].0,
        execution matches Execution::Success { touched, .. } ==> forall|i: int|
            0 <= i < replay.base.accounts.len() && last_touch(
                touched_views(touched@),
                replay.base.accounts[i].0,
            ) is None ==> (#[trigger] changes.accounts@[i])@ == replay.base.accounts[i],
        execution matches Execution::Success { touched, .. } ==> forall|i: int|
            replay.base.accounts.len() <= i < changes.accounts@.len() ==> last_touch(
                touched_views(touched@),
                (#[trigger] changes.accounts@[i]).address@,
            ) is Some,
        (forall|i: int, j: int|
            0 <= i < j < replay.base.accounts.len() ==> (#[trigger] replay.base.accounts[i]).0 != (
            #[trigger] replay.base.accounts[j]).0) ==> (forall|i: int, j: int|
            0 <= i < j < changes.accounts@.len() ==> (#[trigger] changes.accounts@[i]).address@ != (
            #[trigger] changes.accounts@[j]).address@),
{
    let views = account_views(changes.accounts@);
    assert(views == changes@.accounts);
    assert(forall|i: int|
        0 <= i < views.len() ==> (#[trigger] changes.accounts@[i])@ == views[i]);
    assert(forall|i: int|
        0 <= i < views.len() ==> (#[trigger] changes.accounts@[i]).address@ == views[i].0);
    if let Execution::Success { touched, .. } = execution {
        let all = touched_views(touched@);
        law_merge_in_place(replay.base.accounts, all);
        if forall|i: int, j: int|
            0 <= i < j < replay.base.accounts.len() ==> (#[trigger] replay.base.accounts[i]).0 != (
            #[trigger] replay.base.accounts[j]).0 {
            law_merge_keeps_addresses_unique(replay.base.accounts, all);
        }
    }
}

/// One execution adds its transaction and its sender where it went through,
/// and nothing where it failed. The change set of the launch stays.
pub proof fn law_one_execution_adds_at_most_one_transaction<T>(
    replay: ReplayView<T>,
    transaction: T,
    execution: Execution,
)
    ensures
        execution is Failure ==> replay.after(transaction, execution@) == replay,
        execution matches Execution::Success { signer, .. } ==> replay.after(
            transaction,
            execution@,
        ).senders == replay.senders.push(signer@),
        execution is Success ==> replay.after(transaction, execution@).transactions
            == replay.transactions.push(transaction),
        replay.after(transaction, execution@).base == replay.base,
{
}

/// The models of addresses hold every address, in order.
pub proof fn law_address_views_hold_every_address(addresses: Seq<Address>)
    ensures
        address_views(addresses).len() == addresses.len(),
        forall|i: int|
            0 <= i < addresses.len() ==> #[trigger] address_views(addresses)[i] == addresses[i]@,
{
}

/// Each transaction that went through has its sender.
pub proof fn law_each_transaction_has_its_sender<T, Q>(replay: Replay<T, Q>)
    requires
        replay.wf(),
    ensures
        replay@.senders.len() == replay@.transactions.len(),
{
}

impl<T> ReplayView<T> {
    /// The replay after the executions of several transactions, in order.
    pub open spec fn after_all(self, executions: Seq<(T, ExecutionView)>) -> ReplayView<T>
        decreases executions.len(),
    {
        if executions.len() == 0 {
            self
        } else {
            self.after_all(executions.drop_last()).after(
                executions.last().0,
                executions.last().1,
            )
        }
    }
}

/// The transactions that went through, in order.
pub open spec fn included<T>(executions: Seq<(T, ExecutionView)>) -> Seq<T>
    decreases executions.len(),
{
    if executions.len() == 0 {
        Seq::empty()
    } else {
        let before = included(executions.drop_last());
        match executions.last().1 {
            ExecutionView::Success { .. } => before.push(executions.last().0),
            ExecutionView::Failure => before,
        }
    }
}

/// The senders of the transactions that went through, in order.
pub open spec fn signers<T>(executions: Seq<(T, ExecutionView)>) -> Seq<Seq<u8>>
    decreases executions.len(),
{
    if executions.len() == 0 {
        Seq::empty()
    } else {
        let before = signers(executions.drop_last());
        match executions.last().1 {
            ExecutionView::Success { signer, .. } => before.push(signer),
            ExecutionView::Failure => before,
        }
    }
}

/// A replay adds the transactions that went through, each with its sender,
/// in the order of their execution, and keeps the change set it started from.
pub proof fn law_replay_collects_what_went_through<T>(
    replay: ReplayView<T>,
    executions: Seq<(T, ExecutionView)>,
)
    ensures
        replay.after_all(executions).base == replay.base,
        replay.after_all(executions).transactions == replay.transactions + included(executions),
        replay.after_all(executions).senders == replay.senders + signers(executions),
        included(executions).len() == signers(executions).len(),
    decreases executions.len(),
{
    let after = replay.after_all(executions);
    if executions.len() > 0 {
        law_replay_collects_what_went_through(replay, executions.drop_last());
    }
    assert(after.transactions =~= replay.transactions + included(executions));
    assert(after.senders =~= replay.senders + signers(executions));
}

/// What is written after an execution does not depend on the executions
/// before it: every write starts from the change set of the launch.
pub proof fn law_writes_do_not_accumulate<T>(
    replay: ReplayView<T>,
    earlier: Seq<(T, ExecutionView)>,
    execution: ExecutionView,
)
    ensures
        replay.after_all(earlier).write_for(execution) == replay.write_for(execution),
{
    law_replay_collects_what_went_through(replay, earlier);
}

/// How what went through adds up over two runs.
proof fn lemma_included_append<T>(
    first: Seq<(T, ExecutionView)>,
    second: Seq<(T, ExecutionView)>,
)
    ensures
        included(first + second) == included(first) + included(second),
        signers(first + second) == signers(first) + signers(second),
    decreases second.len(),
{
    if second.len() == 0 {
        assert(first + second =~= first);
    } else {
        lemma_included_append(first, second.drop_last());
        assert((first + second).drop_last() =~= first + second.drop_last());
    }
    assert(included(first + second) =~= included(first) + included(second));
    assert(signers(first + second) =~= signers(first) + signers(second));
}

/// The block lists the queued transactions that went through before the
/// pending ones, each of the two in its own order.
pub proof fn law_queued_come_before_pending<T>(
    replay: ReplayView<T>,
    queued: Seq<(T, ExecutionView)>,
    pending: Seq<(T, ExecutionView)>,
)
    requires
        replay.transactions.len() == 0,
        replay.senders.len() == 0,
    ensures
        replay.after_all(queued + pending).transactions == included(queued) + included(pending),
        replay.after_all(queued + pending).senders == signers(queued) + signers(pending),
{
    law_replay_collects_what_went_through(replay, queued + pending);
    lemma_included_append(queued, pending);
    assert(replay.transactions + included(queued + pending) =~= included(queued + pending));
    assert(replay.senders + signers(queued + pending) =~= signers(queued + pending));
}

/// Nothing went through exactly where every execution failed; this is when
/// there is no block to seal.
pub proof fn law_no_block_means_all_failed<T>(
    replay: ReplayView<T>,
    executions: Seq<(T, ExecutionView)>,
)
    requires
        replay.transactions.len() == 0,
    ensures
        replay.after_all(executions).transactions.len() == 0 <==> forall|i: int|
            0 <= i < executions.len() ==> (#[trigger] executions[i]).1 is Failure,
    decreases executions.len(),
{
    if executions.len() > 0 {
        let before = executions.drop_last();
        law_no_block_means_all_failed(replay, before);
        assert(executions[executions.len() - 1] == executions.last());
        assert(forall|i: int| 0 <= i < before.len() ==> #[trigger] before[i] == executions[i]);
        if replay.after_all(executions).transactions.len() == 0 {
            assert forall|i: int| 0 <= i < executions.len() implies (#[trigger] executions[i]).1
                is Failure by {
                if i < before.len() {
                    assert(before[i].1 is Failure);
                }
            }
        }
    }
}

/// The beneficiary of the block, its first sender, is the sender of the first
/// transaction that went through, whatever was executed after it.
pub proof fn law_first_signer_is_beneficiary<T>(
    replay: ReplayView<T>,
    executions: Seq<(T, ExecutionView)>,
    first: int,
)
    requires
        replay.senders.len() == 0,
        0 <= first < executions.len(),
        executions[first].1 is Success,
        forall|i: int| 0 <= i < first ==> (#[trigger] executions[i]).1 is Failure,
    ensures
        replay.after_all(executions).senders.len() > 0,
        replay.after_all(executions).senders[0] == executions[first].1->signer,
    decreases executions.len(),
{
    let before = executions.drop_last();
    assert(forall|i: int| 0 <= i < before.len() ==> #[trigger] before[i] == executions[i]);
    if first < before.len() {
        law_first_signer_is_beneficiary(replay, before, first);
    } else {
        lemma_failures_add_nothing(replay, before);
    }
}

/// Executions that all failed leave the replay as it was.
proof fn lemma_failures_add_nothing<T>(
    replay: ReplayView<T>,
    executions: Seq<(T, ExecutionView)>,
)
    requires
        forall|i: int| 0 <= i < executions.len() ==> (#[trigger] executions[i]).1 is Failure,
    ensures
        replay.after_all(executions) == replay,
    decreases executions.len(),
{
    if executions.len() > 0 {
        let before = executions.drop_last();
        assert forall|i: int| 0 <= i < before.len() implies (#[trigger] before[i]).1 is Failure by {
            assert(before[i] == executions[i]);
        }
        lemma_failures_add_nothing(replay, before);
        assert(executions[executions.len() - 1] == executions.last());
    }
}

} // verus!
