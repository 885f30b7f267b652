//! What holds of the ledger as a whole.
use vstd::prelude::*;
use crate::account::AccountView;
use crate::block::BlockView;
use crate::blockchain::{
    audit, block_fault, first_badly_signed, first_fault, linked, runs, sealed,
};
use crate::error::ChainError;
use crate::error::Outcome;
use crate::transaction::{
    created_with, deployed_with, entry_setter, TransactionDataView, TransactionView,
};
use crate::vm::WorldView;

verus! {

/// The sum of the balances of all accounts.
pub open spec fn total_tokens(accounts: Map<Seq<char>, AccountView>) -> nat
    decreases accounts.dom().len(),
    when accounts.dom().finite()
{
    if accounts.dom().len() == 0 {
        0
    } else {
        let id = accounts.dom().choose();
        accounts[id].tokens as nat + total_tokens(accounts.remove(id))
    }
}

/// The sum of all balances is the balance of any one account and the sum of
/// the balances of the others.
pub proof fn lemma_total_tokens_remove(accounts: Map<Seq<char>, AccountView>, id: Seq<char>)
    requires
        accounts.dom().finite(),
        accounts.contains_key(id),
    ensures
        total_tokens(accounts) == accounts[id].tokens + total_tokens(accounts.remove(id)),
    decreases accounts.dom().len(),
{
    let chosen = accounts.dom().choose();
    if chosen != id {
        lemma_total_tokens_remove(accounts.remove(chosen), id);
        lemma_total_tokens_remove(accounts.remove(id), chosen);
        assert(accounts.remove(chosen).remove(id) =~= accounts.remove(id).remove(chosen));
    }
}

/// Putting an account at an address changes the sum of all balances by what
/// the new account holds more than the account that stood there.
pub proof fn lemma_total_tokens_insert(
    accounts: Map<Seq<char>, AccountView>,
    id: Seq<char>,
    account: AccountView,
)
    requires
        accounts.dom().finite(),
    ensures
        accounts.insert(id, account).dom().finite(),
        total_tokens(accounts.insert(id, account)) == total_tokens(accounts) + account.tokens - (
        if accounts.contains_key(id) {
            accounts[id].tokens as int
        } else {
            0
        }),
{
    let after = accounts.insert(id, account);
    lemma_total_tokens_remove(after, id);
    assert(after.remove(id) =~= accounts.remove(id));
    if accounts.contains_key(id) {
        lemma_total_tokens_remove(accounts, id);
    } else {
        assert(accounts.remove(id) =~= accounts);
    }
}

/// A change that is made to every account and that leaves its balance
/// alone leaves the sum of all balances alone.
pub proof fn lemma_total_tokens_map_values(
    accounts: Map<Seq<char>, AccountView>,
    f: spec_fn(AccountView) -> AccountView,
)
    requires
        accounts.dom().finite(),
        forall|account: AccountView| (#[trigger] f(account)).tokens == account.tokens,
    ensures
        accounts.map_values(f).dom().finite(),
        total_tokens(accounts.map_values(f)) == total_tokens(accounts),
    decreases accounts.dom().len(),
{
    let after = accounts.map_values(f);
    assert(after.dom() =~= accounts.dom());
    if accounts.dom().len() > 0 {
        let id = accounts.dom().choose();
        lemma_total_tokens_remove(accounts, id);
        lemma_total_tokens_remove(after, id);
        lemma_total_tokens_map_values(accounts.remove(id), f);
        assert(after.remove(id) =~= accounts.remove(id).map_values(f));
    }
}

/// Token conservation, for one transaction: a transaction that does not
/// mint and that is executed with success leaves the sum of all balances as
/// it was.
pub proof fn lemma_execution_conserves_tokens<F: Fn(String, String, u128) -> Result<(), String>>(
    transaction: TransactionView<F>,
    genesis: bool,
    pre: WorldView<F>,
    post: WorldView<F>,
    receipt: Seq<char>,
)
    requires
        pre.accounts.dom().finite(),
        !(transaction.data is MintTokens),
        transaction.executes(genesis, pre, post, Ok(receipt)),
    ensures
        post.accounts.dom().finite(),
        total_tokens(post.accounts) == total_tokens(pre.accounts),
{
    let result: Outcome = Ok(receipt);
    match transaction.data {
        TransactionDataView::CreateUserAccount => {
            let account = choose|account: AccountView|
                account.is_new(crate::account::AccountType::User) && account.is_derived()
                    && #[trigger] created_with(pre, account) == (post, result);
            lemma_total_tokens_insert(pre.accounts, account.address(), account);
        },
        TransactionDataView::MintTokens { .. } => {},
        TransactionDataView::Transfer { to, amount } => {
            let from = transaction.from;
            let sender = pre.accounts[from];
            let left = sender.with_tokens((sender.tokens - amount) as u128);
            let debited = pre.accounts.insert(from, left);
            let receiver = debited[to];
            lemma_total_tokens_insert(pre.accounts, from, left);
            lemma_total_tokens_insert(
                debited,
                to,
                receiver.with_tokens((receiver.tokens + amount) as u128),
            );
        },
        TransactionDataView::ChangeStoreValue { key, value } => {
            let from = transaction.from;
            lemma_total_tokens_insert(pre.accounts, from, pre.accounts[from].with_entry(key, value));
        },
        TransactionDataView::DeploySmartContract { publisher, sc } => {
            let account = choose|account: AccountView|
                account.is_new(crate::account::AccountType::Contract) && account.is_derived()
                    && #[trigger] deployed_with(pre, publisher, sc, account) == (post, result);
            let id = account.address();
            let with_account = pre.accounts.insert(id, account);
            let setter = entry_setter(id, crate::text::decimal(0));
            let seeded = with_account.map_values(setter);
            lemma_total_tokens_insert(pre.accounts, id, account);
            lemma_total_tokens_map_values(with_account, setter);
            assert(seeded.contains_key(publisher));
            lemma_total_tokens_insert(
                seeded,
                publisher,
                seeded[publisher].with_entry(id, crate::text::decimal(sc.total_suply as nat)),
            );
        },
        TransactionDataView::TransferToken { .. } => {},
    }
}

/// Token conservation: transactions of which none mints, executed one
/// after the other, each with success, leave the sum of all balances as it
/// was.
pub proof fn lemma_run_conserves_tokens<F: Fn(String, String, u128) -> Result<(), String>>(
    transactions: Seq<TransactionView<F>>,
    genesis: bool,
    pre: WorldView<F>,
    post: WorldView<F>,
    receipts: Seq<Seq<char>>,
)
    requires
        pre.accounts.dom().finite(),
        forall|i: int| 0 <= i < transactions.len() ==> !((#[trigger] transactions[i]).data is MintTokens),
        runs(transactions, genesis, pre, post, receipts),
    ensures
        post.accounts.dom().finite(),
        total_tokens(post.accounts) == total_tokens(pre.accounts),
    decreases transactions.len(),
{
    if transactions.len() > 0 {
        let mid = choose|mid: WorldView<F>|
            {
                &&& runs(transactions.drop_last(), genesis, pre, mid, receipts.drop_last())
                &&& #[trigger] transactions.last().executes(genesis, mid, post, Ok(receipts.last()))
            };
        assert forall|i: int| 0 <= i < transactions.drop_last().len() implies !((
        #[trigger] transactions.drop_last()[i]).data is MintTokens) by {
            assert(transactions.drop_last()[i] == transactions[i]);
        }
        lemma_run_conserves_tokens(transactions.drop_last(), genesis, pre, mid, receipts.drop_last());
        assert(!(transactions[transactions.len() - 1].data is MintTokens));
        lemma_execution_conserves_tokens(transactions.last(), genesis, mid, post, receipts.last());
    }
}

/// A mint that is executed with success raises the sum of all balances by
/// the amount that was minted.
pub proof fn lemma_mint_adds_tokens<F: Fn(String, String, u128) -> Result<(), String>>(
    transaction: TransactionView<F>,
    genesis: bool,
    pre: WorldView<F>,
    post: WorldView<F>,
    receipt: Seq<char>,
)
    requires
        pre.accounts.dom().finite(),
        transaction.data is MintTokens,
        transaction.executes(genesis, pre, post, Ok(receipt)),
    ensures
        post.accounts.dom().finite(),
        total_tokens(post.accounts) == total_tokens(pre.accounts) + transaction.data->MintTokens_amount,
{
    match transaction.data {
        TransactionDataView::MintTokens { receiver, amount } => {
            let account = pre.accounts[receiver];
            lemma_total_tokens_insert(
                pre.accounts,
                receiver,
                account.with_tokens((account.tokens + amount) as u128),
            );
        },
        _ => {},
    }
}

impl<F> TransactionView<F> {
    /// The transaction mints, transfers or writes a store entry: what it
    /// does is decided by the state alone.
    pub open spec fn is_plain(self) -> bool {
        self.data is MintTokens || self.data is Transfer || self.data is ChangeStoreValue
    }
}

/// What a plain transaction does is decided by the state it is executed in:
/// two executions in the same state end in the same state with the same
/// result.
pub proof fn lemma_plain_execution_is_determined<F: Fn(String, String, u128) -> Result<(), String>>(
    transaction: TransactionView<F>,
    genesis: bool,
    pre: WorldView<F>,
    first: (WorldView<F>, Outcome),
    second: (WorldView<F>, Outcome),
)
    requires
        transaction.is_plain(),
        transaction.executes(genesis, pre, first.0, first.1),
        transaction.executes(genesis, pre, second.0, second.1),
    ensures
        first == second,
{
}

/// Plain transactions that are executed one after the other, each with
/// success, lead to one state and one list of receipts only.
pub proof fn lemma_plain_run_is_determined<F: Fn(String, String, u128) -> Result<(), String>>(
    transactions: Seq<TransactionView<F>>,
    genesis: bool,
    pre: WorldView<F>,
    first: (WorldView<F>, Seq<Seq<char>>),
    second: (WorldView<F>, Seq<Seq<char>>),
)
    requires
        forall|i: int| 0 <= i < transactions.len() ==> (#[trigger] transactions[i]).is_plain(),
        runs(transactions, genesis, pre, first.0, first.1),
        runs(transactions, genesis, pre, second.0, second.1),
    ensures
        first == second,
    decreases transactions.len(),
{
    if transactions.len() == 0 {
        assert(first.1 =~= second.1);
    } else {
        let front = transactions.drop_last();
        let last = transactions.last();
        let mid1 = choose|mid: WorldView<F>|
            {
                &&& runs(front, genesis, pre, mid, first.1.drop_last())
                &&& #[trigger] last.executes(genesis, mid, first.0, Ok(first.1.last()))
            };
        let mid2 = choose|mid: WorldView<F>|
            {
                &&& runs(front, genesis, pre, mid, second.1.drop_last())
                &&& #[trigger] last.executes(genesis, mid, second.0, Ok(second.1.last()))
            };
        assert forall|i: int| 0 <= i < front.len() implies (#[trigger] front[i]).is_plain() by {
            assert(front[i] == transactions[i]);
        }
        lemma_plain_run_is_determined(
            front,
            genesis,
            pre,
            (mid1, first.1.drop_last()),
            (mid2, second.1.drop_last()),
        );
        assert(transactions[transactions.len() - 1].is_plain());
        lemma_plain_execution_is_determined(
            last,
            genesis,
            mid1,
            (first.0, Ok(first.1.last())),
            (second.0, Ok(second.1.last())),
        );
        assert(first.1 =~= first.1.drop_last().push(first.1.last()));
        assert(second.1 =~= second.1.drop_last().push(second.1.last()));
    }
}

/// Whether the state `state` can be what the transactions of `blocks`,
/// executed block after block from the state `origin`, have made.  The first
/// block is executed as the genesis block.
pub open spec fn replays<F: Fn(String, String, u128) -> Result<(), String>>(
    blocks: Seq<BlockView<F>>,
    origin: WorldView<F>,
    state: WorldView<F>,
) -> bool
    decreases blocks.len(),
{
    if blocks.len() == 0 {
        state == origin
    } else {
        let genesis = blocks.len() == 1;
        exists|mid: WorldView<F>, receipts: Seq<Seq<char>>|
            {
                &&& replays(blocks.drop_last(), origin, mid)
                &&& #[trigger] runs(blocks.last().transactions, genesis, mid, state, receipts)
            }
    }
}

/// The state of a chain stays the replay of its blocks when a block is
/// appended and its transactions are executed.
pub proof fn lemma_append_extends_replay<F: Fn(String, String, u128) -> Result<(), String>>(
    blocks: Seq<BlockView<F>>,
    origin: WorldView<F>,
    state: WorldView<F>,
    block: BlockView<F>,
    post: WorldView<F>,
    receipts: Seq<Seq<char>>,
)
    requires
        replays(blocks, origin, state),
        runs(block.transactions, blocks.len() == 0, state, post, receipts),
    ensures
        replays(blocks.push(block), origin, post),
{
    let longer = blocks.push(block);
    assert(longer.drop_last() =~= blocks);
    assert(longer.last() == block);
    let genesis = longer.len() == 1;
    assert(runs(longer.last().transactions, genesis, state, post, receipts));
}

/// The signature is not part of what is hashed: transactions that differ in
/// their signature alone have the same hash.
pub proof fn lemma_signature_is_not_hashed<F>(a: TransactionView<F>, b: TransactionView<F>)
    requires
        a == (TransactionView { signature: a.signature, ..b }),
    ensures
        a.text() == b.text(),
        a.digest() == b.digest(),
{
}

/// The hash that belongs to a block does not depend on the hash that the
/// block stores, and sealing a block makes its hash current.
pub proof fn lemma_sealed_is_current<F>(block: BlockView<F>)
    ensures
        block.sealed().digest_text() == block.digest_text(),
        block.sealed().hash_is_current(),
{
}

/// No fault from place `from` on means no fault at any place from `from`
/// on.
proof fn lemma_first_fault_none<F>(blocks: Seq<BlockView<F>>, from: int)
    requires
        0 <= from,
    ensures
        first_fault(blocks, from) is None <==> forall|i: int|
            from <= i < blocks.len() ==> block_fault(blocks, i) is None,
    decreases blocks.len() - from,
{
    if from < blocks.len() {
        lemma_first_fault_none(blocks, from + 1);
        if first_fault(blocks, from) is None {
            assert forall|i: int| from <= i < blocks.len() implies block_fault(blocks, i) is None by {
                if i > from {
                }
            }
        }
    }
}

/// No badly signed transaction from place `from` on means none at any
/// place from `from` on.
proof fn lemma_first_badly_signed_none<F>(transactions: Seq<TransactionView<F>>, from: int)
    requires
        0 <= from,
    ensures
        first_badly_signed(transactions, from) is None <==> forall|j: int|
            from <= j < transactions.len() ==> !(#[trigger] transactions[j]).badly_signed(),
    decreases transactions.len() - from,
{
    if from < transactions.len() {
        lemma_first_badly_signed_none(transactions, from + 1);
        if first_badly_signed(transactions, from) is None {
            assert forall|j: int| from <= j < transactions.len() implies !(
            #[trigger] transactions[j]).badly_signed() by {
                if j > from {
                }
            }
        }
    }
}

/// No transaction of the chain is signed with a signature that does not
/// hold.
pub open spec fn well_signed<F>(blocks: Seq<BlockView<F>>) -> bool {
    forall|i: int, j: int|
        0 <= i < blocks.len() && 0 <= j < blocks[i].transactions.len() ==> !(
        #[trigger] blocks[i].transactions[j]).badly_signed()
}

/// A chain passes the audit exactly if the hash of every block is current,
/// the blocks are linked, and no transaction is signed with a signature
/// that does not hold.
pub proof fn lemma_audit_passes<F>(blocks: Seq<BlockView<F>>)
    ensures
        audit(blocks) is Ok <==> sealed(blocks) && linked(blocks) && well_signed(blocks),
{
    lemma_first_fault_none(blocks, 0);
    assert forall|i: int| 0 <= i < blocks.len() implies (block_fault(blocks, i) is None <==> {
        &&& blocks[i].hash_is_current()
        &&& (i == 0 ==> blocks[i].prev is None)
        &&& (i > 0 ==> blocks[i].prev == blocks[i - 1].hash)
        &&& forall|j: int|
            0 <= j < blocks[i].transactions.len() ==> !(#[trigger] blocks[i].transactions[j]).badly_signed()
    }) by {
        lemma_first_badly_signed_none(blocks[i].transactions, 0);
    }
    if audit(blocks) is Ok {
        assert forall|i: int| 0 <= i < blocks.len() implies (#[trigger] blocks[i]).hash_is_current() by {
            assert(block_fault(blocks, i) is None);
        }
        assert(linked(blocks)) by {
            if blocks.len() > 0 {
                assert(block_fault(blocks, 0) is None);
            }
            assert forall|i: int| 0 < i < blocks.len() implies (#[trigger] blocks[i]).prev == blocks[i
                - 1].hash by {
                assert(block_fault(blocks, i) is None);
            }
        }
        assert forall|i: int, j: int|
            0 <= i < blocks.len() && 0 <= j < blocks[i].transactions.len() implies !(
        #[trigger] blocks[i].transactions[j]).badly_signed() by {
            assert(block_fault(blocks, i) is None);
        }
    }
    if sealed(blocks) && linked(blocks) && well_signed(blocks) {
        assert forall|i: int| 0 <= i < blocks.len() implies block_fault(blocks, i) is None by {
            assert(blocks[i].hash_is_current());
            if i > 0 {
                assert(blocks[i].prev == blocks[i - 1].hash);
            }
            assert forall|j: int| 0 <= j < blocks[i].transactions.len() implies !(
            #[trigger] blocks[i].transactions[j]).badly_signed() by {
            }
        }
    }
}

/// The audit is repeatable: its verdict depends on the blocks alone, so two
/// audits of a chain whose blocks stay as they are give the same verdict.
pub proof fn lemma_audit_is_repeatable<F>(
    blocks: Seq<BlockView<F>>,
    first: Result<(), ChainError>,
    second: Result<(), ChainError>,
)
    requires
        first == audit(blocks),
        second == audit(blocks),
    ensures
        first == second,
{
}

} // verus!
