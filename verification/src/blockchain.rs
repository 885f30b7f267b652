//! The chain: the blocks that were accepted, and the state that their
//! transactions have made.
use vstd::pervasive::unreached;
use vstd::prelude::*;
use crate::account::{Account, AccountType, AccountView};
use crate::block::{Block, BlockView};
use crate::error::{outcome_of, BlockError, ChainError, TransactionError};
use crate::smart_contract::SmartContract;
use crate::string_map::{lemma_map_of_keys, StringMap};
use crate::text::{optional_view, same_optional_string};
use crate::transaction::{Transaction, TransactionView};
use crate::vm::{lists_keys, WorldState, WorldView};

verus! {

/// A chain: its blocks, the contracts and accounts that their transactions
/// have made, the receipts of these transactions, and the transactions that
/// wait for a block.
#[derive(Debug, Clone)]
pub struct Blockchain<F> {
    pub blocks: Vec<Block<F>>,
    pub smart_contracts: StringMap<SmartContract<F>>,
    pub accounts: StringMap<Account>,
    /// The receipts of the transactions that were executed, in their order.
    pub temp: Vec<String>,
    pub pending_transactions: Vec<Transaction<F>>,
}

/// The hash that the next block has to point to: that of the last block, and
/// nothing for a chain without blocks.
pub open spec fn tip<F>(blocks: Seq<BlockView<F>>) -> Option<Seq<char>> {
    if blocks.len() == 0 {
        None
    } else {
        blocks.last().hash
    }
}

/// The first block points to nothing, and every other block points to the
/// block before it.
pub open spec fn linked<F>(blocks: Seq<BlockView<F>>) -> bool {
    &&& blocks.len() > 0 ==> blocks[0].prev is None
    &&& forall|i: int| 0 < i < blocks.len() ==> (#[trigger] blocks[i]).prev == blocks[i - 1].hash
}

/// The stored hash of every block is the hash that belongs to its contents.
pub open spec fn sealed<F>(blocks: Seq<BlockView<F>>) -> bool {
    forall|i: int| 0 <= i < blocks.len() ==> (#[trigger] blocks[i]).hash_is_current()
}

/// Whether executing `transactions` one after the other, each with success,
/// can lead from the state `pre` to the state `post` and give `receipts`.
pub open spec fn runs<F: Fn(String, String, u128) -> Result<(), String>>(
    transactions: Seq<TransactionView<F>>,
    genesis: bool,
    pre: WorldView<F>,
    post: WorldView<F>,
    receipts: Seq<Seq<char>>,
) -> bool
    decreases transactions.len(),
{
    if transactions.len() == 0 {
        post == pre && receipts.len() == 0
    } else {
        &&& receipts.len() == transactions.len()
        &&& exists|mid: WorldView<F>|
            {
                &&& runs(transactions.drop_last(), genesis, pre, mid, receipts.drop_last())
                &&& #[trigger] transactions.last().executes(genesis, mid, post, Ok(receipts.last()))
            }
    }
}

/// Whether the transactions before place `index`, counted from 1, can be
/// executed from the state `pre`, each with success, and the transaction at
/// that place can then be refused with `cause`.
pub open spec fn fails_at<F: Fn(String, String, u128) -> Result<(), String>>(
    transactions: Seq<TransactionView<F>>,
    genesis: bool,
    pre: WorldView<F>,
    index: int,
    cause: TransactionError,
) -> bool {
    &&& 1 <= index <= transactions.len()
    &&& exists|mid: WorldView<F>, receipts: Seq<Seq<char>>|
        {
            &&& #[trigger] runs(transactions.take(index - 1), genesis, pre, mid, receipts)
            &&& transactions[index - 1].executes(genesis, mid, mid, Err(cause))
        }
}

/// The place of the first transaction, from place `from` on, that is signed
/// with a signature that does not hold.
pub open spec fn first_badly_signed<F>(transactions: Seq<TransactionView<F>>, from: int) -> Option<
    int,
>
    decreases transactions.len() - from,
{
    if from < 0 || from >= transactions.len() {
        None
    } else if transactions[from].badly_signed() {
        Some(from)
    } else {
        first_badly_signed(transactions, from + 1)
    }
}

/// What is wrong with the block at place `i`, if anything: its hash, then
/// its pointer, then the signatures of its transactions.
pub open spec fn block_fault<F>(blocks: Seq<BlockView<F>>, i: int) -> Option<ChainError> {
    let block = blocks[i];
    if !block.hash_is_current() {
        Some(ChainError::HashMismatch { block: (i + 1) as usize })
    } else if (i == 0 && block.prev is Some) || (i > 0 && block.prev != blocks[i - 1].hash) {
        Some(ChainError::ChainLinkageMismatch { block: (i + 1) as usize })
    } else {
        match first_badly_signed(block.transactions, 0) {
            Some(j) => Some(
                ChainError::InvalidSignature { block: (i + 1) as usize, transaction: (j + 1) as usize },
            ),
            None => None,
        }
    }
}

/// What is wrong with the first block, from place `from` on, with which
/// something is wrong.
pub open spec fn first_fault<F>(blocks: Seq<BlockView<F>>, from: int) -> Option<ChainError>
    decreases blocks.len() - from,
{
    if from < 0 || from >= blocks.len() {
        None
    } else {
        match block_fault(blocks, from) {
            Some(fault) => Some(fault),
            None => first_fault(blocks, from + 1),
        }
    }
}

/// The verdict on a chain: the first fault that is found, going through the
/// blocks in their order.
pub open spec fn audit<F>(blocks: Seq<BlockView<F>>) -> Result<(), ChainError> {
    match first_fault(blocks, 0) {
        Some(fault) => Err(fault),
        None => Ok(()),
    }
}

/// The characters of each receipt.
pub open spec fn texts(receipts: Seq<String>) -> Seq<Seq<char>> {
    Seq::new(receipts.len(), |i: int| receipts[i]@)
}

impl<F> Blockchain<F> {
    /// The mathematical values of the blocks.
    pub open spec fn blocks_view(&self) -> Seq<BlockView<F>> {
        Seq::new(self.blocks@.len(), |i: int| self.blocks@[i]@)
    }

    /// A chain without blocks, accounts and contracts.
    pub fn new() -> (r: Self)
        ensures
            r.blocks@.len() == 0,
            r.accounts@ == Map::<Seq<char>, AccountView>::empty(),
            r.smart_contracts@ == Map::<Seq<char>, crate::smart_contract::SmartContractView<F>>::empty(),
            r.accounts.wf(),
            r.smart_contracts.wf(),
            r.temp@.len() == 0,
            r.pending_transactions@.len() == 0,
            linked(r.blocks_view()),
            sealed(r.blocks_view()),
    {
        Blockchain {
            blocks: Vec::new(),
            accounts: StringMap::new(),
            temp: Vec::new(),
            smart_contracts: StringMap::new(),
            pending_transactions: Vec::new(),
        }
    }

    /// The number of blocks.
    pub fn len(&self) -> (r: usize)
        ensures
            r == self.blocks@.len(),
    {
        self.blocks.len()
    }

    /// The hash of the last block; nothing for a chain without blocks.
    pub fn get_last_block_hash(&self) -> (r: Option<String>)
        ensures
            optional_view(r) == tip(self.blocks_view()),
    {
        if self.len() == 0 {
            return None;
        }
        match &self.blocks[self.len() - 1].hash {
            Some(hash) => Some(hash.clone()),
            None => None,
        }
    }

    /// The place of the first block whose hash is `hash`, if there is one.
    pub fn find_block(&self, hash: &String) -> (r: Option<usize>)
        ensures
            match r {
                Some(i) => i < self.blocks@.len() && self.blocks_view()[i as int].hash == Some(hash@)
                    && forall|j: int| 0 <= j < i ==> self.blocks_view()[j].hash != Some(hash@),
                None => forall|j: int|
                    0 <= j < self.blocks@.len() ==> self.blocks_view()[j].hash != Some(hash@),
            },
    {
        let mut i: usize = 0;
        while i < self.blocks.len()
            invariant
                i <= self.blocks@.len(),
                forall|j: int| 0 <= j < i ==> self.blocks_view()[j].hash != Some(hash@),
            decreases self.blocks.len() - i,
        {
            let found = match &self.blocks[i].hash {
                Some(h) => *h == *hash,
                None => false,
            };
            if found {
                return Some(i);
            }
            i = i + 1;
        }
        None
    }

    /// The first block whose hash is `hash`.
    pub fn get_block(&self, hash: String) -> (r: &Block<F>)
        requires
            exists|i: int| 0 <= i < self.blocks@.len() && self.blocks_view()[i].hash == Some(hash@),
        ensures
            exists|i: int|
                {
                    &&& 0 <= i < self.blocks@.len()
                    &&& *r == #[trigger] self.blocks@[i]
                    &&& r@.hash == Some(hash@)
                    &&& forall|j: int| 0 <= j < i ==> self.blocks_view()[j].hash != Some(hash@)
                },
    {
        match self.find_block(&hash) {
            Some(i) => &self.blocks[i],
            None => unreached(),
        }
    }
}

impl<F: Fn(String, String, u128) -> Result<(), String> + Copy> Blockchain<F> {
    /// Adds `account` under its address and hands the address back.  Fails,
    /// and changes nothing, if the address is taken.
    pub fn register_account(&mut self, account: Account) -> (r: Result<String, TransactionError>)
        requires
            account.wf(),
        ensures
            (final(self).state(), outcome_of(r)) == old(self).state().register(account@),
            final(self).rest() == old(self).rest(),
            final(self).smart_contracts == old(self).smart_contracts,
            r is Err ==> final(self).accounts == old(self).accounts,
            old(self).accounts.wf() ==> final(self).accounts.wf(),
    {
        let id = account.generate_adress();
        if self.accounts.contains_key(&id) {
            return Err(TransactionError::AccountAlreadyExists);
        }
        self.accounts.insert(id.clone(), account);
        Ok(id)
    }

    /// Deploys `smart_contract` with `account` as its account: adds the
    /// account and the contract under the account's address and hands the
    /// address back.  Fails, and changes nothing, if the address is taken
    /// by an account or by a contract.
    pub fn register_smart_contact(&mut self, smart_contract: SmartContract<F>, account: Account) -> (r:
        Result<String, TransactionError>)
        requires
            account.wf(),
        ensures
            (final(self).state(), outcome_of(r)) == old(self).state().deploy(
                smart_contract@,
                account@,
            ),
            final(self).rest() == old(self).rest(),
            r is Err ==> final(self).accounts == old(self).accounts && final(self).smart_contracts
                == old(self).smart_contracts,
            old(self).accounts.wf() ==> final(self).accounts.wf(),
            old(self).smart_contracts.wf() ==> final(self).smart_contracts.wf(),
    {
        let id = account.generate_adress();
        if self.accounts.contains_key(&id) {
            return Err(TransactionError::AccountAlreadyExists);
        }
        if self.smart_contracts.contains_key(&id) {
            return Err(TransactionError::ContractAlreadyExists);
        }
        self.accounts.insert(id.clone(), account);
        self.smart_contracts.insert(id.clone(), smart_contract);
        Ok(id)
    }

    /// Adds two user accounts with key pairs of their own, one with 100000
    /// tokens and one with 10000, and hands back their addresses, that of
    /// the richer one first.  An account that stood at one of the addresses
    /// is replaced.
    pub fn get_bob_alice(&mut self) -> (r: (String, String))
        ensures
            final(self).rest() == old(self).rest(),
            final(self).smart_contracts == old(self).smart_contracts,
            exists|bob: AccountView, alice: AccountView|
                {
                    &&& bob.tokens == 100_000 && bob.with_tokens(0).is_new(AccountType::User)
                    &&& alice.tokens == 10_000 && alice.with_tokens(0).is_new(AccountType::User)
                    &&& bob.is_derived() && alice.is_derived()
                    &&& r.0@ == bob.address()
                    &&& r.1@ == alice.address()
                    &&& #[trigger] old(self).accounts@.insert(alice.address(), alice).insert(
                        bob.address(),
                        bob,
                    ) == final(self).accounts@
                },
    {
        let mut alice = Account::new(AccountType::User);
        let mut bob = Account::new(AccountType::User);
        let ghost alice_secret = choose|secret: Seq<u8>| #[trigger] alice@.has_keys_of(secret)
            && alice@.private_key == crate::text::hex_text(secret, false);
        let ghost bob_secret = choose|secret: Seq<u8>| #[trigger] bob@.has_keys_of(secret)
            && bob@.private_key == crate::text::hex_text(secret, false);
        bob.tokens = 100_000;
        alice.tokens = 10_000;
        assert(alice@.has_keys_of(alice_secret) && bob@.has_keys_of(bob_secret));
        let alice_addr = alice.generate_adress();
        let bob_addr = bob.generate_adress();
        let ghost alice_view = alice@;
        let ghost bob_view = bob@;
        self.accounts.insert(alice_addr.clone(), alice);
        self.accounts.insert(bob_addr.clone(), bob);
        proof {
            assert(old(self).accounts@.insert(alice_view.address(), alice_view).insert(
                bob_view.address(),
                bob_view,
            ) == self.accounts@);
        }
        (bob_addr, alice_addr)
    }
}

impl<F: Fn(String, String, u128) -> Result<(), String> + Copy> Blockchain<F> {
    /// A copy of the accounts.
    fn accounts_snapshot(&self) -> (r: StringMap<Account>)
        ensures
            r.pairs() == self.accounts.pairs(),
            r@ == self.accounts@,
    {
        let copy = |account: &Account| -> (r: Account)
            ensures
                r@ == account@,
            { account.duplicate() };
        self.accounts.duplicate_with(copy)
    }

    /// A copy of the contracts.
    fn contracts_snapshot(&self) -> (r: StringMap<SmartContract<F>>)
        ensures
            r.pairs() == self.smart_contracts.pairs(),
            r@ == self.smart_contracts@,
    {
        let copy = |contract: &SmartContract<F>| -> (r: SmartContract<F>)
            ensures
                r@ == contract@,
            { contract.duplicate() };
        self.smart_contracts.duplicate_with(copy)
    }

    /// Appends `block` to the chain and executes its transactions, all of
    /// them or none.
    ///
    /// The block is refused if its hash is not current, if it does not point
    /// to the last block of the chain, or if it is empty, in this order.
    /// Its transactions are then executed one after the other; as first
    /// block it is the genesis block.  If one of them is refused, the
    /// accounts and contracts are put back to what they were, and the block
    /// is refused with the place of that transaction and the reason.
    pub fn append_block(&mut self, block: Block<F>) -> (r: Result<(), BlockError>)
        requires
            old(self).state().wf(),
            forall|i: int| 0 <= i < block@.transactions.len() ==> (#[trigger] block@.transactions[i]).wf(),
        ensures
            final(self).state().wf(),
            final(self).pending_transactions == old(self).pending_transactions,
            linked(old(self).blocks_view()) ==> linked(final(self).blocks_view()),
            sealed(old(self).blocks_view()) ==> sealed(final(self).blocks_view()),
            r == Err::<(), _>(BlockError::HashMismatch) <==> !block@.hash_is_current(),
            r == Err::<(), _>(BlockError::ChainLinkageMismatch) <==> block@.hash_is_current()
                && block@.prev != tip(old(self).blocks_view()),
            r == Err::<(), _>(BlockError::EmptyBlock) <==> block@.hash_is_current() && block@.prev
                == tip(old(self).blocks_view()) && block@.transactions.len() == 0,
            match r {
                Ok(_) => {
                    &&& block@.hash_is_current()
                    &&& block@.prev == tip(old(self).blocks_view())
                    &&& block@.transactions.len() > 0
                    &&& final(self).blocks@ == old(self).blocks@.push(block)
                    &&& exists|receipts: Seq<Seq<char>>|
                        {
                            &&& runs(
                                block@.transactions,
                                old(self).blocks@.len() == 0,
                                old(self).state(),
                                final(self).state(),
                                receipts,
                            )
                            &&& texts(final(self).temp@) == #[trigger] (texts(old(self).temp@)
                                + receipts)
                        }
                },
                Err(e) => {
                    &&& final(self).state() == old(self).state()
                    &&& final(self).accounts.pairs() == old(self).accounts.pairs()
                    &&& final(self).smart_contracts.pairs() == old(self).smart_contracts.pairs()
                    &&& final(self).blocks == old(self).blocks
                    &&& final(self).temp == old(self).temp
                    &&& match e {
                        BlockError::TransactionFailed { index, cause } => fails_at(
                            block@.transactions,
                            old(self).blocks@.len() == 0,
                            old(self).state(),
                            index as int,
                            cause,
                        ),
                        _ => true,
                    }
                },
            },
    {
        let is_genesis = self.len() == 0;
        if !block.verify_own_hash() {
            return Err(BlockError::HashMismatch);
        }
        if !same_optional_string(&block.prev, &self.get_last_block_hash()) {
            return Err(BlockError::ChainLinkageMismatch);
        }
        if block.get_transaction_count() == 0 {
            return Err(BlockError::EmptyBlock);
        }
        let accounts = self.accounts_snapshot();
        let contracts = self.contracts_snapshot();
        let mut receipts: Vec<String> = Vec::new();
        let ghost transactions = block@.transactions;
        let mut i: usize = 0;
        while i < block.transactions.len()
            invariant
                i <= block.transactions.len(),
                transactions == block@.transactions,
                transactions.len() > 0,
                block@.hash_is_current(),
                block@.prev == tip(old(self).blocks_view()),
                is_genesis == (old(self).blocks@.len() == 0),
                self.blocks == old(self).blocks,
                self.temp == old(self).temp,
                self.pending_transactions == old(self).pending_transactions,
                accounts.pairs() == old(self).accounts.pairs(),
                contracts.pairs() == old(self).smart_contracts.pairs(),
                self.state().wf(),
                old(self).state().wf(),
                forall|k: int| 0 <= k < transactions.len() ==> (#[trigger] transactions[k]).wf(),
                receipts@.len() == i,
                runs(
                    transactions.take(i as int),
                    is_genesis,
                    old(self).state(),
                    self.state(),
                    texts(receipts@),
                ),
            decreases block.transactions.len() - i,
        {
            let ghost before = self.state();
            let ghost receipts_before = texts(receipts@);
            assert(transactions[i as int].wf());
            assert(block.transactions[i as int]@ == transactions[i as int]);
            match block.transactions[i].execute(self, &is_genesis) {
                Err(cause) => {
                    self.accounts = accounts;
                    self.smart_contracts = contracts;
                    proof {
                        assert(self.state() == old(self).state());
                        assert(runs(
                            transactions.take(i + 1 - 1),
                            is_genesis,
                            old(self).state(),
                            before,
                            receipts_before,
                        ));
                    }
                    return Err(BlockError::TransactionFailed { index: i + 1, cause });
                },
                Ok(receipt) => {
                    receipts.push(receipt);
                    proof {
                        let done = transactions.take(i + 1);
                        let now = texts(receipts@);
                        assert(done.drop_last() =~= transactions.take(i as int));
                        assert(done.last() == transactions[i as int]);
                        assert(now.drop_last() =~= receipts_before);
                        assert(now.last() == receipt@);
                        lemma_runs_step(done, is_genesis, old(self).state(), before, self.state(), now);
                    }
                },
            }
            i = i + 1;
        }
        proof {
            assert(transactions.take(i as int) =~= transactions);
        }
        let ghost block_receipts = texts(receipts@);
        let ghost old_receipts = texts(self.temp@);
        self.temp.append(&mut receipts);
        self.blocks.push(block);
        proof {
            assert(texts(self.temp@) =~= old_receipts + block_receipts);
            assert(self.blocks_view() =~= old(self).blocks_view().push(block@));
            if linked(old(self).blocks_view()) {
                lemma_linked_push(old(self).blocks_view(), block@);
            }
        }
        Ok(())
    }

    /// The place of the first transaction of `block` that is signed with a
    /// signature that does not hold.
    fn first_bad_signature(block: &Block<F>) -> (r: Option<usize>)
        ensures
            match r {
                Some(j) => j < usize::MAX && first_badly_signed(block@.transactions, 0) == Some(j as int),
                None => first_badly_signed(block@.transactions, 0) is None,
            },
    {
        let mut j: usize = 0;
        while j < block.transactions.len()
            invariant
                j <= block.transactions@.len(),
                first_badly_signed(block@.transactions, 0) == first_badly_signed(
                    block@.transactions,
                    j as int,
                ),
            decreases block.transactions.len() - j,
        {
            let transaction = &block.transactions[j];
            assert(transaction@ == block@.transactions[j as int]);
            if transaction.is_signed() && !transaction.check_signature() {
                return Some(j);
            }
            j = j + 1;
        }
        None
    }

    /// What is wrong with the block at place `i`, if anything.
    fn check_block(&self, i: usize) -> (r: Option<ChainError>)
        requires
            i < self.blocks.len(),
        ensures
            r == block_fault(self.blocks_view(), i as int),
    {
        let block = &self.blocks[i];
        assert(block@ == self.blocks_view()[i as int]);
        if !block.verify_own_hash() {
            return Some(ChainError::HashMismatch { block: i + 1 });
        }
        let linked = if i == 0 {
            block.prev.is_none()
        } else {
            assert(self.blocks[i - 1]@ == self.blocks_view()[i - 1]);
            same_optional_string(&block.prev, &self.blocks[i - 1].hash)
        };
        if !linked {
            return Some(ChainError::ChainLinkageMismatch { block: i + 1 });
        }
        match Self::first_bad_signature(block) {
            Some(j) => Some(ChainError::InvalidSignature { block: i + 1, transaction: j + 1 }),
            None => None,
        }
    }

    /// Goes through the chain and hands back the first fault: a block whose
    /// hash is not current, a block that does not point to the block before
    /// it, or a transaction with a signature that does not hold.
    pub fn check_validity(&self) -> (r: Result<(), ChainError>)
        ensures
            r == audit(self.blocks_view()),
    {
        let mut i: usize = 0;
        while i < self.blocks.len()
            invariant
                i <= self.blocks@.len(),
                first_fault(self.blocks_view(), 0) == first_fault(self.blocks_view(), i as int),
            decreases self.blocks.len() - i,
        {
            match self.check_block(i) {
                Some(fault) => {
                    return Err(fault);
                },
                None => {},
            }
            i = i + 1;
        }
        Ok(())
    }
}

/// One more transaction that is executed with success extends a run.
pub proof fn lemma_runs_step<F: Fn(String, String, u128) -> Result<(), String>>(
    transactions: Seq<TransactionView<F>>,
    genesis: bool,
    pre: WorldView<F>,
    mid: WorldView<F>,
    post: WorldView<F>,
    receipts: Seq<Seq<char>>,
)
    requires
        transactions.len() > 0,
        receipts.len() == transactions.len(),
        runs(transactions.drop_last(), genesis, pre, mid, receipts.drop_last()),
        transactions.last().executes(genesis, mid, post, Ok(receipts.last())),
    ensures
        runs(transactions, genesis, pre, post, receipts),
{
}

/// A chain stays linked when a block that points to its last block is put
/// behind it.
pub proof fn lemma_linked_push<F>(blocks: Seq<BlockView<F>>, block: BlockView<F>)
    requires
        linked(blocks),
        block.prev == tip(blocks),
    ensures
        linked(blocks.push(block)),
{
    let longer = blocks.push(block);
    assert forall|i: int| 0 < i < longer.len() implies (#[trigger] longer[i]).prev == longer[i - 1].hash by {
        if i < blocks.len() {
            assert(blocks[i].prev == blocks[i - 1].hash);
        }
    }
}

impl<F: Fn(String, String, u128) -> Result<(), String> + Copy> WorldState<F> for Blockchain<F> {
    type Rest = (Vec<Block<F>>, Vec<String>, Vec<Transaction<F>>);

    open spec fn state(&self) -> WorldView<F> {
        WorldView { accounts: self.accounts@, contracts: self.smart_contracts@ }
    }

    open spec fn rest(&self) -> Self::Rest {
        (self.blocks, self.temp, self.pending_transactions)
    }

    fn get_user_ids(&self) -> (r: Vec<String>) {
        let r = self.accounts.keys();
        proof {
            assert forall|k: Seq<char>|
                self.accounts@.contains_key(k) <==> exists|i: int| 0 <= i < r@.len() && r@[i]@ == k by {
                lemma_map_of_keys(self.accounts.pairs(), k);
                if self.accounts@.contains_key(k) {
                    let i = choose|i: int|
                        0 <= i < self.accounts.pairs().len() && self.accounts.pairs()[i].0 == k;
                    assert(r@[i]@ == k);
                }
                if exists|i: int| 0 <= i < r@.len() && r@[i]@ == k {
                    let i = choose|i: int| 0 <= i < r@.len() && r@[i]@ == k;
                    assert(self.accounts.pairs()[i].0 == k);
                }
            }
        }
        r
    }

    fn get_account_by_id_mut(&mut self, id: &String) -> (r: Option<&mut Account>) {
        self.accounts.get_mut(id)
    }

    fn get_account_by_id(&self, id: &String) -> (r: Option<&Account>) {
        self.accounts.get(id)
    }

    fn create_account(&mut self, account_type: AccountType) -> (r: Result<String, TransactionError>) {
        let account = Account::new(account_type);
        let ghost view = account@;
        let r = self.register_account(account);
        assert(view.is_new(account_type) && view.is_derived() && old(self).state().register(view)
            == (self.state(), outcome_of(r)));
        r
    }

    fn get_smart_contact_ids(&self) -> (r: Vec<String>) {
        let r = self.smart_contracts.keys();
        proof {
            assert forall|k: Seq<char>|
                self.smart_contracts@.contains_key(k) <==> exists|i: int|
                    0 <= i < r@.len() && r@[i]@ == k by {
                lemma_map_of_keys(self.smart_contracts.pairs(), k);
                if self.smart_contracts@.contains_key(k) {
                    let i = choose|i: int|
                        0 <= i < self.smart_contracts.pairs().len() && self.smart_contracts.pairs()[i].0
                            == k;
                    assert(r@[i]@ == k);
                }
                if exists|i: int| 0 <= i < r@.len() && r@[i]@ == k {
                    let i = choose|i: int| 0 <= i < r@.len() && r@[i]@ == k;
                    assert(self.smart_contracts.pairs()[i].0 == k);
                }
            }
        }
        r
    }

    fn get_smart_contact_by_id_mut(&mut self, id: &String) -> (r: Option<&mut SmartContract<F>>) {
        self.smart_contracts.get_mut(id)
    }

    fn get_smart_contact_by_id(&self, id: &String) -> (r: Option<&SmartContract<F>>) {
        self.smart_contracts.get(id)
    }

    fn create_smart_contact(&mut self, smart_contract: SmartContract<F>) -> (r: Result<
        String,
        TransactionError,
    >) {
        let account = Account::new(AccountType::Contract);
        let ghost view = account@;
        let ghost contract = smart_contract@;
        let r = self.register_smart_contact(smart_contract, account);
        assert(view.is_new(AccountType::Contract) && view.is_derived() && old(self).state().deploy(
            contract,
            view,
        ) == (self.state(), outcome_of(r)));
        r
    }

    fn get_accounts(&mut self) -> (r: &mut StringMap<Account>) {
        &mut self.accounts
    }

    fn get_smart_contacts(&mut self) -> (r: &mut StringMap<SmartContract<F>>) {
        &mut self.smart_contracts
    }
}

} // verus!
