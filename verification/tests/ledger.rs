use eternal::account::Account;
use eternal::block::Block;
use eternal::blockchain::Blockchain;
use eternal::error::{BlockError, ChainError, TransactionError};
use eternal::transaction::{Timestamp, Transaction, TransactionData};
use eternal::vm::WorldState;

type Handler = fn(String, String, u128) -> Result<(), String>;

fn at(secs: u64) -> Timestamp {
    Timestamp { secs, nanos: 0 }
}

fn account(seed: char) -> Account {
    let key: String = std::iter::repeat(seed).take(32).collect();
    Account::from_key(key).unwrap()
}

fn balance(chain: &Blockchain<Handler>, id: &String) -> u128 {
    chain.get_account_by_id(id).unwrap().tokens
}

/// A chain with the accounts `a` and `b` and a genesis block that mints
/// `minted` tokens for `a`.
fn funded(minted: u128) -> (Blockchain<Handler>, String, String, Block<Handler>) {
    let mut chain: Blockchain<Handler> = Blockchain::new();
    let a = chain.register_account(account('a')).unwrap();
    let b = chain.register_account(account('b')).unwrap();
    let mut genesis: Block<Handler> = Block::new(None);
    genesis.add_transaction(Transaction::at(
        a.clone(),
        TransactionData::MintTokens { receiver: a.clone(), amount: minted },
        1,
        at(1),
    ));
    assert_eq!(chain.append_block(genesis.clone()), Ok(()));
    (chain, a, b, genesis)
}

#[test]
fn genesis_mint_credits_the_receiver() {
    let (chain, a, b, _) = funded(100);
    assert_eq!(balance(&chain, &a), 100);
    assert_eq!(balance(&chain, &b), 0);
    assert_eq!(chain.len(), 1);
    assert_eq!(chain.temp, vec!["Minted".to_string()]);
}

#[test]
fn transfer_in_a_later_block_moves_tokens() {
    let (mut chain, a, b, genesis) = funded(100);
    let mut block: Block<Handler> = Block::new(genesis.hash.clone());
    block.add_transaction(Transaction::at(
        a.clone(),
        TransactionData::Transfer { to: b.clone(), amount: 30 },
        2,
        at(2),
    ));
    assert_eq!(chain.append_block(block), Ok(()));
    assert_eq!(balance(&chain, &a), 70);
    assert_eq!(balance(&chain, &b), 30);
    assert_eq!(chain.len(), 2);
    assert_eq!(chain.check_validity(), Ok(()));
}

#[test]
fn transfer_without_funds_rejects_the_block() {
    let (mut chain, a, b, genesis) = funded(10);
    let mut block: Block<Handler> = Block::new(genesis.hash.clone());
    block.add_transaction(Transaction::at(
        a.clone(),
        TransactionData::Transfer { to: b.clone(), amount: 30 },
        2,
        at(2),
    ));
    assert_eq!(
        chain.append_block(block),
        Err(BlockError::TransactionFailed {
            index: 1,
            cause: TransactionError::ArithmeticOverflowOrInsufficientFunds,
        })
    );
    assert_eq!(balance(&chain, &a), 10);
    assert_eq!(balance(&chain, &b), 0);
    assert_eq!(chain.len(), 1);
}

#[test]
fn account_at_a_taken_address_is_refused() {
    let mut chain: Blockchain<Handler> = Blockchain::new();
    let id = chain.register_account(account('a')).unwrap();
    let mut twin = account('a');
    twin.tokens = 5;
    assert_eq!(chain.register_account(twin), Err(TransactionError::AccountAlreadyExists));
    assert_eq!(chain.get_user_ids(), vec![id.clone()]);
    assert_eq!(balance(&chain, &id), 0);
}

#[test]
fn token_transfer_for_an_unknown_contract_rejects_the_block() {
    let (mut chain, a, b, genesis) = funded(100);
    let mut block: Block<Handler> = Block::new(genesis.hash.clone());
    block.add_transaction(Transaction::at(
        a.clone(),
        TransactionData::TransferToken { token: "etnl:nowhere".to_string(), to: b.clone(), amount: 1 },
        2,
        at(2),
    ));
    assert_eq!(
        chain.append_block(block),
        Err(BlockError::TransactionFailed { index: 1, cause: TransactionError::ContractNotFound })
    );
    assert_eq!(balance(&chain, &a), 100);
    assert_eq!(balance(&chain, &b), 0);
    assert_eq!(chain.len(), 1);
}

#[test]
fn tampered_block_is_found_by_the_audit() {
    let (mut chain, a, b, genesis) = funded(100);
    let mut block: Block<Handler> = Block::new(genesis.hash.clone());
    block.add_transaction(Transaction::at(
        a.clone(),
        TransactionData::Transfer { to: b.clone(), amount: 30 },
        2,
        at(2),
    ));
    assert_eq!(chain.append_block(block), Ok(()));
    assert_eq!(chain.check_validity(), Ok(()));
    chain.blocks[1].transactions[0].data = TransactionData::Transfer { to: b.clone(), amount: 31 };
    assert_eq!(chain.check_validity(), Err(ChainError::HashMismatch { block: 2 }));
}

#[test]
fn errors_have_words() {
    assert_eq!(TransactionError::AccountNotFound.message(), "Account does not exist");
    assert_eq!(TransactionError::AccountAlreadyExists.message(), "Account already exists");
    assert_eq!(TransactionError::ContractNotFound.message(), "Token does not exist");
    assert_eq!(TransactionError::ContractAlreadyExists.message(), "Contract already exists");
    assert_eq!(TransactionError::ContractNotTransferable.message(), "Not a transferable asset");
    assert_eq!(
        TransactionError::ArithmeticOverflowOrInsufficientFunds.message(),
        "Overspent or arithmetic error"
    );
    assert_eq!(
        TransactionError::InvalidStoreKey.message(),
        "Can not change store related to a smart contract"
    );
    assert_eq!(
        TransactionError::GenesisOnlyOperation.message(),
        "Token creation is only available on initial creation"
    );
    assert_eq!(TransactionError::ContractCallFailed.message(), "The contract refused the call");
    assert_eq!(BlockError::HashMismatch.message(), "The block hash is mismatching");
    assert_eq!(
        BlockError::ChainLinkageMismatch.message(),
        "The new block has to point to the previous block"
    );
    assert_eq!(
        BlockError::EmptyBlock.message(),
        "There has to be at least one transaction inside the block"
    );
    assert_eq!(
        BlockError::TransactionFailed { index: 12, cause: TransactionError::ContractNotFound }.message(),
        "Could not execute transaction 12 due to `Token does not exist`. Rolling back"
    );
    assert_eq!(
        ChainError::HashMismatch { block: 2 }.message(),
        "Stored hash for Block #2 does not match calculated hash"
    );
    assert_eq!(
        ChainError::ChainLinkageMismatch { block: 10 }.message(),
        "Block #10 is not connected to previous block"
    );
    assert_eq!(
        ChainError::InvalidSignature { block: 3, transaction: 4 }.message(),
        "Transaction #4 for Block #3 has an invalid signature"
    );
}
