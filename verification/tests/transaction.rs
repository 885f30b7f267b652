use eternal::account::{Account, AccountType};
use eternal::blockchain::Blockchain;
use eternal::error::TransactionError;
use eternal::smart_contract::{SmartContract, SmartContractApi, SmartContractStanderd};
use eternal::transaction::{
    is_contract_key, store_in_all, Timestamp, Transaction, TransactionData,
};
use eternal::vm::WorldState;
use sha2::{Digest, Sha256};

type Handler = fn(String, String, u128) -> Result<(), String>;

fn allow(_from: String, _to: String, _amount: u128) -> Result<(), String> {
    Ok(())
}

fn deny(from: String, to: String, amount: u128) -> Result<(), String> {
    Err(format!("{} -> {}: {}", from, to, amount))
}

fn token(standard: SmartContractStanderd, supply: u128, transfer: Handler) -> SmartContract<Handler> {
    SmartContract::new(
        standard,
        SmartContractApi::ESC20 { publisher: "p".to_string(), total_suply: supply, transfer },
    )
}

fn account(seed: char) -> Account {
    let key: String = std::iter::repeat(seed).take(32).collect();
    Account::from_key(key).unwrap()
}

fn tx(from: &String, data: TransactionData<Handler>) -> Transaction<Handler> {
    Transaction::at(from.clone(), data, 1, Timestamp { secs: 10, nanos: 20 })
}

/// A chain with the accounts `a`, holding `tokens`, and `b`, holding nothing.
fn world(tokens: u128) -> (Blockchain<Handler>, String, String) {
    let mut chain: Blockchain<Handler> = Blockchain::new();
    let mut rich = account('a');
    rich.tokens = tokens;
    let a = chain.register_account(rich).unwrap();
    let b = chain.register_account(account('b')).unwrap();
    (chain, a, b)
}

fn balance(chain: &Blockchain<Handler>, id: &String) -> u128 {
    chain.get_account_by_id(id).unwrap().tokens
}

fn entry(chain: &Blockchain<Handler>, id: &String, key: &String) -> Option<String> {
    chain.get_account_by_id(id).unwrap().store.get(key).cloned()
}

#[test]
fn new_transaction_is_unsigned_and_created_now() {
    let t: Transaction<Handler> = Transaction::new("me".to_string(), TransactionData::CreateUserAccount, 9);
    assert_eq!(t.from, "me");
    assert_eq!(t.nonce, 9);
    assert!(t.data == TransactionData::CreateUserAccount);
    assert_eq!(t.signature, None);
    assert!(!t.is_signed());
    assert!(t.created_at.secs > 1_600_000_000);
    assert!(t.created_at.nanos < 1_000_000_000);
}

#[test]
fn transaction_at_a_given_time() {
    let t: Transaction<Handler> = Transaction::at(
        "me".to_string(),
        TransactionData::Transfer { to: "you".to_string(), amount: 3 },
        4,
        Timestamp { secs: 5, nanos: 6 },
    );
    assert_eq!(t.created_at, Timestamp { secs: 5, nanos: 6 });
    assert_eq!(t.from, "me");
    assert_eq!(t.nonce, 4);
    assert_eq!(t.signature, None);
    assert!(t.data == TransactionData::Transfer { to: "you".to_string(), amount: 3 });
}

#[test]
fn signature_is_reported_and_never_accepted() {
    let mut t: Transaction<Handler> =
        Transaction::at("me".to_string(), TransactionData::CreateUserAccount, 0, Timestamp { secs: 0, nanos: 0 });
    assert!(!t.is_signed());
    assert!(!t.check_signature());
    t.signature = Some("3045".to_string());
    assert!(t.is_signed());
    assert!(!t.check_signature());
}

fn sha256_of(text: &str) -> Vec<u8> {
    Sha256::digest(text.as_bytes()).to_vec()
}

#[test]
fn hash_is_the_digest_of_the_text() {
    let at = Timestamp { secs: 1, nanos: 2 };
    let cases: Vec<(TransactionData<Handler>, &str)> = vec![
        (TransactionData::CreateUserAccount, "(1.2, CreateUserAccount, 5:alice, 7)"),
        (
            TransactionData::Transfer { to: "bob".to_string(), amount: 5 },
            "(1.2, Transfer(3:bob, 5), 5:alice, 7)",
        ),
        (
            TransactionData::MintTokens { receiver: "bob".to_string(), amount: 100 },
            "(1.2, MintTokens(3:bob, 100), 5:alice, 7)",
        ),
        (
            TransactionData::ChangeStoreValue { key: "k".to_string(), value: "v, w".to_string() },
            "(1.2, ChangeStoreValue(1:k, 4:v, w), 5:alice, 7)",
        ),
        (
            TransactionData::TransferToken { token: "t\u{e9}".to_string(), to: "".to_string(), amount: 0 },
            "(1.2, TransferToken(2:t\u{e9}, 0:, 0), 5:alice, 7)",
        ),
        (
            TransactionData::DeploySmartContract {
                publisher: "bob".to_string(),
                sc: token(SmartContractStanderd::ESC721, 12, allow),
            },
            "(1.2, DeploySmartContract(3:bob, ESC721, 1:p, 12), 5:alice, 7)",
        ),
    ];
    for (data, text) in cases {
        let t = Transaction::at("alice".to_string(), data, 7, at);
        assert_eq!(t.calculate_hash(), sha256_of(text));
    }
}

#[test]
fn hash_of_a_known_text() {
    let t: Transaction<Handler> = Transaction::at(
        "abc".to_string(),
        TransactionData::CreateUserAccount,
        0,
        Timestamp { secs: 0, nanos: 0 },
    );
    assert_eq!(t.calculate_hash(), sha256_of("(0.0, CreateUserAccount, 3:abc, 0)"));
    assert_eq!(t.calculate_hash().len(), 32);
    assert_ne!(t.calculate_hash(), "(0.0, CreateUserAccount, 3:abc, 0)".as_bytes().to_vec());
}

#[test]
fn hash_leaves_the_signature_out() {
    let mut t: Transaction<Handler> = Transaction::at(
        "alice".to_string(),
        TransactionData::Transfer { to: "bob".to_string(), amount: 5 },
        7,
        Timestamp { secs: 1, nanos: 2 },
    );
    let unsigned = t.calculate_hash();
    t.signature = Some("signed".to_string());
    assert_eq!(t.calculate_hash(), unsigned);
}

#[test]
fn hash_depends_on_every_other_field() {
    let base: Transaction<Handler> = Transaction::at(
        "alice".to_string(),
        TransactionData::Transfer { to: "bob".to_string(), amount: 5 },
        7,
        Timestamp { secs: 1, nanos: 2 },
    );
    let mut other = base.clone();
    other.nonce = 8;
    assert_ne!(other.calculate_hash(), base.calculate_hash());
    let mut other = base.clone();
    other.from = "alicf".to_string();
    assert_ne!(other.calculate_hash(), base.calculate_hash());
    let mut other = base.clone();
    other.created_at.nanos = 3;
    assert_ne!(other.calculate_hash(), base.calculate_hash());
    let mut other = base.clone();
    other.data = TransactionData::Transfer { to: "bob".to_string(), amount: 6 };
    assert_ne!(other.calculate_hash(), base.calculate_hash());
}

#[test]
fn unknown_sender_is_refused_outside_the_first_block() {
    let (mut chain, a, b) = world(10);
    let stranger = "etnl:stranger".to_string();
    let payloads: Vec<TransactionData<Handler>> = vec![
        TransactionData::CreateUserAccount,
        TransactionData::MintTokens { receiver: a.clone(), amount: 1 },
        TransactionData::Transfer { to: b.clone(), amount: 1 },
        TransactionData::ChangeStoreValue { key: "k".to_string(), value: "v".to_string() },
        TransactionData::TransferToken { token: "etnl:t".to_string(), to: b.clone(), amount: 1 },
        TransactionData::DeploySmartContract {
            publisher: a.clone(),
            sc: token(SmartContractStanderd::ESC20, 1, allow),
        },
    ];
    for data in payloads {
        assert_eq!(tx(&stranger, data).execute(&mut chain, &false), Err(TransactionError::AccountNotFound));
    }
    assert_eq!(chain.get_user_ids(), vec![a.clone(), b.clone()]);
    assert_eq!(balance(&chain, &a), 10);
}

#[test]
fn create_user_account_adds_an_account() {
    let (mut chain, a, b) = world(10);
    assert_eq!(
        tx(&a, TransactionData::CreateUserAccount).execute(&mut chain, &false),
        Ok("Created Account".to_string())
    );
    let ids = chain.get_user_ids();
    assert_eq!(ids.len(), 3);
    assert_eq!(ids[0], a);
    assert_eq!(ids[1], b);
    let created = chain.get_account_by_id(&ids[2]).unwrap();
    assert_eq!(created.generate_adress(), ids[2]);
    assert_eq!(created.tokens, 0);
    assert_eq!(created.acc_type, AccountType::User);
    assert!(created.store.is_empty());
}

#[test]
fn create_user_account_in_the_first_block_needs_no_sender() {
    let mut chain: Blockchain<Handler> = Blockchain::new();
    assert_eq!(
        tx(&"nobody".to_string(), TransactionData::CreateUserAccount).execute(&mut chain, &true),
        Ok("Created Account".to_string())
    );
    assert_eq!(chain.get_user_ids().len(), 1);
}

#[test]
fn mint_credits_the_receiver_in_the_first_block() {
    let (mut chain, a, b) = world(10);
    assert_eq!(
        tx(&a, TransactionData::MintTokens { receiver: b.clone(), amount: 100 }).execute(&mut chain, &true),
        Ok("Minted".to_string())
    );
    assert_eq!(balance(&chain, &a), 10);
    assert_eq!(balance(&chain, &b), 100);
}

#[test]
fn mint_is_refused_outside_the_first_block() {
    let (mut chain, a, b) = world(10);
    assert_eq!(
        tx(&a, TransactionData::MintTokens { receiver: b.clone(), amount: 100 }).execute(&mut chain, &false),
        Err(TransactionError::GenesisOnlyOperation)
    );
    assert_eq!(balance(&chain, &b), 0);
}

#[test]
fn mint_for_an_unknown_receiver_is_refused() {
    let (mut chain, a, _) = world(10);
    assert_eq!(
        tx(&a, TransactionData::MintTokens { receiver: "etnl:x".to_string(), amount: 1 })
            .execute(&mut chain, &true),
        Err(TransactionError::AccountNotFound)
    );
}

#[test]
fn mint_that_overflows_is_refused() {
    let (mut chain, a, _) = world(u128::MAX);
    assert_eq!(
        tx(&a, TransactionData::MintTokens { receiver: a.clone(), amount: 1 }).execute(&mut chain, &true),
        Err(TransactionError::ArithmeticOverflowOrInsufficientFunds)
    );
    assert_eq!(balance(&chain, &a), u128::MAX);
    assert_eq!(
        tx(&a, TransactionData::MintTokens { receiver: a.clone(), amount: 0 }).execute(&mut chain, &true),
        Ok("Minted".to_string())
    );
    assert_eq!(balance(&chain, &a), u128::MAX);
}

#[test]
fn transfer_moves_tokens() {
    let (mut chain, a, b) = world(100);
    assert_eq!(
        tx(&a, TransactionData::Transfer { to: b.clone(), amount: 30 }).execute(&mut chain, &false),
        Ok("Transferred".to_string())
    );
    assert_eq!(balance(&chain, &a), 70);
    assert_eq!(balance(&chain, &b), 30);
    assert_eq!(
        tx(&a, TransactionData::Transfer { to: b.clone(), amount: 70 }).execute(&mut chain, &false),
        Ok("Transferred".to_string())
    );
    assert_eq!(balance(&chain, &a), 0);
    assert_eq!(balance(&chain, &b), 100);
}

#[test]
fn transfer_of_more_than_the_balance_is_refused() {
    let (mut chain, a, b) = world(100);
    assert_eq!(
        tx(&a, TransactionData::Transfer { to: b.clone(), amount: 101 }).execute(&mut chain, &false),
        Err(TransactionError::ArithmeticOverflowOrInsufficientFunds)
    );
    assert_eq!(balance(&chain, &a), 100);
    assert_eq!(balance(&chain, &b), 0);
}

#[test]
fn transfer_that_overflows_the_receiver_is_refused() {
    let (mut chain, a, b) = world(u128::MAX);
    assert_eq!(
        tx(&b, TransactionData::MintTokens { receiver: b.clone(), amount: 1 }).execute(&mut chain, &true),
        Ok("Minted".to_string())
    );
    assert_eq!(
        tx(&b, TransactionData::Transfer { to: a.clone(), amount: 1 }).execute(&mut chain, &false),
        Err(TransactionError::ArithmeticOverflowOrInsufficientFunds)
    );
    assert_eq!(balance(&chain, &a), u128::MAX);
    assert_eq!(balance(&chain, &b), 1);
}

#[test]
fn transfer_to_or_from_an_unknown_account_is_refused() {
    let (mut chain, a, _) = world(100);
    assert_eq!(
        tx(&a, TransactionData::Transfer { to: "etnl:x".to_string(), amount: 1 }).execute(&mut chain, &false),
        Err(TransactionError::AccountNotFound)
    );
    assert_eq!(
        tx(&"etnl:x".to_string(), TransactionData::Transfer { to: a.clone(), amount: 1 })
            .execute(&mut chain, &true),
        Err(TransactionError::AccountNotFound)
    );
    assert_eq!(balance(&chain, &a), 100);
}

#[test]
fn transfer_to_oneself_changes_nothing() {
    let (mut chain, a, b) = world(100);
    assert_eq!(
        tx(&a, TransactionData::Transfer { to: a.clone(), amount: 30 }).execute(&mut chain, &false),
        Ok("Transferred".to_string())
    );
    assert_eq!(balance(&chain, &a), 100);
    assert_eq!(balance(&chain, &b), 0);
    assert_eq!(
        tx(&a, TransactionData::Transfer { to: a.clone(), amount: 101 }).execute(&mut chain, &false),
        Err(TransactionError::ArithmeticOverflowOrInsufficientFunds)
    );
}

#[test]
fn change_store_value_writes_the_senders_store() {
    let (mut chain, a, b) = world(1);
    let key = "colour".to_string();
    assert_eq!(
        tx(&a, TransactionData::ChangeStoreValue { key: key.clone(), value: "red".to_string() })
            .execute(&mut chain, &false),
        Ok("Store updated".to_string())
    );
    assert_eq!(entry(&chain, &a, &key), Some("red".to_string()));
    assert_eq!(entry(&chain, &b, &key), None);
    assert_eq!(
        tx(&a, TransactionData::ChangeStoreValue { key: key.clone(), value: "blue".to_string() })
            .execute(&mut chain, &false),
        Ok("Store updated".to_string())
    );
    assert_eq!(entry(&chain, &a, &key), Some("blue".to_string()));
    assert_eq!(balance(&chain, &a), 1);
}

#[test]
fn change_store_value_refuses_the_keys_of_the_contracts() {
    let (mut chain, a, _) = world(1);
    for key in ["etnl:", "etnl:abc"] {
        assert_eq!(
            tx(&a, TransactionData::ChangeStoreValue { key: key.to_string(), value: "1".to_string() })
                .execute(&mut chain, &false),
            Err(TransactionError::InvalidStoreKey)
        );
        assert_eq!(entry(&chain, &a, &key.to_string()), None);
    }
    for key in ["etnl", "Etnl:x", " etnl:x", ""] {
        assert_eq!(
            tx(&a, TransactionData::ChangeStoreValue { key: key.to_string(), value: "1".to_string() })
                .execute(&mut chain, &false),
            Ok("Store updated".to_string())
        );
    }
}

#[test]
fn change_store_value_without_an_account_is_refused() {
    let (mut chain, _, _) = world(1);
    assert_eq!(
        tx(
            &"etnl:x".to_string(),
            TransactionData::ChangeStoreValue { key: "etnl:k".to_string(), value: "v".to_string() }
        )
        .execute(&mut chain, &true),
        Err(TransactionError::AccountNotFound)
    );
}

#[test]
fn deploy_launches_the_contract() {
    let (mut chain, a, b) = world(1);
    let id = tx(
        &b,
        TransactionData::DeploySmartContract {
            publisher: a.clone(),
            sc: token(SmartContractStanderd::ESC20, 100_000, allow),
        },
    )
    .execute(&mut chain, &false)
    .unwrap();
    assert_eq!(chain.get_user_ids(), vec![a.clone(), b.clone(), id.clone()]);
    assert_eq!(chain.get_smart_contact_ids(), vec![id.clone()]);
    assert_eq!(entry(&chain, &a, &id), Some("100000".to_string()));
    assert_eq!(entry(&chain, &b, &id), Some("0".to_string()));
    assert_eq!(entry(&chain, &id, &id), Some("0".to_string()));
    let backing = chain.get_account_by_id(&id).unwrap();
    assert_eq!(backing.acc_type, AccountType::Contract);
    assert_eq!(backing.tokens, 0);
    assert_eq!(backing.generate_adress(), id);
    let contract = chain.get_smart_contact_by_id(&id).unwrap();
    assert!(*contract == token(SmartContractStanderd::ESC20, 100_000, allow));
    assert_eq!(balance(&chain, &a), 1);
}

#[test]
fn deploy_for_an_unknown_publisher_is_refused() {
    let (mut chain, a, b) = world(1);
    assert_eq!(
        tx(
            &a,
            TransactionData::DeploySmartContract {
                publisher: "etnl:x".to_string(),
                sc: token(SmartContractStanderd::ESC20, 5, allow),
            },
        )
        .execute(&mut chain, &false),
        Err(TransactionError::AccountNotFound)
    );
    assert_eq!(chain.get_user_ids(), vec![a, b]);
    assert!(chain.get_smart_contact_ids().is_empty());
}

#[test]
fn transfer_token_asks_the_handler() {
    let (mut chain, a, b) = world(1);
    let yes = chain.register_smart_contact(token(SmartContractStanderd::ESC20, 5, allow), account('y')).unwrap();
    let no = chain.register_smart_contact(token(SmartContractStanderd::ESC20, 5, deny), account('n')).unwrap();
    assert_eq!(
        tx(&a, TransactionData::TransferToken { token: yes.clone(), to: b.clone(), amount: 3 })
            .execute(&mut chain, &false),
        Ok("Token transfer success".to_string())
    );
    assert_eq!(
        tx(&a, TransactionData::TransferToken { token: no.clone(), to: b.clone(), amount: 3 })
            .execute(&mut chain, &false),
        Err(TransactionError::ContractCallFailed)
    );
    assert_eq!(balance(&chain, &a), 1);
    assert_eq!(balance(&chain, &b), 0);
    assert_eq!(chain.get_smart_contact_ids(), vec![yes, no]);
}

#[test]
fn transfer_token_of_an_unknown_contract_is_refused() {
    let (mut chain, a, b) = world(1);
    assert_eq!(
        tx(&a, TransactionData::TransferToken { token: a.clone(), to: b.clone(), amount: 3 })
            .execute(&mut chain, &false),
        Err(TransactionError::ContractNotFound)
    );
}

#[test]
fn transfer_token_of_a_contract_without_transfers_is_refused() {
    let (mut chain, a, b) = world(1);
    let id = chain.register_smart_contact(token(SmartContractStanderd::ESC721, 5, allow), account('c')).unwrap();
    assert_eq!(
        tx(&a, TransactionData::TransferToken { token: id, to: b.clone(), amount: 3 })
            .execute(&mut chain, &false),
        Err(TransactionError::ContractNotTransferable)
    );
}

#[test]
fn store_in_all_writes_every_account() {
    let (mut chain, a, b) = world(1);
    let key = "k".to_string();
    chain.get_account_by_id_mut(&a).unwrap().store.insert(key.clone(), "old".to_string());
    store_in_all(chain.get_accounts(), &key, &"new".to_string());
    assert_eq!(entry(&chain, &a, &key), Some("new".to_string()));
    assert_eq!(entry(&chain, &b, &key), Some("new".to_string()));
    assert_eq!(balance(&chain, &a), 1);
}

#[test]
fn contract_keys_start_with_the_prefix() {
    for key in ["etnl:", "etnl:abc", "etnl::", "etnl:\u{e9}"] {
        assert!(is_contract_key(key));
    }
    for key in ["", "e", "etnl", "etnl;", "Etnl:", "xetnl:", "\u{e9}tnl:", "etn:l"] {
        assert!(!is_contract_key(key));
    }
}

fn picky(from: String, to: String, amount: u128) -> Result<(), String> {
    if from.len() == 38 && from.starts_with("etnl:") && to == "the receiver" && amount == u128::MAX {
        Ok(())
    } else {
        Err("no".to_string())
    }
}

#[test]
fn transfer_token_hands_sender_receiver_and_amount_to_the_handler() {
    let (mut chain, a, _) = world(1);
    let id = chain.register_smart_contact(token(SmartContractStanderd::ESC20, 5, picky), account('p')).unwrap();
    let ask = |to: &str, amount: u128| TransactionData::TransferToken {
        token: id.clone(),
        to: to.to_string(),
        amount,
    };
    assert_eq!(
        tx(&a, ask("the receiver", u128::MAX)).execute(&mut chain, &false),
        Ok("Token transfer success".to_string())
    );
    assert_eq!(
        tx(&a, ask("the receiver", u128::MAX - 1)).execute(&mut chain, &false),
        Err(TransactionError::ContractCallFailed)
    );
    assert_eq!(
        tx(&a, ask("another", u128::MAX)).execute(&mut chain, &false),
        Err(TransactionError::ContractCallFailed)
    );
    assert_eq!(
        tx(&"short".to_string(), ask("the receiver", u128::MAX)).execute(&mut chain, &true),
        Err(TransactionError::ContractCallFailed)
    );
}
