use eternal::account::{Account, AccountType};

fn secret(seed: char) -> String {
    std::iter::repeat(seed).take(32).collect()
}

#[test]
fn new_account_has_keys_and_nothing_else() {
    let account = Account::new(AccountType::Validator {
        correctly_validated_blocks: 1,
        incorrectly_validated_blocks: 2,
        you_get_the_idea: true,
    });
    assert_eq!(account.tokens, 0);
    assert!(account.store.is_empty());
    assert_eq!(
        account.acc_type,
        AccountType::Validator {
            correctly_validated_blocks: 1,
            incorrectly_validated_blocks: 2,
            you_get_the_idea: true,
        }
    );
    assert_eq!(account.private_key.len(), 64);
    assert_eq!(account.secret_key, account.private_key);
    assert_eq!(account.public_key.len(), 66);
    assert_eq!(account.public_key_bytes.len(), 33);
    assert_eq!(account.public_key, hex::encode(&account.public_key_bytes));
}

#[test]
fn new_account_keys_belong_together() {
    let account = Account::new(AccountType::User);
    let secret = hex::decode(&account.private_key).unwrap();
    let key = secp256k1::SecretKey::from_slice(&secret).unwrap();
    let public = secp256k1::PublicKey::from_secret_key(&secp256k1::Secp256k1::new(), &key);
    assert_eq!(account.public_key_bytes, public.serialize().to_vec());
    assert_eq!(account.public_key, public.to_string());
}

#[test]
fn new_accounts_differ() {
    let a = Account::new(AccountType::User);
    let b = Account::new(AccountType::User);
    assert_ne!(a.private_key, b.private_key);
    assert_ne!(a.generate_adress(), b.generate_adress());
}

#[test]
fn generate_keypair_gives_four_matching_parts() {
    let (private_key, secret_key, public_key, key_bytes) = Account::generate_keypair();
    assert_eq!(private_key, secret_key);
    assert_eq!(public_key, hex::encode(key_bytes));
    let secret = hex::decode(&private_key).unwrap();
    let key = secp256k1::SecretKey::from_slice(&secret).unwrap();
    let public = secp256k1::PublicKey::from_secret_key(&secp256k1::Secp256k1::new(), &key);
    assert_eq!(key_bytes, public.serialize());
}

#[test]
fn address_is_taken_from_the_public_key() {
    let account = Account::from_key(secret('a')).unwrap();
    let address = account.generate_adress();
    assert_eq!(address.len(), 38);
    assert_eq!(address, format!("etnl:{}", &account.public_key[33..66]));
    assert!(address.starts_with("etnl:"));
}

#[test]
fn account_from_a_secret_key() {
    let account = Account::from(secret('k'));
    let key = secp256k1::SecretKey::from_slice(secret('k').as_bytes()).unwrap();
    let public = secp256k1::PublicKey::from_secret_key(&secp256k1::Secp256k1::new(), &key);
    assert_eq!(account.private_key, secret('k'));
    assert_eq!(account.secret_key, hex::encode(secret('k')));
    assert_eq!(account.public_key, public.to_string());
    assert_eq!(account.public_key_bytes, public.serialize().to_vec());
    assert_eq!(account.acc_type, AccountType::User);
    assert_eq!(account.tokens, 0);
    assert!(account.store.is_empty());
}

#[test]
fn account_from_the_same_key_is_the_same() {
    let a = Account::from_key(secret('q')).unwrap();
    let b = Account::from_key(secret('q')).unwrap();
    let c = Account::from_key(secret('r')).unwrap();
    assert_eq!(a.generate_adress(), b.generate_adress());
    assert_ne!(a.generate_adress(), c.generate_adress());
}

#[test]
fn account_from_what_is_no_key() {
    assert!(Account::from_key("short".to_string()).is_none());
    assert!(Account::from_key(String::new()).is_none());
    assert!(Account::from_key("\0".repeat(32)).is_none());
    assert!(Account::from_key("\u{7f}".repeat(33)).is_none());
    assert!(Account::from_key("a".repeat(32)).is_some());
}

#[test]
fn duplicate_copies_every_field() {
    let mut account = Account::from_key(secret('d')).unwrap();
    account.tokens = 77;
    account.acc_type = AccountType::Token { init_supply: 5, burn: true };
    account.store.insert("k".to_string(), "v".to_string());
    let copy = account.duplicate();
    account.tokens = 1;
    account.store.insert("k".to_string(), "w".to_string());
    assert_eq!(copy.tokens, 77);
    assert_eq!(copy.acc_type, AccountType::Token { init_supply: 5, burn: true });
    assert_eq!(copy.private_key, account.private_key);
    assert_eq!(copy.public_key, account.public_key);
    assert_eq!(copy.secret_key, account.secret_key);
    assert_eq!(copy.public_key_bytes, account.public_key_bytes);
    assert_eq!(copy.store.get(&"k".to_string()), Some(&"v".to_string()));
    assert_eq!(copy.store.len(), 1);
}

#[test]
fn sign_and_verify_leave_the_account_alone() {
    let account = Account::from_key(secret('s')).unwrap();
    account.sign();
    account.verify();
    assert_eq!(account.tokens, 0);
}
