use eternal::wallet::Wallet;

const PHRASE: &str = "abandon abandon abandon abandon abandon abandon abandon abandon abandon abandon \
                      abandon abandon abandon abandon abandon abandon abandon abandon abandon abandon \
                      abandon abandon abandon art";

fn keys(seed: &[u8]) -> Option<(String, String)> {
    let (secret, public) = crypto::ed25519::keypair(seed);
    let private_key = std::str::from_utf8(&secret).ok()?.to_string();
    let public_key = std::str::from_utf8(&public).ok()?.to_string();
    Some((private_key, public_key))
}

fn same(wallet: Option<Wallet>, mnemonic: &str, expected: Option<(String, String)>) {
    match expected {
        Some((private_key, public_key)) => {
            let wallet = wallet.unwrap();
            assert_eq!(wallet.mnemonic, mnemonic);
            assert_eq!(wallet.private_key, private_key);
            assert_eq!(wallet.public_key, public_key);
            assert!(wallet.accounts.is_empty());
        },
        None => assert!(wallet.is_none()),
    }
}

#[test]
fn wallet_from_a_seed_needs_keys_that_are_text() {
    for seed in [&b"seed"[..], &[0u8; 64][..], &[0x41u8; 32][..], &[0xffu8; 64][..], &[][..]] {
        same(Wallet::from_seed("some words".to_string(), seed), "some words", keys(seed));
    }
}

#[test]
fn wallet_with_a_secret_key_that_is_no_text_is_refused() {
    assert!(std::str::from_utf8(&crypto::ed25519::keypair(&[0xffu8; 64]).0).is_err());
    assert!(Wallet::from_seed("w".to_string(), &[0xffu8; 64]).is_none());
}

#[test]
fn wallet_from_a_mnemonic_phrase() {
    let mnemonic = bip32::Mnemonic::new(PHRASE, Default::default()).unwrap();
    let seed = mnemonic.to_seed("password");
    assert_ne!(seed.as_bytes(), mnemonic.to_seed("").as_bytes());
    same(Wallet::from_mnemonic(PHRASE.to_string()), PHRASE, keys(seed.as_bytes()));
}

#[test]
fn wallet_from_what_is_no_mnemonic_phrase() {
    assert!(bip32::Mnemonic::new("abandon abandon", Default::default()).is_err());
    assert!(Wallet::from_mnemonic("abandon abandon".to_string()).is_none());
    assert!(Wallet::from_mnemonic(String::new()).is_none());
    assert!(Wallet::from_mnemonic(PHRASE.replace("art", "abandon")).is_none());
}

#[test]
fn new_wallet_holds_no_accounts() {
    if let Some(wallet) = Wallet::new() {
        assert!(wallet.accounts.is_empty());
        assert_eq!(wallet.mnemonic.split(' ').count(), 24);
    }
}
