//! Wallets: a mnemonic phrase, the ed25519 key pair that is derived from it,
//! and the accounts that the wallet holds.
use vstd::prelude::*;
use vstd::string::*;
use vstd::utf8::encode_utf8;
use crate::account::Account;

verus! {

/// The seed that BIP39 derives from the mnemonic phrase `phrase` and the
/// password `password`; `None` where `phrase` is no mnemonic phrase.
pub uninterp spec fn bip39_seed(phrase: Seq<char>, password: Seq<char>) -> Option<Seq<u8>>;

/// The ed25519 key pair that belongs to `seed`: the secret key, then the
/// public key.
pub uninterp spec fn ed25519_keypair(seed: Seq<u8>) -> (Seq<u8>, Seq<u8>);

/// `bip32::Mnemonic::random` draws a mnemonic phrase from the random numbers
/// of the operating system; `phrase` gives its words.
#[verifier::external_body]
fn fresh_phrase() -> (phrase: String) {
    bip32::Mnemonic::random(&mut rand_core::OsRng, Default::default()).phrase().to_string()
}

/// `bip32::Mnemonic::new` accepts `phrase` as a mnemonic phrase or refuses
/// it, and `to_seed` gives the seed of an accepted one under `password`.
#[verifier::external_body]
fn seed_for(phrase: &str, password: &str) -> (seed: Option<Vec<u8>>)
    ensures
        match seed {
            Some(bytes) => bip39_seed(phrase@, password@) == Some(bytes@),
            None => bip39_seed(phrase@, password@) is None,
        },
{
    match bip32::Mnemonic::new(phrase, Default::default()) {
        Ok(mnemonic) => Some(mnemonic.to_seed(password).as_bytes().to_vec()),
        Err(_) => None,
    }
}

/// `crypto::ed25519::keypair` derives the key pair that belongs to `seed`.
#[verifier::external_body]
fn keypair_for(seed: &[u8]) -> (keys: (Vec<u8>, Vec<u8>))
    ensures
        (keys.0@, keys.1@) == ed25519_keypair(seed@),
{
    let (secret, public) = crypto::ed25519::keypair(seed);
    (secret.to_vec(), public.to_vec())
}

/// Whether `bytes` are the UTF-8 form of a text.
pub open spec fn is_text(bytes: Seq<u8>) -> bool {
    exists|text: Seq<char>| encode_utf8(text) == bytes
}

/// `std::str::from_utf8` gives the text whose UTF-8 form `bytes` are, and
/// refuses `bytes` if there is no such text.
#[verifier::external_body]
fn text_of(bytes: &[u8]) -> (text: Option<String>)
    ensures
        match text {
            Some(s) => encode_utf8(s@) == bytes@,
            None => !is_text(bytes@),
        },
{
    match std::str::from_utf8(bytes) {
        Ok(s) => Some(String::from(s)),
        Err(_) => None,
    }
}

/// A wallet: its mnemonic phrase, its keys as text, and its accounts.
#[derive(Debug, Clone)]
pub struct Wallet {
    pub mnemonic: String,
    pub private_key: String,
    pub public_key: String,
    pub accounts: Vec<Account>,
}

/// The password under which the seed of a wallet is derived.
pub open spec fn seed_password() -> Seq<char> {
    "password"@
}

impl Wallet {
    /// The wallet has the phrase `mnemonic`, the key pair that belongs to
    /// `seed`, each key as the text whose UTF-8 form it is, and no
    /// accounts.
    pub open spec fn made_of(&self, mnemonic: Seq<char>, seed: Seq<u8>) -> bool {
        &&& self.mnemonic@ == mnemonic
        &&& encode_utf8(self.private_key@) == ed25519_keypair(seed).0
        &&& encode_utf8(self.public_key@) == ed25519_keypair(seed).1
        &&& self.accounts@.len() == 0
    }

    /// Whether both keys of the key pair that belongs to `seed` can be
    /// written as text.
    pub open spec fn has_text_keys(seed: Seq<u8>) -> bool {
        is_text(ed25519_keypair(seed).0) && is_text(ed25519_keypair(seed).1)
    }

    /// Whether there is a wallet for the phrase `mnemonic`: the phrase has
    /// a seed, and the keys that belong to the seed can be written as text.
    pub open spec fn exists_for(mnemonic: Seq<char>) -> bool {
        match bip39_seed(mnemonic, seed_password()) {
            Some(seed) => Self::has_text_keys(seed),
            None => false,
        }
    }

    /// The wallet with the phrase `mnemonic`, the key pair that belongs to
    /// `seed`, and no accounts.  There is none if a key of the key pair
    /// cannot be written as text.
    pub fn from_seed(mnemonic: String, seed: &[u8]) -> (r: Option<Self>)
        ensures
            match r {
                Some(wallet) => Self::has_text_keys(seed@) && wallet.made_of(mnemonic@, seed@),
                None => !Self::has_text_keys(seed@),
            },
    {
        let (secret, public) = keypair_for(seed);
        let private_key = match text_of(secret.as_slice()) {
            Some(text) => text,
            None => {
                return None;
            },
        };
        let public_key = match text_of(public.as_slice()) {
            Some(text) => text,
            None => {
                return None;
            },
        };
        Some(Wallet { private_key, public_key, mnemonic, accounts: Vec::new() })
    }

    /// Whether `r` is what there is for the mnemonic phrase `mnemonic`: the
    /// wallet with that phrase and with the key pair that belongs to the
    /// seed of the phrase, or nothing where there is no wallet for the
    /// phrase.
    pub open spec fn is_for(r: Option<Self>, mnemonic: Seq<char>) -> bool {
        match r {
            Some(wallet) => Self::exists_for(mnemonic) && wallet.made_of(
                mnemonic,
                bip39_seed(mnemonic, seed_password())->0,
            ),
            None => !Self::exists_for(mnemonic),
        }
    }

    /// The wallet for the mnemonic phrase `mnemonic`, if there is one.
    pub fn from_mnemonic(mnemonic: String) -> (r: Option<Self>)
        ensures
            Self::is_for(r, mnemonic@),
    {
        match seed_for(mnemonic.as_str(), "password") {
            Some(seed) => Self::from_seed(mnemonic, seed.as_slice()),
            None => None,
        }
    }

    /// Draws a mnemonic phrase and hands back what there is for it: the
    /// wallet with that phrase, or nothing where there is no wallet for the
    /// phrase that was drawn.
    pub fn new() -> (r: Option<Self>)
        ensures
            exists|mnemonic: Seq<char>| #[trigger] Self::is_for(r, mnemonic),
            r matches Some(wallet) ==> Self::is_for(r, wallet.mnemonic@),
    {
        let mnemonic = fresh_phrase();
        let ghost drawn = mnemonic@;
        let r = Self::from_mnemonic(mnemonic);
        assert(Self::is_for(r, drawn));
        r
    }
}

} // verus!
