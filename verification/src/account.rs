//! Accounts: an identity made of a secp256k1 key pair, a balance, and a store
//! of free-form entries.
use vstd::pervasive::unreached;
use vstd::prelude::*;
use vstd::slice::slice_to_vec;
use vstd::string::*;
use crate::string_map::StringMap;
use crate::text::{hex_text, lemma_hex_text_is_ascii};

verus! {

/// The compressed public key that secp256k1 derives from the secret key
/// `secret`; `None` where `secret` is no secret key.
pub uninterp spec fn secp256k1_public_key(secret: Seq<u8>) -> Option<Seq<u8>>;

/// `secp256k1::SecretKey::new` draws 32 random bytes until they are a secret
/// key, so what it returns has a public key.
#[verifier::external_body]
fn fresh_secret_key() -> (secret: [u8; 32])
    ensures
        secp256k1_public_key(secret@) is Some,
{
    secp256k1::SecretKey::new(&mut rand::thread_rng()).secret_bytes()
}

/// `secp256k1::SecretKey::from_slice` accepts `secret` or refuses it;
/// `secp256k1::PublicKey::from_secret_key` derives the public key of an
/// accepted one, and `serialize` gives its 33 bytes in compressed form.
#[verifier::external_body]
fn public_key_for(secret: &[u8]) -> (key: Option<[u8; 33]>)
    ensures
        match key {
            Some(bytes) => secp256k1_public_key(secret@) == Some(bytes@),
            None => secp256k1_public_key(secret@) is None,
        },
{
    match secp256k1::SecretKey::from_slice(secret) {
        Ok(key) => {
            let context = secp256k1::Secp256k1::new();
            Some(secp256k1::PublicKey::from_secret_key(&context, &key).serialize())
        },
        Err(_) => None,
    }
}

/// `hex::encode` writes each byte as two lower-case hexadecimal digits.
#[verifier::external_body]
fn hex_lower(data: &[u8]) -> (text: String)
    ensures
        text@ == hex_text(data@, false),
{
    hex::encode(data)
}

/// What an account is for.
#[derive(Debug, Clone, Copy, PartialEq, Eq, Structural)]
pub enum AccountType {
    User,
    Contract,
    Node,
    Token { init_supply: u128, burn: bool },
    SmartContract,
    Validator {
        correctly_validated_blocks: u128,
        incorrectly_validated_blocks: u128,
        you_get_the_idea: bool,
    },
}

/// An account: its keys, what it stores, what it is for, and its balance.
/// The secret key is kept in hexadecimal in `private_key` and `secret_key`,
/// the public key in hexadecimal in `public_key` and as bytes in
/// `public_key_bytes`.
#[derive(Debug, Clone)]
pub struct Account {
    pub private_key: String,
    pub public_key: String,
    pub secret_key: String,
    pub public_key_bytes: Vec<u8>,
    pub store: StringMap<String>,
    pub acc_type: AccountType,
    pub tokens: u128,
}

/// The mathematical value of an account.
pub struct AccountView {
    pub private_key: Seq<char>,
    pub public_key: Seq<char>,
    pub secret_key: Seq<char>,
    pub public_key_bytes: Seq<u8>,
    pub store: Map<Seq<char>, Seq<char>>,
    pub acc_type: AccountType,
    pub tokens: u128,
}

/// The address that belongs to a public key: `etnl:` and then the characters
/// 33 to 65 of the key's text.
pub open spec fn address_of(public_key: Seq<char>) -> Seq<char> {
    "etnl:"@ + public_key.subrange(33, 66)
}

impl AccountView {
    /// The account's address.
    pub open spec fn address(self) -> Seq<char> {
        address_of(self.public_key)
    }

    /// The account's keys are those that belong to the secret key `secret`.
    pub open spec fn has_keys_of(self, secret: Seq<u8>) -> bool {
        &&& secp256k1_public_key(secret) == Some(self.public_key_bytes)
        &&& self.public_key == hex_text(self.public_key_bytes, false)
        &&& self.secret_key == hex_text(secret, false)
    }

    /// The account's keys are a key pair of secp256k1, written down as
    /// `Account::generate_keypair` does.
    pub open spec fn is_derived(self) -> bool {
        exists|secret: Seq<u8>|
            #[trigger] self.has_keys_of(secret) && self.private_key == hex_text(secret, false)
    }

    /// The account is as it is when it has just been made: no tokens, nothing
    /// in its store.
    pub open spec fn is_new(self, acc_type: AccountType) -> bool {
        &&& self.store == Map::<Seq<char>, Seq<char>>::empty()
        &&& self.acc_type == acc_type
        &&& self.tokens == 0
    }

    /// The account with another balance.
    pub open spec fn with_tokens(self, tokens: u128) -> AccountView {
        AccountView { tokens, ..self }
    }

    /// The account with `value` stored under `key`.
    pub open spec fn with_entry(self, key: Seq<char>, value: Seq<char>) -> AccountView {
        AccountView { store: self.store.insert(key, value), ..self }
    }
}

impl View for Account {
    type V = AccountView;

    open spec fn view(&self) -> AccountView {
        AccountView {
            private_key: self.private_key@,
            public_key: self.public_key@,
            secret_key: self.secret_key@,
            public_key_bytes: self.public_key_bytes@,
            store: self.store@,
            acc_type: self.acc_type,
            tokens: self.tokens,
        }
    }
}

impl Account {
    /// The public key's text is long enough to take the address from, and
    /// is made of ASCII characters.
    pub open spec fn wf(&self) -> bool {
        &&& self.public_key@.len() >= 66
        &&& vstd::utf8::is_ascii_chars(self.public_key@)
    }

    /// An account with a key pair of its own.
    pub fn new(account_type: AccountType) -> (r: Self)
        ensures
            r.wf(),
            r@.is_new(account_type),
            r@.is_derived(),
    {
        let (private_key, secret_key, public_key, key_bytes) = Self::generate_keypair();
        let ghost secret = choose|secret: Seq<u8>|
            Self::keypair_of(secret, private_key@, secret_key@, public_key@, key_bytes@);
        let r = Account {
            private_key,
            public_key,
            secret_key,
            public_key_bytes: slice_to_vec(key_bytes.as_slice()),
            store: StringMap::new(),
            acc_type: account_type,
            tokens: 0,
        };
        proof {
            lemma_hex_text_is_ascii(key_bytes@, false);
            assert(r@.has_keys_of(secret));
        }
        r
    }

    /// The account whose secret key is made of the bytes of `priv_key`.
    pub fn from(priv_key: String) -> (r: Self)
        requires
            secp256k1_public_key(vstd::utf8::encode_utf8(priv_key@)) is Some,
        ensures
            r.wf(),
            r@.is_new(AccountType::User),
            r@.has_keys_of(vstd::utf8::encode_utf8(priv_key@)),
            r@.private_key == priv_key@,
    {
        let secret = priv_key.as_str().as_bytes();
        let key_bytes = match public_key_for(secret) {
            Some(bytes) => bytes,
            None => unreached(),
        };
        let public_key = hex_lower(key_bytes.as_slice());
        let secret_key = hex_lower(secret);
        proof {
            lemma_hex_text_is_ascii(key_bytes@, false);
        }
        Account {
            private_key: priv_key,
            public_key,
            secret_key,
            public_key_bytes: slice_to_vec(key_bytes.as_slice()),
            store: StringMap::new(),
            acc_type: AccountType::User,
            tokens: 0,
        }
    }

    /// The account whose secret key is made of the bytes of `priv_key`, or
    /// `None` where these bytes are no secret key.
    pub fn from_key(priv_key: String) -> (r: Option<Self>)
        ensures
            match r {
                Some(account) => {
                    &&& account.wf()
                    &&& account@.is_new(AccountType::User)
                    &&& account@.has_keys_of(vstd::utf8::encode_utf8(priv_key@))
                    &&& account@.private_key == priv_key@
                },
                None => secp256k1_public_key(vstd::utf8::encode_utf8(priv_key@)) is None,
            },
    {
        match public_key_for(priv_key.as_str().as_bytes()) {
            Some(_) => Some(Self::from(priv_key)),
            None => None,
        }
    }

    /// The account's address.
    pub fn generate_adress(&self) -> (r: String)
        requires
            self.wf(),
        ensures
            r@ == self@.address(),
    {
        let tail = self.public_key.as_str().substring_ascii(33, 66);
        let mut out = String::from_str("etnl:");
        out.append(tail);
        out
    }

    /// Signing is left to the holder of the keys; the ledger asks nothing of
    /// it.
    pub fn sign(&self) {
    }

    /// See `sign`.
    pub fn verify(&self) {
    }

    /// Whether the four parts of a key pair belong to the secret key
    /// `secret`: the secret key's text twice, the public key's text, and the
    /// public key's bytes.
    pub open spec fn keypair_of(
        secret: Seq<u8>,
        private_key: Seq<char>,
        secret_key: Seq<char>,
        public_key: Seq<char>,
        key_bytes: Seq<u8>,
    ) -> bool {
        &&& secp256k1_public_key(secret) == Some(key_bytes)
        &&& private_key == hex_text(secret, false)
        &&& secret_key == hex_text(secret, false)
        &&& public_key == hex_text(key_bytes, false)
    }

    /// A new key pair: the secret key in hexadecimal, twice, the public key in
    /// hexadecimal, and the public key's bytes.
    pub fn generate_keypair() -> (r: (String, String, String, [u8; 33]))
        ensures
            exists|secret: Seq<u8>| Self::keypair_of(secret, r.0@, r.1@, r.2@, r.3@),
    {
        let secret = fresh_secret_key();
        let key_bytes = match public_key_for(secret.as_slice()) {
            Some(bytes) => bytes,
            None => unreached(),
        };
        let r = (
            hex_lower(secret.as_slice()),
            hex_lower(secret.as_slice()),
            hex_lower(key_bytes.as_slice()),
            key_bytes,
        );
        assert(Self::keypair_of(secret@, r.0@, r.1@, r.2@, r.3@));
        r
    }

    /// A copy of the account.
    pub fn duplicate(&self) -> (r: Self)
        ensures
            r@ == self@,
            r.store.pairs() == self.store.pairs(),
    {
        let copy_text = |s: &String| -> (t: String)
            ensures
                t@ == s@,
            { s.clone() };
        Account {
            private_key: self.private_key.clone(),
            public_key: self.public_key.clone(),
            secret_key: self.secret_key.clone(),
            public_key_bytes: self.public_key_bytes.clone(),
            store: self.store.duplicate_with(copy_text),
            acc_type: self.acc_type,
            tokens: self.tokens,
        }
    }
}

} // verus!
