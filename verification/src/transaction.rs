//! Transactions, and what executing one does to a world state.
use vstd::pervasive::unreached;
use vstd::prelude::*;
use vstd::string::*;
use crate::account::{Account, AccountType, AccountView};
use crate::digest::{sha256, sha256_digest};
use crate::error::{outcome_of, Outcome, TransactionError};
use crate::smart_contract::{may_return, SmartContract, SmartContractStanderd, SmartContractView};
use crate::string_map::{lemma_map_of_with_values, with_values, StringMap};
use crate::text::{
    decimal, decimal_string, lemma_appended_eleven, lemma_appended_five,
    lemma_appended_nine, lemma_appended_seven, lemma_parse_decimal, push_decimal, push_string,
    string_text,
};
use crate::vm::{WorldState, WorldView};

verus! {

/// A point in time: seconds and nanoseconds since the start of 1970.
#[derive(Debug, Clone, Copy, PartialEq, Eq, Structural)]
pub struct Timestamp {
    pub secs: u64,
    pub nanos: u32,
}

/// `std::time::SystemTime::now` reads the clock, and `duration_since` tells
/// how far it is from the start of 1970; a clock that stands before 1970
/// counts as standing at it.
#[verifier::external_body]
fn current_time() -> (now: Timestamp) {
    let since = std::time::SystemTime::now().duration_since(
        std::time::UNIX_EPOCH,
    ).unwrap_or_default();
    Timestamp { secs: since.as_secs(), nanos: since.subsec_nanos() }
}

/// What a transaction asks for.
#[derive(Debug, Clone, PartialEq)]
pub enum TransactionData<F> {
    CreateUserAccount,
    ChangeStoreValue { key: String, value: String },
    TransferToken { token: String, to: String, amount: u128 },
    Transfer { to: String, amount: u128 },
    MintTokens { receiver: String, amount: u128 },
    DeploySmartContract { publisher: String, sc: SmartContract<F> },
}

/// A transaction: who sends it, when it was made, what it asks for, and,
/// once it is signed, its signature.
#[derive(Debug, Clone)]
pub struct Transaction<F> {
    pub nonce: u128,
    pub from: String,
    pub created_at: Timestamp,
    pub data: TransactionData<F>,
    pub signature: Option<String>,
}

/// The mathematical value of a transaction's payload.
pub enum TransactionDataView<F> {
    CreateUserAccount,
    ChangeStoreValue { key: Seq<char>, value: Seq<char> },
    TransferToken { token: Seq<char>, to: Seq<char>, amount: u128 },
    Transfer { to: Seq<char>, amount: u128 },
    MintTokens { receiver: Seq<char>, amount: u128 },
    DeploySmartContract { publisher: Seq<char>, sc: SmartContractView<F> },
}

/// The mathematical value of a transaction.
pub struct TransactionView<F> {
    pub nonce: u128,
    pub from: Seq<char>,
    pub created_at: Timestamp,
    pub data: TransactionDataView<F>,
    pub signature: Option<Seq<char>>,
}

/// The prefix of the keys that belong to the contracts.
pub open spec fn contract_prefix() -> Seq<char> {
    "etnl:"@
}

/// Whether `key` belongs to the contracts: whether it starts with their
/// prefix.
pub fn is_contract_key(key: &str) -> (r: bool)
    ensures
        r == contract_prefix().is_prefix_of(key@),
{
    proof {
        reveal_strlit("etnl:");
    }
    if key.unicode_len() < 5 {
        return false;
    }
    let r = key.get_char(0) == 'e' && key.get_char(1) == 't' && key.get_char(2) == 'n'
        && key.get_char(3) == 'l' && key.get_char(4) == ':';
    proof {
        if r {
            assert(contract_prefix() =~= key@.subrange(0, 5));
        } else {
            let start = key@.subrange(0, 5);
            assert(start[0] == key@[0] && start[1] == key@[1] && start[2] == key@[2] && start[3]
                == key@[3] && start[4] == key@[4]);
        }
    }
    r
}

/// The function that stores `value` under `key` in an account.
pub open spec fn entry_setter(key: Seq<char>, value: Seq<char>) -> spec_fn(AccountView) -> AccountView {
    |account: AccountView| account.with_entry(key, value)
}

/// What minting `amount` tokens for `receiver` does: only in the first
/// block, only for an account that exists, and only if the balance does not
/// overflow.
pub open spec fn minted<F>(pre: WorldView<F>, genesis: bool, receiver: Seq<char>, amount: u128) -> (
    WorldView<F>,
    Outcome,
) {
    if !genesis {
        (pre, Err(TransactionError::GenesisOnlyOperation))
    } else if !pre.accounts.contains_key(receiver) {
        (pre, Err(TransactionError::AccountNotFound))
    } else if pre.accounts[receiver].tokens + amount > u128::MAX {
        (pre, Err(TransactionError::ArithmeticOverflowOrInsufficientFunds))
    } else {
        let account = pre.accounts[receiver];
        (
            WorldView {
                accounts: pre.accounts.insert(
                    receiver,
                    account.with_tokens((account.tokens + amount) as u128),
                ),
                ..pre
            },
            Ok("Minted"@),
        )
    }
}

/// What a transfer of `amount` tokens from `from` to `to` does.  Both
/// accounts have to exist, the sender's balance has to cover the amount, and
/// the receiver's balance must not overflow.  The sender is debited first,
/// the receiver is credited then.
pub open spec fn transferred<F>(pre: WorldView<F>, from: Seq<char>, to: Seq<char>, amount: u128) -> (
    WorldView<F>,
    Outcome,
) {
    if !pre.accounts.contains_key(to) || !pre.accounts.contains_key(from) {
        (pre, Err(TransactionError::AccountNotFound))
    } else if pre.accounts[to].tokens + amount > u128::MAX || pre.accounts[from].tokens < amount {
        (pre, Err(TransactionError::ArithmeticOverflowOrInsufficientFunds))
    } else {
        let sender = pre.accounts[from];
        let debited = pre.accounts.insert(from, sender.with_tokens((sender.tokens - amount) as u128));
        let receiver = debited[to];
        (
            WorldView {
                accounts: debited.insert(to, receiver.with_tokens((receiver.tokens + amount) as u128)),
                ..pre
            },
            Ok("Transferred"@),
        )
    }
}

/// What storing `value` under `key` in the account of `from` does.  The
/// account has to exist, and the key must not belong to the contracts.
pub open spec fn stored<F>(pre: WorldView<F>, from: Seq<char>, key: Seq<char>, value: Seq<char>) -> (
    WorldView<F>,
    Outcome,
) {
    if !pre.accounts.contains_key(from) {
        (pre, Err(TransactionError::AccountNotFound))
    } else if contract_prefix().is_prefix_of(key) {
        (pre, Err(TransactionError::InvalidStoreKey))
    } else {
        (
            WorldView {
                accounts: pre.accounts.insert(from, pre.accounts[from].with_entry(key, value)),
                ..pre
            },
            Ok("Store updated"@),
        )
    }
}

/// What the creation of a user account gives once the new account
/// `account` has been made: the state with the account at its address, or,
/// where the address is taken, a refusal.
pub open spec fn created_with<F: Fn(String, String, u128) -> Result<(), String>>(
    pre: WorldView<F>,
    account: AccountView,
) -> (WorldView<F>, Outcome) {
    match pre.register(account) {
        (state, Ok(_)) => (state, Ok("Created Account"@)),
        (state, Err(e)) => (state, Err(e)),
    }
}

/// Whether `post` and `result` are what the creation of a user account can
/// give: what it gives with some new user account with a key pair of its
/// own.
pub open spec fn created<F: Fn(String, String, u128) -> Result<(), String>>(
    pre: WorldView<F>,
    post: WorldView<F>,
    result: Outcome,
) -> bool {
    exists|account: AccountView|
        account.is_new(AccountType::User) && account.is_derived() && #[trigger] created_with(
            pre,
            account,
        ) == (post, result)
}

/// The state in which every account holds a balance of 0 under the address
/// `id` of a contract, and `publisher` holds `supply`.
pub open spec fn supplied<F: Fn(String, String, u128) -> Result<(), String>>(
    state: WorldView<F>,
    id: Seq<char>,
    publisher: Seq<char>,
    supply: u128,
) -> WorldView<F> {
    let seeded = state.accounts.map_values(entry_setter(id, decimal(0)));
    state.with_accounts(
        seeded.insert(publisher, seeded[publisher].with_entry(id, decimal(supply as nat))),
    )
}

/// What the deployment of `contract` for `publisher` gives once the new
/// account `account` of the contract has been made.  The contract is
/// deployed with the account, every account gets a balance of 0 under the
/// contract's address, the publisher gets the total supply, and the address
/// is the receipt; where the address is taken, the deployment is refused.
pub open spec fn deployed_with<F: Fn(String, String, u128) -> Result<(), String>>(
    pre: WorldView<F>,
    publisher: Seq<char>,
    contract: SmartContractView<F>,
    account: AccountView,
) -> (WorldView<F>, Outcome) {
    match pre.deploy(contract, account) {
        (state, Ok(id)) => (supplied(state, id, publisher, contract.total_suply), Ok(id)),
        (state, Err(e)) => (state, Err(e)),
    }
}

/// Whether `post` and `result` are what the deployment of `contract` for
/// `publisher` can give.  The publisher has to exist.  The deployment then
/// gives what it gives with some new account for the contract with a key
/// pair of its own.
pub open spec fn deployed<F: Fn(String, String, u128) -> Result<(), String>>(
    pre: WorldView<F>,
    publisher: Seq<char>,
    contract: SmartContractView<F>,
    post: WorldView<F>,
    result: Outcome,
) -> bool {
    if !pre.accounts.contains_key(publisher) {
        post == pre && result == Err::<Seq<char>, _>(TransactionError::AccountNotFound)
    } else {
        exists|account: AccountView|
            account.is_new(AccountType::Contract) && account.is_derived() && #[trigger] deployed_with(
                pre,
                publisher,
                contract,
                account,
            ) == (post, result)
    }
}

/// Whether `result` is what a transfer of `amount` tokens of the contract at
/// `token` from `from` to `to` can give.  The contract has to exist and to
/// have an entry point for transfers; its handler is then asked, and its
/// verdict decides.
pub open spec fn token_moved<F: Fn(String, String, u128) -> Result<(), String>>(
    pre: WorldView<F>,
    from: Seq<char>,
    token: Seq<char>,
    to: Seq<char>,
    amount: u128,
    result: Outcome,
) -> bool {
    if !pre.contracts.contains_key(token) {
        result == Err::<Seq<char>, _>(TransactionError::ContractNotFound)
    } else if !pre.contracts[token].has_entry_point("transfer"@) {
        result == Err::<Seq<char>, _>(TransactionError::ContractNotTransferable)
    } else {
        exists|verdict: Result<(), String>|
            {
                &&& #[trigger] may_return(pre.contracts[token].transfer, from, to, amount, verdict)
                &&& result == match verdict {
                    Ok(_) => Ok::<_, TransactionError>("Token transfer success"@),
                    Err(_) => Err(TransactionError::ContractCallFailed),
                }
            }
    }
}

impl<F> TransactionDataView<F> {
    /// The payload's text form.
    pub open spec fn text(self) -> Seq<char> {
        match self {
            TransactionDataView::CreateUserAccount => "CreateUserAccount"@,
            TransactionDataView::ChangeStoreValue { key, value } => "ChangeStoreValue("@
                + string_text(key) + ", "@ + string_text(value) + ")"@,
            TransactionDataView::TransferToken { token, to, amount } => "TransferToken("@
                + string_text(token) + ", "@ + string_text(to) + ", "@ + decimal(amount as nat)
                + ")"@,
            TransactionDataView::Transfer { to, amount } => "Transfer("@ + string_text(to) + ", "@
                + decimal(amount as nat) + ")"@,
            TransactionDataView::MintTokens { receiver, amount } => "MintTokens("@ + string_text(
                receiver,
            ) + ", "@ + decimal(amount as nat) + ")"@,
            TransactionDataView::DeploySmartContract { publisher, sc } => "DeploySmartContract("@
                + string_text(publisher) + ", "@ + sc.standard.name() + ", "@ + string_text(
                sc.publisher,
            ) + ", "@ + decimal(sc.total_suply as nat) + ")"@,
        }
    }
}

impl<F> TransactionView<F> {
    /// The text that the transaction's hash is taken of.  It holds the time
    /// of creation, the payload, the sender and the nonce, and not the
    /// signature.
    pub open spec fn text(self) -> Seq<char> {
        "("@ + decimal(self.created_at.secs as nat) + "."@ + decimal(self.created_at.nanos as nat)
            + ", "@ + self.data.text() + ", "@ + string_text(self.from) + ", "@ + decimal(
            self.nonce as nat,
        ) + ")"@
    }

    /// The transaction's hash: the SHA-256 digest of its text in UTF-8.
    pub open spec fn digest(self) -> Seq<u8> {
        sha256_digest(vstd::utf8::encode_utf8(self.text()))
    }

    /// Whether the transaction's signature holds.  Signatures are made and
    /// checked outside the ledger, which accepts none.
    pub open spec fn signature_holds(self) -> bool {
        false
    }

    /// The transaction is signed, and its signature does not hold.
    pub open spec fn badly_signed(self) -> bool {
        self.signature is Some && !self.signature_holds()
    }
}

impl<F: Fn(String, String, u128) -> Result<(), String>> TransactionView<F> {
    /// The handler of a contract that the transaction deploys may be called
    /// with every argument.
    pub open spec fn wf(self) -> bool {
        match self.data {
            TransactionDataView::DeploySmartContract { sc, .. } => sc.wf(),
            _ => true,
        }
    }

    /// Whether executing the transaction in the state `pre` can end in the
    /// state `post` with `result`; `genesis` tells whether the transaction
    /// stands in the first block.
    ///
    /// Outside the first block the sender has to have an account.  What
    /// follows depends on the payload.  Every refusal leaves the state as it
    /// was.
    pub open spec fn executes(
        self,
        genesis: bool,
        pre: WorldView<F>,
        post: WorldView<F>,
        result: Outcome,
    ) -> bool {
        if !genesis && !pre.accounts.contains_key(self.from) {
            post == pre && result == Err::<Seq<char>, _>(TransactionError::AccountNotFound)
        } else {
            match self.data {
                TransactionDataView::CreateUserAccount => created(pre, post, result),
                TransactionDataView::MintTokens { receiver, amount } => (post, result) == minted(
                    pre,
                    genesis,
                    receiver,
                    amount,
                ),
                TransactionDataView::Transfer { to, amount } => (post, result) == transferred(
                    pre,
                    self.from,
                    to,
                    amount,
                ),
                TransactionDataView::ChangeStoreValue { key, value } => (post, result) == stored(
                    pre,
                    self.from,
                    key,
                    value,
                ),
                TransactionDataView::DeploySmartContract { publisher, sc } => deployed(
                    pre,
                    publisher,
                    sc,
                    post,
                    result,
                ),
                TransactionDataView::TransferToken { token, to, amount } => post == pre
                    && token_moved(pre, self.from, token, to, amount, result),
            }
        }
    }
}

impl<F> View for TransactionData<F> {
    type V = TransactionDataView<F>;

    open spec fn view(&self) -> TransactionDataView<F> {
        match self {
            TransactionData::CreateUserAccount => TransactionDataView::CreateUserAccount,
            TransactionData::ChangeStoreValue { key, value } => TransactionDataView::ChangeStoreValue {
                key: key@,
                value: value@,
            },
            TransactionData::TransferToken { token, to, amount } => TransactionDataView::TransferToken {
                token: token@,
                to: to@,
                amount: *amount,
            },
            TransactionData::Transfer { to, amount } => TransactionDataView::Transfer {
                to: to@,
                amount: *amount,
            },
            TransactionData::MintTokens { receiver, amount } => TransactionDataView::MintTokens {
                receiver: receiver@,
                amount: *amount,
            },
            TransactionData::DeploySmartContract { publisher, sc } => {
                TransactionDataView::DeploySmartContract { publisher: publisher@, sc: sc@ }
            },
        }
    }
}

impl<F> View for Transaction<F> {
    type V = TransactionView<F>;

    open spec fn view(&self) -> TransactionView<F> {
        TransactionView {
            nonce: self.nonce,
            from: self.from@,
            created_at: self.created_at,
            data: self.data@,
            signature: crate::text::optional_view(self.signature),
        }
    }
}

/// Stores `value` under `key` in every account of `accounts`.
pub fn store_in_all(accounts: &mut StringMap<Account>, key: &String, value: &String)
    ensures
        final(accounts).pairs() == with_values(old(accounts).pairs(), entry_setter(key@, value@)),
        final(accounts)@ == old(accounts)@.map_values(entry_setter(key@, value@)),
{
    let n = accounts.len();
    let mut i: usize = 0;
    while i < n
        invariant
            i <= n,
            n == old(accounts).pairs().len(),
            accounts.pairs().len() == n,
            forall|j: int|
                0 <= j < i ==> #[trigger] accounts.pairs()[j] == (
                    old(accounts).pairs()[j].0,
                    old(accounts).pairs()[j].1.with_entry(key@, value@),
                ),
            forall|j: int| i <= j < n ==> #[trigger] accounts.pairs()[j] == old(accounts).pairs()[j],
        decreases n - i,
    {
        let account = accounts.value_at_mut(i);
        account.store.insert(key.clone(), value.clone());
        i = i + 1;
    }
    proof {
        assert(accounts.pairs() =~= with_values(old(accounts).pairs(), entry_setter(key@, value@)));
        lemma_map_of_with_values(old(accounts).pairs(), entry_setter(key@, value@));
    }
}

impl<F> TransactionData<F> {
    /// Appends the payload's text form to `out`.
    fn push_text(&self, out: &mut String)
        ensures
            final(out)@ == old(out)@ + self@.text(),
    {
        match self {
            TransactionData::CreateUserAccount => {
                out.append("CreateUserAccount");
            },
            TransactionData::ChangeStoreValue { key, value } => {
                out.append("ChangeStoreValue(");
                push_string(out, key.as_str());
                out.append(", ");
                push_string(out, value.as_str());
                out.append(")");
                proof {
                    lemma_appended_five(
                        old(out)@,
                        "ChangeStoreValue("@,
                        string_text(key@),
                        ", "@,
                        string_text(value@),
                        ")"@,
                    );
                }
            },
            TransactionData::TransferToken { token, to, amount } => {
                out.append("TransferToken(");
                push_string(out, token.as_str());
                out.append(", ");
                push_string(out, to.as_str());
                out.append(", ");
                push_decimal(out, *amount);
                out.append(")");
                proof {
                    lemma_appended_seven(
                        old(out)@,
                        "TransferToken("@,
                        string_text(token@),
                        ", "@,
                        string_text(to@),
                        ", "@,
                        decimal(*amount as nat),
                        ")"@,
                    );
                }
            },
            TransactionData::Transfer { to, amount } => {
                out.append("Transfer(");
                push_string(out, to.as_str());
                out.append(", ");
                push_decimal(out, *amount);
                out.append(")");
                proof {
                    lemma_appended_five(
                        old(out)@,
                        "Transfer("@,
                        string_text(to@),
                        ", "@,
                        decimal(*amount as nat),
                        ")"@,
                    );
                }
            },
            TransactionData::MintTokens { receiver, amount } => {
                out.append("MintTokens(");
                push_string(out, receiver.as_str());
                out.append(", ");
                push_decimal(out, *amount);
                out.append(")");
                proof {
                    lemma_appended_five(
                        old(out)@,
                        "MintTokens("@,
                        string_text(receiver@),
                        ", "@,
                        decimal(*amount as nat),
                        ")"@,
                    );
                }
            },
            TransactionData::DeploySmartContract { publisher, sc } => {
                out.append("DeploySmartContract(");
                push_string(out, publisher.as_str());
                out.append(", ");
                out.append(sc.standard.to());
                out.append(", ");
                match &sc.api {
                    crate::smart_contract::SmartContractApi::ESC20 {
                        publisher: owner,
                        total_suply,
                        ..
                    } => {
                        push_string(out, owner.as_str());
                        out.append(", ");
                        push_decimal(out, *total_suply);
                    },
                }
                out.append(")");
                proof {
                    lemma_appended_nine(
                        old(out)@,
                        "DeploySmartContract("@,
                        string_text(publisher@),
                        ", "@,
                        sc@.standard.name(),
                        ", "@,
                        string_text(sc@.publisher),
                        ", "@,
                        decimal(sc@.total_suply as nat),
                        ")"@,
                    );
                }
            },
        }
    }
}

impl<F> Transaction<F> {
    /// A transaction of `from`, created at `created_at` and not signed.
    pub fn at(from: String, transaction_data: TransactionData<F>, nonce: u128, created_at: Timestamp) -> (r:
        Self)
        ensures
            r@ == (TransactionView {
                nonce,
                from: from@,
                created_at,
                data: transaction_data@,
                signature: None,
            }),
    {
        Transaction { from, nonce, data: transaction_data, created_at, signature: None }
    }

    /// A transaction of `from`, created now and not signed.
    pub fn new(from: String, transaction_data: TransactionData<F>, nonce: u128) -> (r: Self)
        ensures
            r@ == (TransactionView {
                nonce,
                from: from@,
                created_at: r.created_at,
                data: transaction_data@,
                signature: None,
            }),
    {
        Self::at(from, transaction_data, nonce, current_time())
    }

    /// The transaction's hash.
    pub fn calculate_hash(&self) -> (r: Vec<u8>)
        ensures
            r@ == self@.digest(),
    {
        let mut text = String::new();
        text.append("(");
        push_decimal(&mut text, self.created_at.secs as u128);
        text.append(".");
        push_decimal(&mut text, self.created_at.nanos as u128);
        text.append(", ");
        self.data.push_text(&mut text);
        text.append(", ");
        push_string(&mut text, self.from.as_str());
        text.append(", ");
        push_decimal(&mut text, self.nonce);
        text.append(")");
        proof {
            lemma_appended_eleven(
                Seq::empty(),
                "("@,
                decimal(self.created_at.secs as nat),
                "."@,
                decimal(self.created_at.nanos as nat),
                ", "@,
                self.data@.text(),
                ", "@,
                string_text(self.from@),
                ", "@,
                decimal(self.nonce as nat),
                ")"@,
            );
            assert(Seq::<char>::empty() + self@.text() =~= self@.text());
        }
        sha256(text.as_str().as_bytes())
    }

    /// Whether the signature holds.  No signature is accepted: signatures
    /// are made and checked outside the ledger.
    pub fn check_signature(&self) -> (r: bool)
        ensures
            r == self@.signature_holds(),
    {
        false
    }

    /// Whether the transaction carries a signature.
    pub fn is_signed(&self) -> (r: bool)
        ensures
            r == self@.signature is Some,
    {
        self.signature.is_some()
    }
}

impl<F: Fn(String, String, u128) -> Result<(), String> + Copy> Transaction<F> {
    /// Executes the transaction on `world_state`; `is_initial` tells whether
    /// it stands in the first block.  Hands back a receipt, or the reason
    /// for which the transaction was refused; a refused transaction leaves
    /// the state as it was.
    pub fn execute<W: WorldState<F>>(&self, world_state: &mut W, is_initial: &bool) -> (r: Result<
        String,
        TransactionError,
    >)
        requires
            self@.wf(),
            old(world_state).state().wf(),
        ensures
            self@.executes(
                *is_initial,
                old(world_state).state(),
                final(world_state).state(),
                outcome_of(r),
            ),
            final(world_state).state().wf(),
            final(world_state).rest() == old(world_state).rest(),
            r is Err ==> final(world_state).state() == old(world_state).state(),
    {
        if !*is_initial && world_state.get_account_by_id(&self.from).is_none() {
            return Err(TransactionError::AccountNotFound);
        }
        match &self.data {
            TransactionData::CreateUserAccount => {
                let created = world_state.create_account(AccountType::User);
                let ghost pre = old(world_state).state();
                let ghost account = choose|account: AccountView|
                    account.is_new(AccountType::User) && account.is_derived()
                        && #[trigger] pre.register(account) == (
                        world_state.state(),
                        outcome_of(created),
                    );
                let r = match created {
                    Ok(_) => Ok(String::from_str("Created Account")),
                    Err(e) => Err(e),
                };
                assert(created_with(pre, account) == (world_state.state(), outcome_of(r)));
                r
            },
            TransactionData::MintTokens { receiver, amount } => {
                if !*is_initial {
                    return Err(TransactionError::GenesisOnlyOperation);
                }
                let balance = match world_state.get_account_by_id(receiver) {
                    Some(account) => account.tokens,
                    None => {
                        return Err(TransactionError::AccountNotFound);
                    },
                };
                match balance.checked_add(*amount) {
                    Some(sum) => {
                        Self::set_tokens(world_state, receiver, sum);
                        Ok(String::from_str("Minted"))
                    },
                    None => Err(TransactionError::ArithmeticOverflowOrInsufficientFunds),
                }
            },
            TransactionData::Transfer { to, amount } => {
                let receiver_tokens = match world_state.get_account_by_id(to) {
                    Some(account) => account.tokens,
                    None => {
                        return Err(TransactionError::AccountNotFound);
                    },
                };
                let sender_tokens = match world_state.get_account_by_id(&self.from) {
                    Some(account) => account.tokens,
                    None => {
                        return Err(TransactionError::AccountNotFound);
                    },
                };
                match (receiver_tokens.checked_add(*amount), sender_tokens.checked_sub(*amount)) {
                    (Some(_), Some(sender_left)) => {
                        Self::set_tokens(world_state, &self.from, sender_left);
                        let credited: u128 = match world_state.get_account_by_id(to) {
                            Some(account) => account.tokens + *amount,
                            None => unreached(),
                        };
                        Self::set_tokens(world_state, to, credited);
                        Ok(String::from_str("Transferred"))
                    },
                    _ => Err(TransactionError::ArithmeticOverflowOrInsufficientFunds),
                }
            },
            TransactionData::ChangeStoreValue { key, value } => {
                if world_state.get_account_by_id(&self.from).is_none() {
                    return Err(TransactionError::AccountNotFound);
                }
                if is_contract_key(key.as_str()) {
                    return Err(TransactionError::InvalidStoreKey);
                }
                Self::set_entry(world_state, &self.from, key, value);
                Ok(String::from_str("Store updated"))
            },
            TransactionData::DeploySmartContract { publisher, sc } => {
                let ghost pre = old(world_state).state();
                if world_state.get_account_by_id(publisher).is_none() {
                    return Err(TransactionError::AccountNotFound);
                }
                let deployed = world_state.create_smart_contact(sc.duplicate());
                let ghost account = choose|account: AccountView|
                    account.is_new(AccountType::Contract) && account.is_derived()
                        && #[trigger] pre.deploy(sc@, account) == (
                        world_state.state(),
                        outcome_of(deployed),
                    );
                let id = match deployed {
                    Ok(id) => id,
                    Err(e) => {
                        assert(deployed_with(pre, publisher@, sc@, account) == (
                            world_state.state(),
                            Err::<Seq<char>, _>(e),
                        ));
                        return Err(e);
                    },
                };
                let ghost launched = world_state.state();
                let zero = decimal_string(0);
                store_in_all(world_state.get_accounts(), &id, &zero);
                let supply = match &sc.api {
                    crate::smart_contract::SmartContractApi::ESC20 { total_suply, .. } => decimal_string(
                        *total_suply,
                    ),
                };
                Self::set_entry(world_state, publisher, &id, &supply);
                proof {
                    let post = world_state.state();
                    assert(post == supplied(launched, id@, publisher@, sc@.total_suply));
                    assert(deployed_with(pre, publisher@, sc@, account) == (
                        post,
                        Ok::<_, TransactionError>(id@),
                    ));
                    assert forall|k: Seq<char>| #[trigger] post.contracts.contains_key(k) implies post.contracts[k].wf() by {
                        if k != id@ {
                            assert(pre.contracts.contains_key(k));
                        }
                    }
                }
                Ok(id)
            },
            TransactionData::TransferToken { token, to, amount } => {
                let ghost pre = old(world_state).state();
                let verdict = match world_state.get_smart_contact_by_id_mut(token) {
                    None => {
                        return Err(TransactionError::ContractNotFound);
                    },
                    Some(contract) => {
                        match contract.standard {
                            SmartContractStanderd::ESC20 => {
                                let text = decimal_string(*amount);
                                proof {
                                    lemma_parse_decimal(*amount);
                                }
                                contract.execute_fn(
                                    "transfer",
                                    vec![self.from.as_str(), to.as_str(), text.as_str()],
                                )
                            },
                            SmartContractStanderd::ESC721 => {
                                proof {
                                    assert(pre.contracts.insert(token@, pre.contracts[token@])
                                        =~= pre.contracts);
                                }
                                return Err(TransactionError::ContractNotTransferable);
                            },
                        }
                    },
                };
                proof {
                    assert(pre.contracts.insert(token@, pre.contracts[token@]) =~= pre.contracts);
                    assert(may_return(pre.contracts[token@].transfer, self.from@, to@, *amount, verdict));
                }
                match verdict {
                    Ok(_) => Ok(String::from_str("Token transfer success")),
                    Err(_) => Err(TransactionError::ContractCallFailed),
                }
            },
        }
    }

    /// Sets the balance of the account at `id`.
    fn set_tokens<W: WorldState<F>>(world_state: &mut W, id: &String, tokens: u128)
        requires
            old(world_state).state().accounts.contains_key(id@),
        ensures
            final(world_state).rest() == old(world_state).rest(),
            final(world_state).state() == old(world_state).state().with_account(
                id@,
                old(world_state).state().accounts[id@].with_tokens(tokens),
            ),
    {
        match world_state.get_account_by_id_mut(id) {
            Some(account) => {
                account.tokens = tokens;
            },
            None => unreached(),
        }
    }

    /// Stores `value` under `key` in the account at `id`.
    fn set_entry<W: WorldState<F>>(world_state: &mut W, id: &String, key: &String, value: &String)
        requires
            old(world_state).state().accounts.contains_key(id@),
        ensures
            final(world_state).rest() == old(world_state).rest(),
            final(world_state).state() == old(world_state).state().with_account(
                id@,
                old(world_state).state().accounts[id@].with_entry(key@, value@),
            ),
    {
        match world_state.get_account_by_id_mut(id) {
            Some(account) => {
                account.store.insert(key.clone(), value.clone());
            },
            None => unreached(),
        }
    }
}

} // verus!
