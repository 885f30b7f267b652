//! What the execution of transactions needs from the state it works on.
use vstd::prelude::*;
use crate::account::{Account, AccountType, AccountView};
use crate::error::{outcome_of, Outcome, TransactionError};
use crate::smart_contract::SmartContractView;
use crate::string_map::StringMap;

verus! {

/// The mathematical value of a world state: the accounts and the contracts,
/// each by its address.
pub struct WorldView<F> {
    pub accounts: Map<Seq<char>, AccountView>,
    pub contracts: Map<Seq<char>, SmartContractView<F>>,
}

impl<F: Fn(String, String, u128) -> Result<(), String>> WorldView<F> {
    /// The handler of every contract may be called with every argument.
    pub open spec fn wf(self) -> bool {
        forall|id: Seq<char>| #[trigger] self.contracts.contains_key(id) ==> self.contracts[id].wf()
    }

    /// The state with the accounts replaced.
    pub open spec fn with_accounts(self, accounts: Map<Seq<char>, AccountView>) -> WorldView<F> {
        WorldView { accounts, ..self }
    }

    /// The state with `account` at the address `id`.
    pub open spec fn with_account(self, id: Seq<char>, account: AccountView) -> WorldView<F> {
        WorldView { accounts: self.accounts.insert(id, account), ..self }
    }

    /// The state with `contract` at the address `id`.
    pub open spec fn with_contract(self, id: Seq<char>, contract: SmartContractView<F>) -> WorldView<
        F,
    > {
        WorldView { contracts: self.contracts.insert(id, contract), ..self }
    }

    /// What adding `account` gives: the state with the account at its
    /// address, and the address; or, where the address is taken, the state
    /// as it is, and a refusal.
    pub open spec fn register(self, account: AccountView) -> (WorldView<F>, Outcome) {
        let id = account.address();
        if self.accounts.contains_key(id) {
            (self, Err(TransactionError::AccountAlreadyExists))
        } else {
            (self.with_account(id, account), Ok(id))
        }
    }

    /// What deploying `contract` with `account` as its account gives: the
    /// state with the account and the contract at the account's address,
    /// and the address; or, where the address is taken by an account or by
    /// a contract, the state as it is, and a refusal.
    pub open spec fn deploy(self, contract: SmartContractView<F>, account: AccountView) -> (
        WorldView<F>,
        Outcome,
    ) {
        let id = account.address();
        if self.accounts.contains_key(id) {
            (self, Err(TransactionError::AccountAlreadyExists))
        } else if self.contracts.contains_key(id) {
            (self, Err(TransactionError::ContractAlreadyExists))
        } else {
            (self.with_account(id, account).with_contract(id, contract), Ok(id))
        }
    }
}

/// Whether the strings of `ids` are exactly the keys of `map`.
pub open spec fn lists_keys<V>(ids: Seq<String>, map: Map<Seq<char>, V>) -> bool {
    forall|k: Seq<char>| map.contains_key(k) <==> exists|i: int| 0 <= i < ids.len() && ids[i]@ == k
}

/// A store of accounts and contracts, as the execution of transactions sees
/// it.
pub trait WorldState<F: Fn(String, String, u128) -> Result<(), String>> {
    /// What an implementation holds besides the accounts and contracts.
    type Rest;

    /// The accounts and contracts that the state holds.
    spec fn state(&self) -> WorldView<F>;

    /// What the implementation holds besides the accounts and contracts.
    /// No method of this interface changes it.
    spec fn rest(&self) -> Self::Rest;

    /// The addresses of all accounts.
    fn get_user_ids(&self) -> (r: Vec<String>)
        ensures
            lists_keys(r@, self.state().accounts),
    ;

    /// Mutable access to the account at `id`, if there is one.
    fn get_account_by_id_mut(&mut self, id: &String) -> (r: Option<&mut Account>)
        ensures
            final(self).rest() == old(self).rest(),
            match r {
                Some(account) => {
                    &&& old(self).state().accounts.contains_key(id@)
                    &&& (*account)@ == old(self).state().accounts[id@]
                    &&& final(self).state() == old(self).state().with_account(id@, (*final(account))@)
                },
                None => {
                    &&& !old(self).state().accounts.contains_key(id@)
                    &&& final(self).state() == old(self).state()
                },
            },
    ;

    /// The account at `id`, if there is one.
    fn get_account_by_id(&self, id: &String) -> (r: Option<&Account>)
        ensures
            match r {
                Some(account) => self.state().accounts.contains_key(id@) && account@
                    == self.state().accounts[id@],
                None => !self.state().accounts.contains_key(id@),
            },
    ;

    /// Makes a new account of the kind `account_type`, with a key pair of
    /// its own, adds it and hands back its address.  Fails, and changes
    /// nothing, if the address is taken.
    fn create_account(&mut self, account_type: AccountType) -> (r: Result<String, TransactionError>)
        ensures
            final(self).rest() == old(self).rest(),
            exists|account: AccountView|
                account.is_new(account_type) && account.is_derived() && #[trigger] old(
                    self,
                ).state().register(account) == (final(self).state(), outcome_of(r)),
    ;

    /// The addresses of all contracts.
    fn get_smart_contact_ids(&self) -> (r: Vec<String>)
        ensures
            lists_keys(r@, self.state().contracts),
    ;

    /// Mutable access to the contract at `id`, if there is one.
    fn get_smart_contact_by_id_mut(&mut self, id: &String) -> (r: Option<
        &mut crate::smart_contract::SmartContract<F>,
    >)
        ensures
            final(self).rest() == old(self).rest(),
            match r {
                Some(contract) => {
                    &&& old(self).state().contracts.contains_key(id@)
                    &&& (*contract)@ == old(self).state().contracts[id@]
                    &&& final(self).state() == old(self).state().with_contract(
                        id@,
                        (*final(contract))@,
                    )
                },
                None => {
                    &&& !old(self).state().contracts.contains_key(id@)
                    &&& final(self).state() == old(self).state()
                },
            },
    ;

    /// The contract at `id`, if there is one.
    fn get_smart_contact_by_id(&self, id: &String) -> (r: Option<
        &crate::smart_contract::SmartContract<F>,
    >)
        ensures
            match r {
                Some(contract) => self.state().contracts.contains_key(id@) && contract@
                    == self.state().contracts[id@],
                None => !self.state().contracts.contains_key(id@),
            },
    ;

    /// Deploys `smart_contract`: makes a new account for it, with a key
    /// pair of its own, adds the account and the contract at the account's
    /// address, and hands the address back.  Fails, and changes nothing, if
    /// the address is taken by an account or by a contract.
    fn create_smart_contact(&mut self, smart_contract: crate::smart_contract::SmartContract<F>) -> (r:
        Result<String, TransactionError>)
        ensures
            final(self).rest() == old(self).rest(),
            exists|account: AccountView|
                account.is_new(AccountType::Contract) && account.is_derived() && #[trigger] old(
                    self,
                ).state().deploy(smart_contract@, account) == (final(self).state(), outcome_of(r)),
    ;

    /// All accounts at once.  What the caller leaves in the map is what the
    /// state holds afterwards.
    fn get_accounts(&mut self) -> (r: &mut StringMap<Account>)
        ensures
            final(self).rest() == old(self).rest(),
            (*r)@ == old(self).state().accounts,
            final(self).state() == old(self).state().with_accounts((*final(r))@),
    ;

    /// All contracts at once.  What the caller leaves in the map is what the
    /// state holds afterwards.
    fn get_smart_contacts(&mut self) -> (r: &mut StringMap<crate::smart_contract::SmartContract<F>>)
        ensures
            final(self).rest() == old(self).rest(),
            (*r)@ == old(self).state().contracts,
            final(self).state() == (WorldView {
                contracts: (*final(r))@,
                ..old(self).state()
            }),
    ;
}

/// A declaration of a contract, from which the record that the ledger stores
/// is made.
pub trait SmartContract<F> {
    /// The record for this declaration.
    fn deploy(&self) -> crate::smart_contract::SmartContract<F>;
}

} // verus!
