//! The read-only routes under which a ledger is served, and whether each is
//! switched on.
use vstd::prelude::*;
use vstd::string::*;

verus! {

/// Whether a route is switched on.
#[derive(Debug, Clone, Copy, PartialEq, Eq, Structural)]
pub enum RouteStatus {
    Active,
    Unavalible,
}

/// The status of each route.
#[allow(non_snake_case)]
#[derive(Debug)]
pub struct Routes {
    pub blockchain_getBlocks: RouteStatus,
    pub blockchain_getBlock_hash: RouteStatus,
    pub blockchain_getChainHeight: RouteStatus,
    pub account_getAccounts: RouteStatus,
    pub blockchain_getAccount_address: RouteStatus,
}

impl RouteStatus {
    /// The word for the status.
    pub open spec fn text(self) -> Seq<char> {
        match self {
            RouteStatus::Active => "Active"@,
            RouteStatus::Unavalible => "Unavalible"@,
        }
    }

    /// The word for the status.
    pub fn as_str(&self) -> (r: &'static str)
        ensures
            r@ == self.text(),
    {
        match self {
            RouteStatus::Active => "Active",
            RouteStatus::Unavalible => "Unavalible",
        }
    }

    /// The word for the status.
    pub fn to_string(&self) -> (r: String)
        ensures
            r@ == self.text(),
    {
        String::from_str(self.as_str())
    }
}

impl Default for RouteStatus {
    fn default() -> (r: Self)
        ensures
            r == RouteStatus::Active,
    {
        RouteStatus::Active
    }
}

impl Routes {
    /// The list of the routes: one line for each, with its path and its
    /// status.
    pub open spec fn text(self) -> Seq<char> {
        "/blockchain/getBlocks: "@ + self.blockchain_getBlocks.text()
            + "\n/blockchain/getBlock/<hash>: "@ + self.blockchain_getBlock_hash.text()
            + "\n/blockhchain/getChainHeight: "@ + self.blockchain_getChainHeight.text()
            + "\n/accounts/getAccounts: "@ + self.account_getAccounts.text()
            + "\n/accounts/getAccount/<address>: "@ + self.blockchain_getAccount_address.text()
    }

    /// The list of the routes: one line for each, with its path and its
    /// status.
    pub fn to_string(&self) -> (r: String)
        ensures
            r@ == self.text(),
    {
        let mut out = String::from_str("/blockchain/getBlocks: ");
        out.append(self.blockchain_getBlocks.as_str());
        out.append("\n/blockchain/getBlock/<hash>: ");
        out.append(self.blockchain_getBlock_hash.as_str());
        out.append("\n/blockhchain/getChainHeight: ");
        out.append(self.blockchain_getChainHeight.as_str());
        out.append("\n/accounts/getAccounts: ");
        out.append(self.account_getAccounts.as_str());
        out.append("\n/accounts/getAccount/<address>: ");
        out.append(self.blockchain_getAccount_address.as_str());
        out
    }
}

impl Default for Routes {
    fn default() -> (r: Self)
        ensures
            r.blockchain_getBlocks == RouteStatus::Active,
            r.blockchain_getBlock_hash == RouteStatus::Active,
            r.blockchain_getChainHeight == RouteStatus::Active,
            r.account_getAccounts == RouteStatus::Active,
            r.blockchain_getAccount_address == RouteStatus::Active,
    {
        Routes {
            blockchain_getBlocks: RouteStatus::Active,
            blockchain_getBlock_hash: RouteStatus::Active,
            blockchain_getChainHeight: RouteStatus::Active,
            account_getAccounts: RouteStatus::Active,
            blockchain_getAccount_address: RouteStatus::Active,
        }
    }
}

} // verus!
