//! Contract records: a standard, what the standard's entry points need, and
//! the handlers that are bound to them.
use vstd::pervasive::unreached;
use vstd::prelude::*;
use vstd::string::*;
use crate::text::{parse_u128, parsed_u128};

verus! {

/// The standards that a contract can follow.
#[derive(Debug, Clone, Copy, PartialEq, Eq, Structural)]
pub enum SmartContractStanderd {
    ESC20,
    ESC721,
}

/// What a contract of each kind holds.  `transfer` is the handler that is
/// bound to the entry point of that name.
#[derive(Debug, Clone, PartialEq)]
pub enum SmartContractApi<F> {
    ESC20 { publisher: String, total_suply: u128, transfer: F },
}

/// A contract record: the standard that the contract follows, and what it
/// holds.
#[derive(Debug, Clone, PartialEq)]
pub struct SmartContract<F> {
    pub standard: SmartContractStanderd,
    pub api: SmartContractApi<F>,
}

/// The mathematical value of a contract record.
pub struct SmartContractView<F> {
    pub standard: SmartContractStanderd,
    pub publisher: Seq<char>,
    pub total_suply: u128,
    pub transfer: F,
}

/// Whether the handler `f` may be called with every sender, receiver and
/// amount.
pub open spec fn callable<F: Fn(String, String, u128) -> Result<(), String>>(f: F) -> bool {
    forall|from: String, to: String, amount: u128| call_requires(f, (from, to, amount))
}

/// Whether `verdict` is something that the handler `f` may return for a
/// transfer of `amount` from `from` to `to`.
pub open spec fn may_return<F: Fn(String, String, u128) -> Result<(), String>>(
    f: F,
    from: Seq<char>,
    to: Seq<char>,
    amount: u128,
    verdict: Result<(), String>,
) -> bool {
    exists|a: String, b: String| a@ == from && b@ == to && call_ensures(f, (a, b, amount), verdict)
}

impl SmartContractStanderd {
    /// The standard that goes by the name `name`, if there is one.
    pub open spec fn named(name: Seq<char>) -> Option<SmartContractStanderd> {
        if name == "ESC-20"@ || name == "esc-20"@ || name == "ESC20"@ || name == "esc20"@ {
            Some(SmartContractStanderd::ESC20)
        } else if name == "ESC-721"@ || name == "esc-721"@ || name == "ESC721"@ || name
            == "esc721"@ {
            Some(SmartContractStanderd::ESC721)
        } else {
            None
        }
    }

    /// The name under which the standard is written.
    pub open spec fn name(self) -> Seq<char> {
        match self {
            SmartContractStanderd::ESC20 => "ESC20"@,
            SmartContractStanderd::ESC721 => "ESC721"@,
        }
    }

    /// Whether contracts of this standard have an entry point called `name`.
    pub open spec fn has_entry_point(self, name: Seq<char>) -> bool {
        self == SmartContractStanderd::ESC20 && name == "transfer"@
    }

    /// The standard that goes by the name `str`, if there is one.
    pub fn parse(str: &str) -> (r: Option<SmartContractStanderd>)
        ensures
            r == Self::named(str@),
    {
        let name = String::from_str(str);
        if name == String::from_str("ESC-20") || name == String::from_str("esc-20") || name
            == String::from_str("ESC20") || name == String::from_str("esc20") {
            Some(SmartContractStanderd::ESC20)
        } else if name == String::from_str("ESC-721") || name == String::from_str("esc-721")
            || name == String::from_str("ESC721") || name == String::from_str("esc721") {
            Some(SmartContractStanderd::ESC721)
        } else {
            None
        }
    }

    /// The standard that goes by the name `str`.
    pub fn from(str: &str) -> (r: SmartContractStanderd)
        requires
            Self::named(str@) is Some,
        ensures
            Some(r) == Self::named(str@),
    {
        match Self::parse(str) {
            Some(standard) => standard,
            None => unreached(),
        }
    }

    /// The name under which the standard is written.
    pub fn to(&self) -> (r: &str)
        ensures
            r@ == self.name(),
    {
        match self {
            SmartContractStanderd::ESC20 => "ESC20",
            SmartContractStanderd::ESC721 => "ESC721",
        }
    }
}

impl<F> View for SmartContract<F> {
    type V = SmartContractView<F>;

    open spec fn view(&self) -> SmartContractView<F> {
        SmartContractView {
            standard: self.standard,
            publisher: self.api->publisher@,
            total_suply: self.api->total_suply,
            transfer: self.api->transfer,
        }
    }
}

impl<F: Fn(String, String, u128) -> Result<(), String>> SmartContractView<F> {
    /// The record's handler may be called with every argument.
    pub open spec fn wf(self) -> bool {
        callable(self.transfer)
    }

    /// Whether the record has an entry point called `name`.
    pub open spec fn has_entry_point(self, name: Seq<char>) -> bool {
        self.standard.has_entry_point(name)
    }
}

impl<F: Fn(String, String, u128) -> Result<(), String>> SmartContract<F> {
    /// A record of the standard `standard` with the contents `api`.
    pub fn new(standard: SmartContractStanderd, api: SmartContractApi<F>) -> (r: SmartContract<F>)
        ensures
            r.standard == standard,
            r.api == api,
    {
        SmartContract { standard, api }
    }

    /// Calls the entry point `fun` with the arguments `params`: for
    /// `transfer` these are the sender, the receiver and the amount in
    /// decimal.  Hands back what the handler returned.
    pub fn execute_fn(&mut self, fun: &str, params: Vec<&str>) -> (r: Result<(), String>)
        requires
            old(self)@.wf(),
            old(self)@.has_entry_point(fun@),
            params@.len() >= 3,
            parsed_u128(params@[2]@) is Some,
        ensures
            *final(self) == *old(self),
            may_return(
                old(self)@.transfer,
                params@[0]@,
                params@[1]@,
                parsed_u128(params@[2]@)->0,
                r,
            ),
    {
        let from = String::from_str(params[0]);
        let to = String::from_str(params[1]);
        let amount: u128 = match parse_u128(params[2]) {
            Some(n) => n,
            None => unreached(),
        };
        match &self.api {
            SmartContractApi::ESC20 { transfer, .. } => transfer(from, to, amount),
        }
    }
}

/// The declaration of a token that follows ESC20: how many tokens there are,
/// and the handler for transfers.
#[derive(Debug, Clone)]
pub struct TokenDeclaration<F> {
    pub total_supply: u128,
    pub transfer: F,
}

impl<F: Copy> crate::vm::SmartContract<F> for TokenDeclaration<F> {
    /// The record for the token: of the standard ESC20, with the declared
    /// supply and handler, and no publisher yet.
    fn deploy(&self) -> (r: SmartContract<F>)
        ensures
            r@ == (SmartContractView {
                standard: SmartContractStanderd::ESC20,
                publisher: Seq::empty(),
                total_suply: self.total_supply,
                transfer: self.transfer,
            }),
    {
        SmartContract {
            standard: SmartContractStanderd::ESC20,
            api: SmartContractApi::ESC20 {
                publisher: String::new(),
                total_suply: self.total_supply,
                transfer: self.transfer,
            },
        }
    }
}

impl<F: Copy> SmartContract<F> {
    /// A copy of the record.
    pub fn duplicate(&self) -> (r: Self)
        ensures
            r@ == self@,
    {
        match &self.api {
            SmartContractApi::ESC20 { publisher, total_suply, transfer } => SmartContract {
                standard: self.standard,
                api: SmartContractApi::ESC20 {
                    publisher: publisher.clone(),
                    total_suply: *total_suply,
                    transfer: *transfer,
                },
            },
        }
    }
}

} // verus!
