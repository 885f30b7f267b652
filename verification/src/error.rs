//! What can go wrong, and the words for it.
use vstd::prelude::*;
use vstd::string::*;
use crate::text::{decimal, push_decimal};

verus! {

/// Why a transaction was not executed.
#[derive(Debug, Clone, Copy, PartialEq, Eq, Structural)]
pub enum TransactionError {
    /// The sender, the receiver or the publisher has no account.
    AccountNotFound,
    /// The address of a new account is already taken.
    AccountAlreadyExists,
    /// No contract is deployed at the address.
    ContractNotFound,
    /// The address of a new contract is already taken.
    ContractAlreadyExists,
    /// The contract has no entry point for transfers.
    ContractNotTransferable,
    /// The receiver's balance would overflow, or the sender's does not
    /// cover the amount.
    ArithmeticOverflowOrInsufficientFunds,
    /// The key belongs to the contracts and cannot be written directly.
    InvalidStoreKey,
    /// Tokens can only be minted in the first block.
    GenesisOnlyOperation,
    /// The contract's handler refused the call.
    ContractCallFailed,
}

/// Why a block was not appended.
#[derive(Debug, Clone, Copy, PartialEq, Eq, Structural)]
pub enum BlockError {
    /// The block's stored hash is not the hash of its contents.
    HashMismatch,
    /// The block does not point to the last block of the chain.
    ChainLinkageMismatch,
    /// The block holds no transaction.
    EmptyBlock,
    /// The transaction at place `index`, counted from 1, failed with `cause`.
    TransactionFailed { index: usize, cause: TransactionError },
}

/// What is wrong with a chain.  Blocks and transactions are counted from 1.
#[derive(Debug, Clone, Copy, PartialEq, Eq, Structural)]
pub enum ChainError {
    /// The stored hash of the block is not the hash of its contents.
    HashMismatch { block: usize },
    /// The block does not point to the block before it; the first block
    /// points to a block.
    ChainLinkageMismatch { block: usize },
    /// The transaction is signed, and its signature does not hold.
    InvalidSignature { block: usize, transaction: usize },
}

/// How the execution of a transaction ends: with a receipt, or with the
/// reason for which it was refused.
pub type Outcome = Result<Seq<char>, TransactionError>;

/// The outcome that `r` stands for.
pub open spec fn outcome_of(r: Result<String, TransactionError>) -> Outcome {
    match r {
        Ok(receipt) => Ok(receipt@),
        Err(e) => Err(e),
    }
}

impl TransactionError {
    /// The words for the error.
    pub open spec fn text(self) -> Seq<char> {
        match self {
            TransactionError::AccountNotFound => "Account does not exist"@,
            TransactionError::AccountAlreadyExists => "Account already exists"@,
            TransactionError::ContractNotFound => "Token does not exist"@,
            TransactionError::ContractAlreadyExists => "Contract already exists"@,
            TransactionError::ContractNotTransferable => "Not a transferable asset"@,
            TransactionError::ArithmeticOverflowOrInsufficientFunds => "Overspent or arithmetic error"@,
            TransactionError::InvalidStoreKey => "Can not change store related to a smart contract"@,
            TransactionError::GenesisOnlyOperation => "Token creation is only available on initial creation"@,
            TransactionError::ContractCallFailed => "The contract refused the call"@,
        }
    }

    /// The words for the error.
    pub fn message(&self) -> (r: &'static str)
        ensures
            r@ == self.text(),
    {
        match self {
            TransactionError::AccountNotFound => "Account does not exist",
            TransactionError::AccountAlreadyExists => "Account already exists",
            TransactionError::ContractNotFound => "Token does not exist",
            TransactionError::ContractAlreadyExists => "Contract already exists",
            TransactionError::ContractNotTransferable => "Not a transferable asset",
            TransactionError::ArithmeticOverflowOrInsufficientFunds => "Overspent or arithmetic error",
            TransactionError::InvalidStoreKey => "Can not change store related to a smart contract",
            TransactionError::GenesisOnlyOperation => "Token creation is only available on initial creation",
            TransactionError::ContractCallFailed => "The contract refused the call",
        }
    }
}

impl BlockError {
    /// The words for the error.
    pub open spec fn text(self) -> Seq<char> {
        match self {
            BlockError::HashMismatch => "The block hash is mismatching"@,
            BlockError::ChainLinkageMismatch => "The new block has to point to the previous block"@,
            BlockError::EmptyBlock => "There has to be at least one transaction inside the block"@,
            BlockError::TransactionFailed { index, cause } => "Could not execute transaction "@
                + decimal(index as nat) + " due to `"@ + cause.text() + "`. Rolling back"@,
        }
    }

    /// The words for the error.
    pub fn message(&self) -> (r: String)
        ensures
            r@ == self.text(),
    {
        match self {
            BlockError::HashMismatch => String::from_str("The block hash is mismatching"),
            BlockError::ChainLinkageMismatch => String::from_str(
                "The new block has to point to the previous block",
            ),
            BlockError::EmptyBlock => String::from_str(
                "There has to be at least one transaction inside the block",
            ),
            BlockError::TransactionFailed { index, cause } => {
                let mut out = String::from_str("Could not execute transaction ");
                push_decimal(&mut out, *index as u128);
                out.append(" due to `");
                out.append(cause.message());
                out.append("`. Rolling back");
                out
            },
        }
    }
}

impl ChainError {
    /// The words for the error.
    pub open spec fn text(self) -> Seq<char> {
        match self {
            ChainError::HashMismatch { block } => "Stored hash for Block #"@ + decimal(block as nat)
                + " does not match calculated hash"@,
            ChainError::ChainLinkageMismatch { block } => "Block #"@ + decimal(block as nat)
                + " is not connected to previous block"@,
            ChainError::InvalidSignature { block, transaction } => "Transaction #"@ + decimal(
                transaction as nat,
            ) + " for Block #"@ + decimal(block as nat) + " has an invalid signature"@,
        }
    }

    /// The words for the error.
    pub fn message(&self) -> (r: String)
        ensures
            r@ == self.text(),
    {
        match self {
            ChainError::HashMismatch { block } => {
                let mut out = String::from_str("Stored hash for Block #");
                push_decimal(&mut out, *block as u128);
                out.append(" does not match calculated hash");
                out
            },
            ChainError::ChainLinkageMismatch { block } => {
                let mut out = String::from_str("Block #");
                push_decimal(&mut out, *block as u128);
                out.append(" is not connected to previous block");
                out
            },
            ChainError::InvalidSignature { block, transaction } => {
                let mut out = String::from_str("Transaction #");
                push_decimal(&mut out, *transaction as u128);
                out.append(" for Block #");
                push_decimal(&mut out, *block as u128);
                out.append(" has an invalid signature");
                out
            },
        }
    }
}

} // verus!
