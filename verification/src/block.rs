//! Blocks: a list of transactions, a pointer to the block before, and a hash
//! over both.
use vstd::prelude::*;
use vstd::slice::slice_to_vec;
use vstd::string::*;
use crate::digest::{sha256, sha256_digest};
use crate::text::{
    decimal, hex_text, hex_upper, lemma_appended_five, optional_string_text, optional_view,
    push_decimal, push_optional_string,
};
use crate::transaction::{Transaction, TransactionView};

verus! {

/// A block: its transactions, the hash of the block before it, its own
/// hash, and a nonce.
#[derive(Debug, Clone)]
pub struct Block<F> {
    pub transactions: Vec<Transaction<F>>,
    pub prev: Option<String>,
    pub hash: Option<String>,
    pub nonce: u128,
}

/// The mathematical value of a block.
pub struct BlockView<F> {
    pub transactions: Seq<TransactionView<F>>,
    pub prev: Option<Seq<char>>,
    pub hash: Option<Seq<char>>,
    pub nonce: u128,
}

/// The hashes of `transactions`, one behind the other.
pub open spec fn joined_digests<F>(transactions: Seq<TransactionView<F>>) -> Seq<u8>
    decreases transactions.len(),
{
    if transactions.len() == 0 {
        Seq::empty()
    } else {
        joined_digests(transactions.drop_last()) + transactions.last().digest()
    }
}

impl<F> BlockView<F> {
    /// The text that stands for the block's pointer and its nonce.
    pub open spec fn link_text(self) -> Seq<char> {
        "("@ + optional_string_text(self.prev) + ", "@ + decimal(self.nonce as nat) + ")"@
    }

    /// What the block's hash is taken of: the hashes of its transactions, in
    /// their order, and then the text of its pointer and nonce in UTF-8.
    pub open spec fn preimage(self) -> Seq<u8> {
        joined_digests(self.transactions) + vstd::utf8::encode_utf8(self.link_text())
    }

    /// The hash that belongs to the block's contents: the SHA-256 digest of
    /// the preimage, in upper-case hexadecimal.
    pub open spec fn digest_text(self) -> Seq<char> {
        hex_text(sha256_digest(self.preimage()), true)
    }

    /// The stored hash is the hash that belongs to the block's contents.
    pub open spec fn hash_is_current(self) -> bool {
        self.hash == Some(self.digest_text())
    }

    /// The block with the hash that belongs to its contents.
    pub open spec fn sealed(self) -> BlockView<F> {
        BlockView { hash: Some(self.digest_text()), ..self }
    }
}

impl<F> View for Block<F> {
    type V = BlockView<F>;

    open spec fn view(&self) -> BlockView<F> {
        BlockView {
            transactions: Seq::new(self.transactions@.len(), |i: int| self.transactions@[i]@),
            prev: optional_view(self.prev),
            hash: optional_view(self.hash),
            nonce: self.nonce,
        }
    }
}

impl<F> Block<F> {
    /// A block without transactions that points to `prev_hash`.  It has no
    /// hash yet.
    pub fn new(prev_hash: Option<String>) -> (r: Self)
        ensures
            r@ == (BlockView::<F> {
                transactions: Seq::empty(),
                prev: optional_view(prev_hash),
                hash: None,
                nonce: 0,
            }),
    {
        let r = Block { nonce: 0, hash: None, prev: prev_hash, transactions: Vec::new() };
        assert(r@.transactions =~= Seq::<TransactionView<F>>::empty());
        r
    }

    /// Sets the nonce and brings the hash up to date.
    pub fn set_nonce(&mut self, nonce: u128)
        ensures
            final(self)@ == (BlockView { nonce, ..old(self)@ }).sealed(),
            final(self)@.hash_is_current(),
    {
        self.nonce = nonce;
        self.update_hash();
    }

    /// The hash that belongs to the block's contents.
    pub fn calculate_hash(&self) -> (r: String)
        ensures
            r@ == self@.digest_text(),
    {
        let mut preimage: Vec<u8> = Vec::new();
        let mut i: usize = 0;
        while i < self.transactions.len()
            invariant
                i <= self.transactions.len(),
                preimage@ == joined_digests(self@.transactions.take(i as int)),
            decreases self.transactions.len() - i,
        {
            let mut digest = self.transactions[i].calculate_hash();
            preimage.append(&mut digest);
            proof {
                assert(self@.transactions.take(i + 1).drop_last() =~= self@.transactions.take(
                    i as int,
                ));
            }
            i = i + 1;
        }
        assert(self@.transactions.take(i as int) =~= self@.transactions);
        let mut text = String::new();
        text.append("(");
        push_optional_string(&mut text, &self.prev);
        text.append(", ");
        push_decimal(&mut text, self.nonce);
        text.append(")");
        proof {
            lemma_appended_five(
                Seq::empty(),
                "("@,
                optional_string_text(self@.prev),
                ", "@,
                decimal(self.nonce as nat),
                ")"@,
            );
            assert(Seq::<char>::empty() + self@.link_text() =~= self@.link_text());
        }
        let mut link = slice_to_vec(text.as_str().as_bytes());
        preimage.append(&mut link);
        let digest = sha256(preimage.as_slice());
        hex_upper(digest.as_slice())
    }

    /// Appends a transaction and brings the hash up to date.
    pub fn add_transaction(&mut self, transaction: Transaction<F>)
        ensures
            final(self)@ == (BlockView {
                transactions: old(self)@.transactions.push(transaction@),
                ..old(self)@
            }).sealed(),
            final(self)@.hash_is_current(),
    {
        self.transactions.push(transaction);
        assert(self@.transactions =~= old(self)@.transactions.push(transaction@));
        self.update_hash();
    }

    /// The number of transactions.
    pub fn get_transaction_count(&self) -> (r: usize)
        ensures
            r == self@.transactions.len(),
    {
        self.transactions.len()
    }

    /// Brings the hash up to date with the block's contents.
    pub fn update_hash(&mut self)
        ensures
            final(self)@ == old(self)@.sealed(),
            final(self)@.hash_is_current(),
    {
        self.hash = Some(self.calculate_hash());
    }

    /// Whether the hash is set and is the hash that belongs to the block's
    /// contents.
    pub fn verify_own_hash(&self) -> (r: bool)
        ensures
            r == self@.hash_is_current(),
    {
        match &self.hash {
            Some(hash) => *hash == self.calculate_hash(),
            None => false,
        }
    }
}

} // verus!
