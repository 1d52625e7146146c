//! Blocks: a list of transactions sealed by a digest over them and the
//! link to the previous block.
use vstd::prelude::*;

use crate::digest::{blake2s256, blake2s256_digest};
use crate::text::{
    byte_vector_to_string, bytes_as_chars, debug_quoted, decimal, decimal_string, opt_chars,
    quote_debug,
};
use crate::transaction::{transaction_digest, Transaction, TransactionView};

verus! {

/// A block of transactions, linked to the block before it by that block's hash.
#[derive(Clone, Debug)]
pub struct Block {
    pub transactions: Vec<Transaction>,
    prev_hash: Option<String>,
    hash: Option<String>,
    nonce: u128,
}

/// The abstract value of a block.
pub struct BlockView {
    pub transactions: Seq<TransactionView>,
    pub prev_hash: Option<Seq<char>>,
    pub hash: Option<Seq<char>>,
    pub nonce: u128,
}

impl View for Block {
    type V = BlockView;

    closed spec fn view(&self) -> BlockView {
        BlockView {
            transactions: self.transactions@.map_values(|t: Transaction| t@),
            prev_hash: opt_chars(self.prev_hash),
            hash: opt_chars(self.hash),
            nonce: self.nonce,
        }
    }
}

/// How `{:?}` shows an optional string.
pub open spec fn option_text(o: Option<Seq<char>>) -> Seq<char> {
    match o {
        Some(s) => "Some("@ + debug_quoted(s) + ")"@,
        None => "None"@,
    }
}

/// How `{:?}` shows the pair of a block's previous hash and nonce.
pub open spec fn link_text(prev_hash: Option<Seq<char>>, nonce: u128) -> Seq<char> {
    "("@ + option_text(prev_hash) + ", "@ + decimal(nonce as nat) + ")"@
}

/// The digests of the transactions, one after the other.
pub open spec fn concat_digests(txs: Seq<TransactionView>) -> Seq<u8>
    decreases txs.len(),
{
    if txs.len() == 0 {
        Seq::empty()
    } else {
        concat_digests(txs.drop_last()) + transaction_digest(txs.last())
    }
}

/// What a block's digest is taken of: the digests of its transactions, then
/// the UTF-8 text of its link to the previous block and its nonce.
pub open spec fn block_message(b: BlockView) -> Seq<u8> {
    concat_digests(b.transactions) + vstd::utf8::encode_utf8(link_text(b.prev_hash, b.nonce))
}

/// The BLAKE2s-256 digest of a block's message. The stored hash plays no part.
pub open spec fn block_digest(b: BlockView) -> Seq<u8> {
    blake2s256_digest(block_message(b))
}

/// The hash string of a block: its digest with each byte read as a character.
pub open spec fn hash_text(b: BlockView) -> Seq<char> {
    bytes_as_chars(block_digest(b))
}

/// The block's stored hash is set and matches its contents.
pub open spec fn sealed(b: BlockView) -> bool {
    b.hash == Some(hash_text(b))
}

/// The block with its stored hash set from its contents.
pub open spec fn seal(b: BlockView) -> BlockView {
    BlockView { hash: Some(hash_text(b)), ..b }
}

/// The block with `t` added at the end of its transactions.
pub open spec fn with_transaction(b: BlockView, t: TransactionView) -> BlockView {
    BlockView { transactions: b.transactions.push(t), ..b }
}

/// Appends `bytes` to `v`.
fn append_bytes(v: &mut Vec<u8>, bytes: &[u8])
    ensures
        final(v)@ == old(v)@ + bytes@,
{
    let n = bytes.len();
    for i in 0..n
        invariant
            n == bytes@.len(),
            v@ == old(v)@ + bytes@.take(i as int),
    {
        v.push(bytes[i]);
        assert(bytes@.take(i + 1) == bytes@.take(i as int).push(bytes@[i as int]));
    }
    assert(bytes@.take(n as int) == bytes@);
}

impl Block {
    /// An empty, unsealed block that points at `prev_hash`.
    pub fn new(prev_hash: Option<String>) -> (b: Block)
        ensures
            b@ == (BlockView {
                transactions: Seq::empty(),
                prev_hash: opt_chars(prev_hash),
                hash: None,
                nonce: 0,
            }),
    {
        let b = Block { nonce: 0, hash: None, prev_hash, transactions: Vec::new() };
        assert(b@.transactions == Seq::<TransactionView>::empty());
        b
    }

    /// `{:?}` of the pair of the previous hash and the nonce.
    fn link_debug(&self) -> (s: String)
        ensures
            s@ == link_text(self@.prev_hash, self@.nonce),
    {
        let mut s = String::new();
        s.append("(");
        match &self.prev_hash {
            Some(p) => {
                s.append("Some(");
                s.append(quote_debug(p.as_str()).as_str());
                s.append(")");
            },
            None => {
                s.append("None");
            },
        }
        s.append(", ");
        s.append(decimal_string(self.nonce).as_str());
        s.append(")");
        s
    }

    /// The 32-byte BLAKE2s-256 digest of the block's transactions and link.
    pub fn calculate_hash(&self) -> (h: Vec<u8>)
        ensures
            h@ == block_digest(self@),
            h@.len() == 32,
    {
        let mut message: Vec<u8> = Vec::new();
        let n = self.transactions.len();
        for i in 0..n
            invariant
                n == self.transactions@.len(),
                message@ == concat_digests(self@.transactions.take(i as int)),
        {
            let mut digest = self.transactions[i].calculate_hash();
            message.append(&mut digest);
            assert(self@.transactions.take(i + 1).drop_last() == self@.transactions.take(i as int));
        }
        assert(self@.transactions.take(n as int) == self@.transactions);
        let link = self.link_debug();
        append_bytes(&mut message, link.as_str().as_bytes());
        blake2s256(message.as_slice())
    }

    /// Adds a transaction at the end and seals the block again.
    pub fn add_transaction(&mut self, transaction: Transaction)
        ensures
            final(self)@ == seal(with_transaction(old(self)@, transaction@)),
    {
        self.transactions.push(transaction);
        assert(self@.transactions == old(self)@.transactions.push(transaction@));
        self.update_hash();
    }

    /// The number of transactions in the block.
    pub fn get_transaction_count(&self) -> (n: usize)
        ensures
            n == self@.transactions.len(),
    {
        self.transactions.len()
    }

    /// Sets the stored hash from the block's contents.
    pub fn update_hash(&mut self)
        ensures
            final(self)@ == seal(old(self)@),
    {
        let digest = self.calculate_hash();
        self.hash = Some(byte_vector_to_string(&digest));
    }

    /// Whether the stored hash is set and matches the block's contents.
    pub fn verify_own_hash(&self) -> (ok: bool)
        ensures
            ok == sealed(self@),
    {
        match &self.hash {
            Some(stored) => {
                let expected = byte_vector_to_string(&self.calculate_hash());
                *stored == expected
            },
            None => false,
        }
    }

    /// The transaction at position `i`.
    pub(crate) fn transaction(&self, i: usize) -> (t: &Transaction)
        requires
            i < self@.transactions.len(),
        ensures
            t@ == self@.transactions[i as int],
    {
        &self.transactions[i]
    }

    /// The stored hash, if the block has been sealed.
    pub fn hash(&self) -> (h: Option<String>)
        ensures
            opt_chars(h) == self@.hash,
    {
        self.hash.clone()
    }

    /// The hash of the block this one points at.
    pub fn prev_hash(&self) -> (h: Option<String>)
        ensures
            opt_chars(h) == self@.prev_hash,
    {
        self.prev_hash.clone()
    }
}

} // verus!
