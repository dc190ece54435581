//! Blocks: ordered batches of transactions that carry their own hash and a
//! link to the hash of the block before them.
use vstd::prelude::*;
use vstd::utf8::encode_utf8;
use vstd::string::StringSliceAdditionalSpecFns;
use crate::digest::{blake2s, blake2s_of, hex_encode, hex_of};
use crate::encoding::{le_bytes, opt_str_bytes, push_all, push_le, push_opt_str};
use crate::traits::Hashable;
use crate::transaction::{Transaction, tx_hash};

verus! {

#[derive(Clone, Debug)]
pub struct Block {
    pub nonce: u128,
    pub hash: Option<crate::traits::Hash>,
    pub prev_hash: Option<crate::traits::Hash>,
    pub transactions: Vec<Transaction>,
}

/// The UTF-8 bytes of each transaction's hash, in order.
pub open spec fn tx_hashes_bytes(txs: Seq<Transaction>) -> Seq<u8>
    decreases txs.len(),
{
    if txs.len() == 0 {
        Seq::empty()
    } else {
        tx_hashes_bytes(txs.drop_last()) + encode_utf8(tx_hash(txs.last()))
    }
}

/// The bytes a block's hash is taken over: the previous hash, the nonce, then
/// the hashes of the transactions.
pub open spec fn block_bytes(prev_hash: Option<String>, nonce: u128, txs: Seq<Transaction>) -> Seq<u8> {
    opt_str_bytes(prev_hash) + le_bytes(nonce as nat, 16) + tx_hashes_bytes(txs)
}

/// The hash recomputed from a block's content (its stored hash aside).
pub open spec fn block_hash(b: Block) -> Seq<char> {
    hex_of(blake2s_of(block_bytes(b.prev_hash, b.nonce, b.transactions@)))
}

/// The stored hash is set and equals the recomputed one.
pub open spec fn self_consistent(b: Block) -> bool {
    b.hash is Some && b.hash->Some_0@ == block_hash(b)
}

impl Block {
    /// An empty block with nonce zero whose hash is set.
    pub fn new(prev_hash: Option<crate::traits::Hash>) -> (r: Block)
        ensures
            r.prev_hash == prev_hash,
            r.nonce == 0,
            r.transactions@ == Seq::<Transaction>::empty(),
            self_consistent(r),
    {
        let mut block = Block { nonce: 0, hash: None, prev_hash, transactions: Vec::new() };
        block.update_hash();
        block
    }

    /// Whether the stored hash matches the block's current content.
    pub fn verify(&self) -> (r: bool)
        ensures
            r == self_consistent(*self),
    {
        let fresh = self.hash();
        match &self.hash {
            Some(h) => *h == fresh,
            None => false,
        }
    }

    pub fn set_nonce(&mut self, nonce: u128)
        ensures
            final(self).nonce == nonce,
            final(self).prev_hash == old(self).prev_hash,
            final(self).transactions@ == old(self).transactions@,
            self_consistent(*final(self)),
    {
        self.nonce = nonce;
        self.update_hash();
    }

    pub fn add_transaction(&mut self, transaction: Transaction)
        ensures
            final(self).nonce == old(self).nonce,
            final(self).prev_hash == old(self).prev_hash,
            final(self).transactions@ == old(self).transactions@.push(transaction),
            self_consistent(*final(self)),
    {
        self.transactions.push(transaction);
        self.update_hash();
    }

    fn update_hash(&mut self)
        ensures
            final(self).nonce == old(self).nonce,
            final(self).prev_hash == old(self).prev_hash,
            final(self).transactions@ == old(self).transactions@,
            self_consistent(*final(self)),
    {
        self.hash = Some(self.hash());
    }

    /// The canonical bytes of the hashed content.
    pub fn to_bytes(&self) -> (r: Vec<u8>)
        ensures
            r@ == block_bytes(self.prev_hash, self.nonce, self.transactions@),
    {
        let mut out: Vec<u8> = Vec::new();
        push_opt_str(&mut out, &self.prev_hash);
        push_le(&mut out, self.nonce, 16);
        let ghost head = out@;
        let txs = &self.transactions;
        let mut i: usize = 0;
        while i < txs.len()
            invariant
                i <= txs@.len(),
                out@ == head + tx_hashes_bytes(txs@.subrange(0, i as int)),
            decreases txs@.len() - i,
        {
            let h = txs[i].hash();
            push_all(&mut out, h.as_str().as_bytes());
            assert(txs@.subrange(0, i + 1).drop_last() =~= txs@.subrange(0, i as int));
            assert(out@ =~= head + tx_hashes_bytes(txs@.subrange(0, i + 1)));
            i = i + 1;
        }
        assert(txs@.subrange(0, txs@.len() as int) =~= txs@);
        assert(out@ =~= block_bytes(self.prev_hash, self.nonce, self.transactions@));
        out
    }
}

impl Hashable for Block {
    open spec fn content_hash(&self) -> Seq<char> {
        block_hash(*self)
    }

    fn hash(&self) -> (r: crate::traits::Hash) {
        let bytes = self.to_bytes();
        let digest = blake2s(&bytes);
        hex_encode(&digest)
    }
}

} // verus!
