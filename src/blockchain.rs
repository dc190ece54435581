//! The ledger: the chain of blocks and the account table they produced.
use vstd::prelude::*;
use vstd::string::StringExecFns;
use crate::account::{Account, AccountId, Error, WorldState};
use crate::block::{Block, block_hash, self_consistent};
use crate::chain::Chain;
use crate::digest::{dec_of, decimal};
use crate::traits::Hashable;
use crate::transaction::{Transaction, tx_step};

verus! {

/// The account table after applying `txs` in order, or the first refusal.
pub open spec fn apply_all(txs: Seq<Transaction>, s: Map<Seq<char>, Account>, is_genesis: bool)
    -> Result<Map<Seq<char>, Account>, Seq<char>>
    decreases txs.len(),
{
    if txs.len() == 0 {
        Ok(s)
    } else {
        match apply_all(txs.drop_last(), s, is_genesis) {
            Ok(m) => tx_step(txs.last().data, m, is_genesis),
            Err(e) => Err(e),
        }
    }
}

proof fn lemma_apply_all_err(txs: Seq<Transaction>, s: Map<Seq<char>, Account>, g: bool, j: int)
    requires
        0 <= j <= txs.len(),
        apply_all(txs.subrange(0, j), s, g) is Err,
    ensures
        apply_all(txs, s, g) == apply_all(txs.subrange(0, j), s, g),
    decreases txs.len() - j,
{
    if j < txs.len() {
        assert(txs.subrange(0, j + 1).drop_last() =~= txs.subrange(0, j));
        lemma_apply_all_err(txs, s, g, j + 1);
    } else {
        assert(txs.subrange(0, j) =~= txs);
    }
}

/// The checks on the block at position `j` (oldest first; block number
/// `j + 1`), in the order they are made: its own hash, its link field, and
/// the link of the next newer block back to it.
pub open spec fn block_check(bs: Seq<Block>, j: int) -> Result<(), Seq<char>> {
    let n = (j + 1) as nat;
    if !self_consistent(bs[j]) {
        Err("Block "@ + dec_of(n) + " has no hash"@)
    } else if j != 0 && bs[j].prev_hash is None {
        Err("Block "@ + dec_of(n) + " doesn't have prev hash"@)
    } else if j == 0 && bs[j].prev_hash is Some {
        Err("Genesis block "@ + dec_of(n) + " should not have prev hash"@)
    } else if j + 1 < bs.len() && bs[j + 1].prev_hash is Some && bs[j + 1].prev_hash->Some_0@
        != bs[j].hash->Some_0@ {
        Err("Block "@ + dec_of(n + 1) + " prev hash doesn't match Block "@ + dec_of(n) + " hash"@)
    } else {
        Ok(())
    }
}

/// The outcome of checking the blocks below position `k`, newest first.
pub open spec fn check_below(bs: Seq<Block>, k: nat) -> Result<(), Seq<char>>
    decreases k,
{
    if k == 0 {
        Ok(())
    } else {
        match block_check(bs, k - 1) {
            Err(e) => Err(e),
            Ok(_) => check_below(bs, (k - 1) as nat),
        }
    }
}

/// Every block is self-consistent, only the oldest lacks a link, and each
/// link names the hash of the block before it.
pub open spec fn chain_valid(bs: Seq<Block>) -> bool {
    forall|j: int| 0 <= j < bs.len() ==> #[trigger] block_check(bs, j) is Ok
}

proof fn lemma_check_below(bs: Seq<Block>, k: nat)
    ensures
        check_below(bs, k) is Ok <==> forall|j: int| 0 <= j < k ==> #[trigger] block_check(bs, j) is Ok,
    decreases k,
{
    if k > 0 {
        lemma_check_below(bs, (k - 1) as nat);
    }
}

pub struct Blockchain {
    blocks: Chain<Block>,
    accounts: WorldState,
    transaction_pool: Vec<Transaction>,
}

impl Blockchain {
    /// The blocks, oldest first.
    pub closed spec fn chain(&self) -> Seq<Block> {
        self.blocks@
    }

    /// The current account table.
    pub closed spec fn state(&self) -> Map<Seq<char>, Account> {
        self.accounts@
    }

    pub closed spec fn wf(&self) -> bool {
        self.accounts.wf()
    }

    /// The recomputed hash of the newest block, if any.
    pub open spec fn last_hash(&self) -> Option<Seq<char>> {
        if self.chain().len() == 0 {
            None
        } else {
            Some(block_hash(self.chain().last()))
        }
    }

    pub fn new() -> (r: Blockchain)
        ensures
            r.wf(),
            r.chain() == Seq::<Block>::empty(),
            r.state() == Map::<Seq<char>, Account>::empty(),
    {
        Blockchain { blocks: Chain::new(), accounts: WorldState::new(), transaction_pool: Vec::new() }
    }

    pub fn len(&self) -> (r: usize)
        ensures
            r == self.chain().len(),
    {
        self.blocks.len()
    }

    /// Executes the block's transactions against the account table, all or
    /// nothing, and on success makes the block the new head.
    pub fn append_block(&mut self, block: Block) -> (r: Result<(), Error>)
        requires
            old(self).wf(),
        ensures
            final(self).wf(),
            !self_consistent(block) ==> r is Err && r->Err_0@ == "Block has invalid hash"@,
            self_consistent(block) && block.transactions@.len() == 0 ==> r is Err && r->Err_0@
                == "Block has not any transactions"@,
            self_consistent(block) && block.transactions@.len() > 0 ==> match apply_all(
                block.transactions@,
                old(self).state(),
                old(self).chain().len() == 0,
            ) {
                Ok(m) => r is Ok && final(self).state() == m && final(self).chain() == old(
                    self,
                ).chain().push(block),
                Err(e) => r is Err && r->Err_0@ == "Error during tx execution: "@ + e,
            },
            r is Err ==> final(self).state() == old(self).state() && final(self).chain() == old(
                self,
            ).chain(),
    {
        if !block.verify() {
            return Err(String::from_str("Block has invalid hash"));
        }
        let is_genesis = self.blocks.len() == 0;
        if block.transactions.len() == 0 {
            return Err(String::from_str("Block has not any transactions"));
        }
        let backup = self.accounts.snapshot();
        let ghost s0 = self.accounts@;
        let txs = &block.transactions;
        let mut i: usize = 0;
        while i < txs.len()
            invariant
                i <= txs@.len(),
                self_consistent(block),
                txs@ == block.transactions@,
                txs@.len() > 0,
                self.accounts.wf(),
                backup.wf(),
                backup@ == s0,
                s0 == old(self).state(),
                self.blocks@ == old(self).chain(),
                is_genesis == (old(self).chain().len() == 0),
                apply_all(txs@.subrange(0, i as int), s0, is_genesis) == Ok::<
                    Map<Seq<char>, Account>,
                    Seq<char>,
                >(self.accounts@),
            decreases txs@.len() - i,
        {
            let res = txs[i].execute(&mut self.accounts, is_genesis);
            assert(txs@.subrange(0, i + 1).drop_last() =~= txs@.subrange(0, i as int));
            match res {
                Err(error) => {
                    proof {
                        lemma_apply_all_err(txs@, s0, is_genesis, i + 1);
                    }
                    self.accounts = backup;
                    let msg = String::from_str("Error during tx execution: ");
                    return Err(msg.concat(error.as_str()));
                },
                Ok(()) => {},
            }
            i = i + 1;
        }
        assert(txs@.subrange(0, txs@.len() as int) =~= txs@);
        self.blocks.append(block);
        Ok(())
    }

    /// Checks the whole chain, newest block first, and reports the first
    /// inconsistency found.
    pub fn validate(&self) -> (r: Result<(), Error>)
        ensures
            r is Ok <==> chain_valid(self.chain()),
            match check_below(self.chain(), self.chain().len()) {
                Ok(_) => r is Ok,
                Err(e) => r is Err && r->Err_0@ == e,
            },
    {
        let ghost bs = self.chain();
        let len = self.blocks.len();
        let mut k: usize = len;
        while k > 0
            invariant
                k <= len,
                len == bs.len(),
                bs == self.chain(),
                check_below(bs, len as nat) == check_below(bs, k as nat),
            decreases k,
        {
            let j = k - 1;
            let block = self.blocks.get(len - 1 - j).unwrap();
            assert(*block == bs[j as int]);
            let num = decimal(j + 1);
            if !block.verify() {
                let msg = String::from_str("Block ").concat(num.as_str()).concat(" has no hash");
                proof { lemma_check_below(bs, len as nat); }
                return Err(msg);
            }
            if j != 0 && block.prev_hash.is_none() {
                let msg = String::from_str("Block ").concat(num.as_str()).concat(" doesn't have prev hash");
                proof { lemma_check_below(bs, len as nat); }
                return Err(msg);
            }
            if j == 0 && block.prev_hash.is_some() {
                let msg = String::from_str("Genesis block ").concat(num.as_str()).concat(
                    " should not have prev hash",
                );
                proof { lemma_check_below(bs, len as nat); }
                return Err(msg);
            }
            if j + 1 < len {
                let newer = self.blocks.get(len - 2 - j).unwrap();
                assert(*newer == bs[j + 1]);
                match (&newer.prev_hash, &block.hash) {
                    (Some(link), Some(own)) => {
                        if *link != *own {
                            let msg = String::from_str("Block ").concat(decimal(j + 2).as_str()).concat(
                                " prev hash doesn't match Block ",
                            ).concat(num.as_str()).concat(" hash");
                            proof { lemma_check_below(bs, len as nat); }
                            return Err(msg);
                        }
                    },
                    _ => {},
                }
            }
            assert(block_check(bs, j as int) is Ok);
            k = j;
        }
        proof { lemma_check_below(bs, len as nat); }
        Ok(())
    }

    /// The recomputed hash of the newest block, or `None` on an empty chain.
    pub fn get_last_block_hash(&self) -> (r: Option<crate::traits::Hash>)
        ensures
            r is None <==> self.last_hash() is None,
            r is Some ==> self.last_hash() == Some(r->Some_0@),
    {
        match self.blocks.head() {
            None => None,
            Some(block) => Some(block.hash()),
        }
    }

    pub fn get_account_by_id(&self, account_id: AccountId) -> (r: Option<&Account>)
        requires
            self.wf(),
        ensures
            r is Some <==> self.state().contains_key(account_id@),
            r is Some ==> *r->Some_0 == self.state()[account_id@],
    {
        self.accounts.get_account_by_id(account_id)
    }

    /// Mutable access to the account of `account_id`, if present.
    pub fn get_account_by_id_mut(&mut self, account_id: AccountId) -> (r: Option<&mut Account>)
        requires
            old(self).wf(),
        ensures
            final(self).wf(),
            final(self).chain() == old(self).chain(),
            r is Some <==> old(self).state().contains_key(account_id@),
            r is None ==> final(self).state() == old(self).state(),
            r is Some ==> *r->Some_0 == old(self).state()[account_id@],
            r is Some ==> final(self).state() == old(self).state().insert(account_id@, *final(r->Some_0)),
    {
        self.accounts.get_account_by_id_mut(account_id)
    }

    /// Mutable access to the chain of blocks, for inspection and repair; the
    /// account table is untouched.
    pub fn blocks_mut(&mut self) -> (r: &mut Chain<Block>)
        ensures
            r@ == old(self).chain(),
            final(self).chain() == final(r)@,
            final(self).state() == old(self).state(),
            old(self).wf() ==> final(self).wf(),
    {
        &mut self.blocks
    }
}

} // verus!
