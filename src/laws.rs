//! Properties that relate several operations of the ledger.
use vstd::prelude::*;
use vstd::utf8::{encode_utf8, encode_utf8_decode_utf8};
use crate::block::{Block, block_bytes, block_hash, self_consistent, tx_hashes_bytes};
use crate::blockchain::Blockchain;
use crate::encoding::{le_bytes, lemma_le_bytes_injective, lemma_le_bytes_len, opt_str_bytes, pow256};
use crate::transaction::{Transaction, TransactionData, data_bytes, tx_bytes};

verus! {

/// Two intents are the same when they are of one kind with equal identifier
/// characters and equal amounts.
pub open spec fn same_intent(d1: TransactionData, d2: TransactionData) -> bool {
    match (d1, d2) {
        (TransactionData::CreateAccount(a), TransactionData::CreateAccount(b)) => a@ == b@,
        (
            TransactionData::MintInitialSupply { to: a, amount: x },
            TransactionData::MintInitialSupply { to: b, amount: y },
        ) => a@ == b@ && x == y,
        (
            TransactionData::Transfer { to: a, amount: x },
            TransactionData::Transfer { to: b, amount: y },
        ) => a@ == b@ && x == y,
        _ => false,
    }
}

proof fn lemma_pow256_16()
    ensures
        pow256(16) == 0x1_0000_0000_0000_0000_0000_0000_0000_0000nat,
{
    reveal_with_fuel(pow256, 17);
}

proof fn lemma_utf8_injective(a: Seq<char>, b: Seq<char>)
    requires
        encode_utf8(a) == encode_utf8(b),
    ensures
        a == b,
{
    encode_utf8_decode_utf8(a);
    encode_utf8_decode_utf8(b);
}

/// Tagged amount-and-identifier tails: equal bytes give equal amounts and
/// identifiers.
proof fn lemma_amount_tail(tag: u8, x: u128, a: Seq<char>, y: u128, b: Seq<char>)
    requires
        seq![tag] + le_bytes(x as nat, 16) + encode_utf8(a) == seq![tag] + le_bytes(y as nat, 16)
            + encode_utf8(b),
    ensures
        x == y,
        a == b,
{
    let l = seq![tag] + le_bytes(x as nat, 16) + encode_utf8(a);
    let r = seq![tag] + le_bytes(y as nat, 16) + encode_utf8(b);
    lemma_le_bytes_len(x as nat, 16);
    lemma_le_bytes_len(y as nat, 16);
    assert(l.subrange(1, 17) =~= le_bytes(x as nat, 16));
    assert(r.subrange(1, 17) =~= le_bytes(y as nat, 16));
    lemma_pow256_16();
    lemma_le_bytes_injective(x as nat, y as nat, 16);
    assert(l.subrange(17, l.len() as int) =~= encode_utf8(a));
    assert(r.subrange(17, r.len() as int) =~= encode_utf8(b));
    lemma_utf8_injective(a, b);
}

/// Transactions that agree on nonce, timestamp and sender but carry different
/// intents are hashed over different bytes, so their hashes differ unless
/// BLAKE2s collides.
pub proof fn lemma_distinct_intents_distinct_hash_input(t1: Transaction, t2: Transaction)
    requires
        t1.nonce == t2.nonce,
        t1.timestamp == t2.timestamp,
        t1.from == t2.from,
        !same_intent(t1.data, t2.data),
    ensures
        tx_bytes(t1) != tx_bytes(t2),
{
    let p = le_bytes(t1.nonce as nat, 16) + le_bytes(t1.timestamp as nat, 16)
        + opt_str_bytes(t1.from);
    let d1 = data_bytes(t1.data);
    let d2 = data_bytes(t2.data);
    assert(tx_bytes(t1) == p + d1);
    assert(tx_bytes(t2) == p + d2);
    if tx_bytes(t1) == tx_bytes(t2) {
        assert((p + d1).subrange(p.len() as int, (p + d1).len() as int) =~= d1);
        assert((p + d2).subrange(p.len() as int, (p + d2).len() as int) =~= d2);
        assert(d1 == d2);
        assert(d1[0] == d2[0]);
        match (t1.data, t2.data) {
            (TransactionData::CreateAccount(a), TransactionData::CreateAccount(b)) => {
                assert(d1.subrange(1, d1.len() as int) =~= encode_utf8(a@));
                assert(d2.subrange(1, d2.len() as int) =~= encode_utf8(b@));
                lemma_utf8_injective(a@, b@);
            },
            (
                TransactionData::MintInitialSupply { to: a, amount: x },
                TransactionData::MintInitialSupply { to: b, amount: y },
            ) => {
                lemma_amount_tail(1u8, x, a@, y, b@);
            },
            (
                TransactionData::Transfer { to: a, amount: x },
                TransactionData::Transfer { to: b, amount: y },
            ) => {
                lemma_amount_tail(2u8, x, a@, y, b@);
            },
            _ => {},
        }
    }
}

/// Two previous-hash links name the same hash, or both are absent.
pub open spec fn same_link(a: Option<String>, b: Option<String>) -> bool {
    match (a, b) {
        (None, None) => true,
        (Some(x), Some(y)) => x@ == y@,
        _ => false,
    }
}

proof fn lemma_link_bytes_injective(a: Option<String>, b: Option<String>)
    requires
        opt_str_bytes(a) == opt_str_bytes(b),
        a is Some ==> encode_utf8(a->Some_0@).len() < pow256(8),
        b is Some ==> encode_utf8(b->Some_0@).len() < pow256(8),
    ensures
        same_link(a, b),
{
    let l = opt_str_bytes(a);
    assert(l[0] == opt_str_bytes(b)[0]);
    match (a, b) {
        (Some(x), Some(y)) => {
            let ex = encode_utf8(x@);
            let ey = encode_utf8(y@);
            let r = opt_str_bytes(b);
            lemma_le_bytes_len(ex.len(), 8);
            lemma_le_bytes_len(ey.len(), 8);
            assert(l.subrange(1, 9) =~= le_bytes(ex.len(), 8));
            assert(r.subrange(1, 9) =~= le_bytes(ey.len(), 8));
            lemma_le_bytes_injective(ex.len(), ey.len(), 8);
            assert(l.subrange(9, l.len() as int) =~= ex);
            assert(r.subrange(9, r.len() as int) =~= ey);
            lemma_utf8_injective(x@, y@);
        },
        _ => {},
    }
}

/// Blocks with the same transactions but another nonce or another link are
/// hashed over different bytes, so (unless BLAKE2s collides) a stored hash
/// taken before such a change no longer verifies after it.
pub proof fn lemma_changed_header_changes_hash_input(b1: Block, b2: Block)
    requires
        b1.transactions@ == b2.transactions@,
        b1.nonce != b2.nonce || !same_link(b1.prev_hash, b2.prev_hash),
        b1.prev_hash is Some ==> encode_utf8(b1.prev_hash->Some_0@).len() < pow256(8),
        b2.prev_hash is Some ==> encode_utf8(b2.prev_hash->Some_0@).len() < pow256(8),
    ensures
        block_bytes(b1.prev_hash, b1.nonce, b1.transactions@) != block_bytes(
            b2.prev_hash,
            b2.nonce,
            b2.transactions@,
        ),
{
    let l1 = opt_str_bytes(b1.prev_hash);
    let l2 = opt_str_bytes(b2.prev_hash);
    let n1 = le_bytes(b1.nonce as nat, 16);
    let n2 = le_bytes(b2.nonce as nat, 16);
    let h = tx_hashes_bytes(b1.transactions@);
    let x = block_bytes(b1.prev_hash, b1.nonce, b1.transactions@);
    let y = block_bytes(b2.prev_hash, b2.nonce, b2.transactions@);
    assert(x == l1 + n1 + h);
    assert(y == l2 + n2 + h);
    lemma_le_bytes_len(b1.nonce as nat, 16);
    lemma_le_bytes_len(b2.nonce as nat, 16);
    if x == y {
        assert(l1.len() == l2.len());
        assert(x.subrange(0, l1.len() as int) =~= l1);
        assert(y.subrange(0, l2.len() as int) =~= l2);
        lemma_link_bytes_injective(b1.prev_hash, b2.prev_hash);
        assert(x.subrange(l1.len() as int, l1.len() + 16int) =~= n1);
        assert(y.subrange(l2.len() as int, l2.len() + 16int) =~= n2);
        lemma_pow256_16();
        lemma_le_bytes_injective(b1.nonce as nat, b2.nonce as nat, 16);
    }
}

/// A block whose stored hash was replaced by any other value, its content
/// left alone, no longer verifies.
pub proof fn lemma_forged_hash_detected(b: Block, forged: Block)
    requires
        self_consistent(b),
        forged.nonce == b.nonce,
        forged.prev_hash == b.prev_hash,
        forged.transactions@ == b.transactions@,
        forged.hash is None || forged.hash->Some_0@ != b.hash->Some_0@,
    ensures
        !self_consistent(forged),
{
}

/// After a block is appended, the last block hash is the block's recomputed
/// hash, which is the hash it carries when it verified.
pub proof fn lemma_last_hash_after_append(before: Blockchain, block: Block, after: Blockchain)
    requires
        after.chain() == before.chain().push(block),
    ensures
        after.last_hash() == Some(block_hash(block)),
        self_consistent(block) ==> after.last_hash() == Some(block.hash->Some_0@),
{
}

/// An empty chain has no last block hash.
pub proof fn lemma_no_last_hash_when_empty(bc: Blockchain)
    requires
        bc.chain().len() == 0,
    ensures
        bc.last_hash() is None,
{
}

} // verus!
