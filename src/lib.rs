//! A minimal append-only ledger: hash-linked blocks of transactions that
//! mutate a table of account balances, applied all-or-nothing per block.

mod account;
mod block;
mod blockchain;
mod chain;
mod digest;
mod encoding;
mod laws;
mod traits;
mod transaction;

pub use account::{Account, AccountId, AccountType, Balance, Error, WorldState, keys_distinct, table_of};
pub use block::{Block, block_bytes, block_hash, self_consistent, tx_hashes_bytes};
pub use chain::Chain;
pub use digest::{blake2s_of, dec_of, hex_digit, hex_of};
pub use encoding::{le_bytes, lemma_le_bytes_injective, lemma_le_bytes_len, opt_str_bytes, pow256, str_bytes};
pub use traits::Hashable;
pub use transaction::{Timestamp, Transaction, TransactionData, data_bytes, tx_bytes, tx_hash, tx_step};
pub use blockchain::{Blockchain, apply_all, block_check, chain_valid, check_below};
pub use laws::{
    lemma_changed_header_changes_hash_input, lemma_distinct_intents_distinct_hash_input,
    lemma_forged_hash_detected, lemma_last_hash_after_append, lemma_no_last_hash_when_empty, same_intent,
    same_link,
};
