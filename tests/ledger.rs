use blockchain::{AccountType, Block, Blockchain, Hashable, Transaction, TransactionData, WorldState};
use std::collections::hash_map::RandomState;
use std::hash::{BuildHasher, Hasher};

fn generate_account_id() -> String {
    let mut hasher = RandomState::new().build_hasher();
    hasher.write_u8(0);
    format!("account-{:016x}", hasher.finish())
}

fn append_block_with_tx(bc: &mut Blockchain, nonce: u128, txs: Vec<Transaction>) -> Result<(), String> {
    let mut block = Block::new(bc.get_last_block_hash());
    block.set_nonce(nonce);
    for tx in txs {
        block.add_transaction(tx);
    }
    bc.append_block(block)
}

fn append_block(bc: &mut Blockchain, nonce: u128) -> Result<(), String> {
    let tx = Transaction::new(TransactionData::CreateAccount(generate_account_id()), None);
    append_block_with_tx(bc, nonce, vec![tx])
}

fn create(id: &str) -> Transaction {
    Transaction::new(TransactionData::CreateAccount(id.to_string()), None)
}

fn mint(id: &str, amount: u128) -> Transaction {
    Transaction::new(TransactionData::MintInitialSupply { to: id.to_string(), amount }, None)
}

fn is_hex64(s: &str) -> bool {
    s.len() == 64 && s.chars().all(|c| c.is_ascii_digit() || ('a'..='f').contains(&c))
}

#[test]
fn test_creation() {
    let mut block = Block::new(None);
    let tx = Transaction::new(TransactionData::CreateAccount("alice".to_string()), None);
    block.set_nonce(1);
    block.add_transaction(tx);
    println!("{:?}", block);
}

#[test]
fn test_hash() {
    let mut block = Block::new(None);
    block.set_nonce(1);
    let hash1 = block.hash();

    let tx = Transaction::new(TransactionData::CreateAccount("alice".to_string()), None);
    block.transactions.push(tx);
    let hash2 = block.hash();

    assert_ne!(hash1, hash2);
}

#[test]
fn test_new() {
    let bc = Blockchain::new();
    assert_eq!(bc.get_last_block_hash(), None);
}

#[test]
fn test_append() {
    let mut bc = Blockchain::new();
    let mut block = Block::new(None);
    let tx_create_account =
        Transaction::new(TransactionData::CreateAccount(generate_account_id()), None);
    block.set_nonce(1);
    block.add_transaction(tx_create_account);

    assert!(bc.append_block(block.clone()).is_ok());

    let mut block = Block::new(None);
    let tx_create_account =
        Transaction::new(TransactionData::CreateAccount(generate_account_id()), None);
    block.set_nonce(2);
    block.add_transaction(tx_create_account);

    assert!(bc.append_block(block.clone()).is_ok());

    let hash = block.hash;
    assert_eq!(bc.get_last_block_hash(), hash);
}

#[test]
fn test_crate_genesis_block() {
    let mut bc = Blockchain::new();
    let tx_create_account =
        Transaction::new(TransactionData::CreateAccount("satoshi".to_string()), None);
    let tx_mint_initial_supply = Transaction::new(
        TransactionData::MintInitialSupply { to: "satoshi".to_string(), amount: 100_000_000 },
        None,
    );
    let mut block = Block::new(None);
    block.set_nonce(1);
    block.add_transaction(tx_create_account);
    block.add_transaction(tx_mint_initial_supply);
    assert!(bc.append_block(block).is_ok());
    let satoshi = bc.get_account_by_id("satoshi".to_string());
    assert!(satoshi.is_some());
    assert_eq!(satoshi.unwrap().balance, 100_000_000);
}

#[test]
fn test_create_account_fails() {
    let mut bc = Blockchain::new();
    let tx_create_account =
        Transaction::new(TransactionData::CreateAccount("satoshi".to_string()), None);
    let tx_mint_initial_supply = Transaction::new(
        TransactionData::MintInitialSupply { to: "satoshi".to_string(), amount: 100_000_000 },
        None,
    );
    let mut block = Block::new(None);
    block.set_nonce(1);
    block.add_transaction(tx_mint_initial_supply);
    block.add_transaction(tx_create_account);
    assert_eq!(
        bc.append_block(block).err().unwrap(),
        "Error during tx execution: Invalid account".to_string()
    );
}

#[test]
fn test_tate_rollback_works() {
    let mut bc = Blockchain::new();
    let tx_create_account =
        Transaction::new(TransactionData::CreateAccount("satoshi".to_string()), None);
    let tx_mint_initial_supply = Transaction::new(
        TransactionData::MintInitialSupply { to: "satoshi".to_string(), amount: 100_000_000 },
        None,
    );
    let mut block = Block::new(None);
    block.set_nonce(1);
    block.add_transaction(tx_create_account);
    block.add_transaction(tx_mint_initial_supply);
    let _ = bc.append_block(block);
    let mut block = Block::new(bc.get_last_block_hash());
    let tx_create_alice = Transaction::new(TransactionData::CreateAccount("alice".to_string()), None);
    let tx_create_bob = Transaction::new(TransactionData::CreateAccount("bob".to_string()), None);
    block.set_nonce(2);
    block.add_transaction(tx_create_alice);
    block.add_transaction(tx_create_bob.clone());
    block.add_transaction(tx_create_bob);
    assert!(bc.append_block(block).is_err());
    assert!(bc.get_account_by_id("satoshi".to_string()).is_some());
    assert!(bc.get_account_by_id("alice".to_string()).is_none());
    assert!(bc.get_account_by_id("bob".to_string()).is_none());
}

#[test]
fn is_validate() {
    let bc = &mut Blockchain::new();
    let tx_create_account =
        Transaction::new(TransactionData::CreateAccount("satoshi".to_string()), None);
    let tx_mint_initial_supply = Transaction::new(
        TransactionData::MintInitialSupply { to: "satoshi".to_string(), amount: 100_000_000 },
        None,
    );
    assert!(append_block_with_tx(bc, 1, vec![tx_create_account, tx_mint_initial_supply]).is_ok());

    let _ = append_block(bc, 2);
    let _ = append_block(bc, 3);

    assert!(bc.validate().is_ok());

    let block = bc.blocks_mut().get_mut(2);
    block.transactions[1].data =
        TransactionData::MintInitialSupply { to: "satoshi".to_string(), amount: 100 };

    assert!(bc.validate().is_err());
}

#[test]
fn verify_holds_after_construction_and_each_mutator() {
    let mut block = Block::new(Some("abc".to_string()));
    assert!(block.verify());
    block.set_nonce(42);
    assert!(block.verify());
    block.add_transaction(create("alice"));
    assert!(block.verify());
    block.add_transaction(mint("alice", 5));
    assert!(block.verify());
}

#[test]
fn verify_detects_direct_field_changes() {
    let mut block = Block::new(None);
    block.add_transaction(create("alice"));
    let good = block.clone();

    let mut forged = good.clone();
    forged.hash = Some("00".to_string());
    assert!(!forged.verify());

    let mut unset = good.clone();
    unset.hash = None;
    assert!(!unset.verify());

    let mut renonced = good.clone();
    renonced.nonce = 7;
    assert!(!renonced.verify());

    let mut relinked = good.clone();
    relinked.prev_hash = Some("ff".to_string());
    assert!(!relinked.verify());

    let mut retx = good.clone();
    retx.transactions[0].data = TransactionData::CreateAccount("bob".to_string());
    assert!(!retx.verify());
}

#[test]
fn stored_hash_equals_recomputed_hash() {
    let mut block = Block::new(None);
    block.set_nonce(3);
    block.add_transaction(create("alice"));
    assert_eq!(block.hash.clone(), Some(block.hash()));
    assert!(is_hex64(&block.hash()));
}

#[test]
fn transaction_hash_is_stable_and_hex() {
    let a = create("alice");
    let b = create("alice");
    assert_eq!(a.hash(), b.hash());
    assert!(is_hex64(&a.hash()));
}

#[test]
fn transaction_hash_changes_with_intent() {
    let pairs = vec![
        (create("alice"), create("bob")),
        (create("alice"), mint("alice", 0)),
        (mint("alice", 1), mint("alice", 2)),
        (mint("alice", 1), mint("bob", 1)),
        (
            mint("alice", 1),
            Transaction::new(TransactionData::Transfer { to: "alice".to_string(), amount: 1 }, None),
        ),
    ];
    for (x, y) in pairs {
        assert_ne!(x.hash(), y.hash());
    }
}

#[test]
fn transaction_hash_depends_on_sender() {
    let a = Transaction::new(TransactionData::CreateAccount("bob".to_string()), None);
    let b = Transaction::new(TransactionData::CreateAccount("bob".to_string()), Some("alice".to_string()));
    assert_ne!(a.hash(), b.hash());
}

#[test]
fn empty_block_is_refused() {
    let mut bc = Blockchain::new();
    let block = Block::new(None);
    assert_eq!(bc.append_block(block), Err("Block has not any transactions".to_string()));
    assert_eq!(bc.len(), 0);
}

#[test]
fn block_with_bad_hash_is_refused() {
    let mut bc = Blockchain::new();
    let mut block = Block::new(None);
    block.add_transaction(create("alice"));
    block.hash = Some("deadbeef".to_string());
    assert_eq!(bc.append_block(block), Err("Block has invalid hash".to_string()));

    let mut empty = Block::new(None);
    empty.hash = None;
    assert_eq!(bc.append_block(empty), Err("Block has invalid hash".to_string()));
    assert_eq!(bc.len(), 0);
}

#[test]
fn reversed_genesis_leaves_table_empty() {
    let mut bc = Blockchain::new();
    let r = append_block_with_tx(&mut bc, 1, vec![mint("satoshi", 100_000_000), create("satoshi")]);
    assert_eq!(r, Err("Error during tx execution: Invalid account".to_string()));
    assert!(bc.get_account_by_id("satoshi".to_string()).is_none());
    assert_eq!(bc.len(), 0);
    assert_eq!(bc.get_last_block_hash(), None);
}

#[test]
fn duplicate_account_rolls_back_whole_block() {
    let mut bc = Blockchain::new();
    let r = append_block_with_tx(&mut bc, 1, vec![create("alice"), create("bob"), create("bob")]);
    assert_eq!(r, Err("Error during tx execution: Account id already exist: bob".to_string()));
    assert!(bc.get_account_by_id("alice".to_string()).is_none());
    assert!(bc.get_account_by_id("bob".to_string()).is_none());
    assert_eq!(bc.len(), 0);
}

#[test]
fn mint_outside_genesis_is_refused() {
    let mut bc = Blockchain::new();
    assert!(append_block_with_tx(&mut bc, 1, vec![create("satoshi")]).is_ok());
    let r = append_block_with_tx(&mut bc, 2, vec![mint("satoshi", 5)]);
    assert_eq!(
        r,
        Err("Error during tx execution: Initial supply can only be minted in the genesis block".to_string())
    );
    assert_eq!(bc.get_account_by_id("satoshi".to_string()).unwrap().balance, 0);
    assert_eq!(bc.len(), 1);
}

#[test]
fn transfer_is_unknown() {
    let mut bc = Blockchain::new();
    let transfer = Transaction::new(TransactionData::Transfer { to: "satoshi".to_string(), amount: 1 }, None);
    let r = append_block_with_tx(&mut bc, 1, vec![create("satoshi"), transfer]);
    assert_eq!(r, Err("Error during tx execution: Unknown transaction".to_string()));
    assert!(bc.get_account_by_id("satoshi".to_string()).is_none());
}

#[test]
fn mint_overflow_is_refused() {
    let mut bc = Blockchain::new();
    let r = append_block_with_tx(&mut bc, 1, vec![create("satoshi"), mint("satoshi", u128::MAX), mint("satoshi", 1)]);
    assert_eq!(r, Err("Error during tx execution: Balance overflow".to_string()));
    assert!(bc.get_account_by_id("satoshi".to_string()).is_none());

    let r = append_block_with_tx(&mut bc, 1, vec![create("satoshi"), mint("satoshi", u128::MAX)]);
    assert!(r.is_ok());
    assert_eq!(bc.get_account_by_id("satoshi".to_string()).unwrap().balance, u128::MAX);
}

#[test]
fn mint_accumulates_in_genesis() {
    let mut bc = Blockchain::new();
    let r = append_block_with_tx(&mut bc, 1, vec![create("satoshi"), mint("satoshi", 3), mint("satoshi", 4)]);
    assert!(r.is_ok());
    let account = bc.get_account_by_id("satoshi".to_string()).unwrap();
    assert_eq!(account.balance, 7);
    assert_eq!(account.account_type, AccountType::User);
}

#[test]
fn last_block_hash_follows_every_append() {
    let mut bc = Blockchain::new();
    assert_eq!(bc.get_last_block_hash(), None);
    for nonce in 1..4u128 {
        let mut block = Block::new(bc.get_last_block_hash());
        block.set_nonce(nonce);
        block.add_transaction(create(&format!("user{}", nonce)));
        let expected = block.hash();
        assert!(bc.append_block(block).is_ok());
        assert_eq!(bc.get_last_block_hash(), Some(expected));
        assert_eq!(bc.len() as u128, nonce);
    }
    assert!(bc.validate().is_ok());
}

#[test]
fn validate_empty_chain() {
    let bc = Blockchain::new();
    assert_eq!(bc.validate(), Ok(()));
}

#[test]
fn validate_reports_tampered_block_number() {
    let mut bc = Blockchain::new();
    assert!(append_block_with_tx(&mut bc, 1, vec![create("satoshi"), mint("satoshi", 10)]).is_ok());
    assert!(append_block(&mut bc, 2).is_ok());
    assert!(append_block(&mut bc, 3).is_ok());
    bc.blocks_mut().get_mut(1).transactions[0].data = TransactionData::CreateAccount("mallory".to_string());
    assert_eq!(bc.validate(), Err("Block 2 has no hash".to_string()));
}

#[test]
fn validate_reports_broken_link() {
    let mut bc = Blockchain::new();
    assert!(append_block_with_tx(&mut bc, 1, vec![create("a")]).is_ok());
    assert!(append_block_with_tx(&mut bc, 2, vec![create("b")]).is_ok());
    let mut stray = Block::new(Some("not-a-hash".to_string()));
    stray.add_transaction(create("c"));
    assert!(bc.append_block(stray).is_ok());
    assert_eq!(bc.validate(), Err("Block 3 prev hash doesn't match Block 2 hash".to_string()));
}

#[test]
fn validate_reports_missing_link() {
    let mut bc = Blockchain::new();
    assert!(append_block_with_tx(&mut bc, 1, vec![create("a")]).is_ok());
    let mut unlinked = Block::new(None);
    unlinked.add_transaction(create("b"));
    assert!(bc.append_block(unlinked).is_ok());
    assert_eq!(bc.validate(), Err("Block 2 doesn't have prev hash".to_string()));
}

#[test]
fn validate_reports_linked_genesis() {
    let mut bc = Blockchain::new();
    let mut genesis = Block::new(Some("somewhere".to_string()));
    genesis.add_transaction(create("a"));
    assert!(bc.append_block(genesis).is_ok());
    assert_eq!(bc.validate(), Err("Genesis block 1 should not have prev hash".to_string()));
}

#[test]
fn world_state_direct_use() {
    let mut state = WorldState::new();
    assert!(state.create_account("alice".to_string(), AccountType::Contract).is_ok());
    assert_eq!(
        state.create_account("alice".to_string(), AccountType::User),
        Err("Account id already exist: alice".to_string())
    );
    assert_eq!(state.get_account_by_id("alice".to_string()).unwrap().account_type, AccountType::Contract);
    state.get_account_by_id_mut("alice".to_string()).unwrap().balance = 9;
    assert!(state.get_account_by_id_mut("bob".to_string()).is_none());
    assert_eq!(mint("bob", 1).execute(&mut state, true), Err("Invalid account".to_string()));
    let copy = state.snapshot();
    assert_eq!(copy.get_account_by_id("alice".to_string()).unwrap().balance, 9);
    assert!(mint("alice", 1).execute(&mut state, true).is_ok());
    assert_eq!(
        mint("alice", 1).execute(&mut state, false),
        Err("Initial supply can only be minted in the genesis block".to_string())
    );
    assert_eq!(state.get_account_by_id("alice".to_string()).unwrap().balance, 10);
    assert_eq!(copy.get_account_by_id("alice".to_string()).unwrap().balance, 9);
}

#[test]
fn blockchain_account_mutable_access() {
    let mut bc = Blockchain::new();
    assert!(append_block_with_tx(&mut bc, 1, vec![create("satoshi")]).is_ok());
    bc.get_account_by_id_mut("satoshi".to_string()).unwrap().balance = 12;
    assert_eq!(bc.get_account_by_id("satoshi".to_string()).unwrap().balance, 12);
    assert!(bc.get_account_by_id_mut("nobody".to_string()).is_none());
}
