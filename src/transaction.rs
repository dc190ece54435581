//! Transactions: immutable intents and the state transition each one makes.
use vstd::prelude::*;
use vstd::string::StringExecFns;
use vstd::string::StringSliceAdditionalSpecFns;
use vstd::utf8::encode_utf8;
use crate::account::{Account, AccountId, AccountType, Balance, Error, WorldState};
use crate::digest::{blake2s, blake2s_of, hex_encode, hex_of};
use crate::encoding::{le_bytes, opt_str_bytes, push_all, push_le, push_opt_str};
use crate::traits::Hashable;

verus! {

pub type Timestamp = u128;

#[derive(Clone, Debug)]
pub enum TransactionData {
    CreateAccount(AccountId),
    MintInitialSupply { to: AccountId, amount: Balance },
    Transfer { to: AccountId, amount: Balance },
}

#[derive(Clone, Debug)]
pub struct Transaction {
    pub nonce: u128,
    pub timestamp: Timestamp,
    pub from: Option<AccountId>,
    pub data: TransactionData,
    pub signature: Option<String>,
}

/// The canonical encoding of a transaction's intent: a tag byte, the amount
/// where there is one, then the account identifier's UTF-8 bytes.
pub open spec fn data_bytes(d: TransactionData) -> Seq<u8> {
    match d {
        TransactionData::CreateAccount(id) => seq![0u8] + encode_utf8(id@),
        TransactionData::MintInitialSupply { to, amount } => seq![1u8] + le_bytes(amount as nat, 16)
            + encode_utf8(to@),
        TransactionData::Transfer { to, amount } => seq![2u8] + le_bytes(amount as nat, 16)
            + encode_utf8(to@),
    }
}

/// The bytes a transaction's hash is taken over: nonce, timestamp, sender and
/// intent. The signature is not part of it.
pub open spec fn tx_bytes(t: Transaction) -> Seq<u8> {
    le_bytes(t.nonce as nat, 16) + le_bytes(t.timestamp as nat, 16) + opt_str_bytes(t.from)
        + data_bytes(t.data)
}

pub open spec fn tx_hash(t: Transaction) -> Seq<char> {
    hex_of(blake2s_of(tx_bytes(t)))
}

/// The effect of one transaction on an account table: the new table, or the
/// reason it is refused.
pub open spec fn tx_step(d: TransactionData, s: Map<Seq<char>, Account>, is_genesis: bool)
    -> Result<Map<Seq<char>, Account>, Seq<char>>
{
    match d {
        TransactionData::CreateAccount(id) => if s.contains_key(id@) {
            Err("Account id already exist: "@ + id@)
        } else {
            Ok(s.insert(id@, Account { account_type: AccountType::User, balance: 0 }))
        },
        TransactionData::MintInitialSupply { to, amount } => if !is_genesis {
            Err("Initial supply can only be minted in the genesis block"@)
        } else if !s.contains_key(to@) {
            Err("Invalid account"@)
        } else if s[to@].balance + amount > u128::MAX {
            Err("Balance overflow"@)
        } else {
            Ok(s.insert(to@, Account { balance: (s[to@].balance + amount) as u128, ..s[to@] }))
        },
        TransactionData::Transfer { .. } => Err("Unknown transaction"@),
    }
}

fn push_data(out: &mut Vec<u8>, d: &TransactionData)
    ensures
        final(out)@ == old(out)@ + data_bytes(*d),
{
    let ghost start = out@;
    match d {
        TransactionData::CreateAccount(id) => {
            out.push(0u8);
            push_all(out, id.as_str().as_bytes());
            assert(out@ =~= start + data_bytes(*d));
        },
        TransactionData::MintInitialSupply { to, amount } => {
            out.push(1u8);
            push_le(out, *amount, 16);
            push_all(out, to.as_str().as_bytes());
            assert(out@ =~= start + data_bytes(*d));
        },
        TransactionData::Transfer { to, amount } => {
            out.push(2u8);
            push_le(out, *amount, 16);
            push_all(out, to.as_str().as_bytes());
            assert(out@ =~= start + data_bytes(*d));
        },
    }
}

impl Transaction {
    /// An unsigned transaction with zero nonce and timestamp.
    pub fn new(data: TransactionData, from: Option<AccountId>) -> (r: Transaction)
        ensures
            r == (Transaction { nonce: 0, timestamp: 0, from, data, signature: None }),
    {
        Transaction { nonce: 0, timestamp: 0, data, from, signature: None }
    }

    /// The canonical bytes of the hashed content.
    pub fn to_bytes(&self) -> (r: Vec<u8>)
        ensures
            r@ == tx_bytes(*self),
    {
        let mut out: Vec<u8> = Vec::new();
        push_le(&mut out, self.nonce, 16);
        push_le(&mut out, self.timestamp, 16);
        push_opt_str(&mut out, &self.from);
        push_data(&mut out, &self.data);
        assert(out@ =~= tx_bytes(*self));
        out
    }

    /// Applies the transaction to `state`. On failure the state is left as it
    /// was and the error says why.
    pub fn execute(&self, state: &mut WorldState, is_genesis: bool) -> (r: Result<(), Error>)
        requires
            old(state).wf(),
        ensures
            final(state).wf(),
            match tx_step(self.data, old(state)@, is_genesis) {
                Ok(m) => r is Ok && final(state)@ == m,
                Err(e) => r is Err && r->Err_0@ == e && final(state)@ == old(state)@,
            },
    {
        match &self.data {
            TransactionData::CreateAccount(id) => state.create_account(id.clone(), AccountType::User),
            TransactionData::MintInitialSupply { to, amount } => {
                if !is_genesis {
                    return Err(String::from_str("Initial supply can only be minted in the genesis block"));
                }
                match state.get_account_by_id_mut(to.clone()) {
                    None => Err(String::from_str("Invalid account")),
                    Some(account) => match account.balance.checked_add(*amount) {
                        None => Err(String::from_str("Balance overflow")),
                        Some(balance) => {
                            account.balance = balance;
                            Ok(())
                        },
                    },
                }
            },
            TransactionData::Transfer { .. } => Err(String::from_str("Unknown transaction")),
        }
    }
}

impl Hashable for Transaction {
    open spec fn content_hash(&self) -> Seq<char> {
        tx_hash(*self)
    }

    fn hash(&self) -> (r: crate::traits::Hash) {
        let bytes = self.to_bytes();
        let digest = blake2s(&bytes);
        hex_encode(&digest)
    }
}

} // verus!
