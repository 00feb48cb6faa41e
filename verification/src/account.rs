use crate::codec::{hash_of, lemma_hash_of_view, Decode, Encode};
use crate::types;
use crate::types::{Funds, StorageError};
use vstd::bytes::{
    lemma_auto_spec_u128_to_from_le_bytes, spec_u128_from_le_bytes, spec_u128_to_le_bytes,
};
use vstd::prelude::*;
use vstd::slice::slice_subrange;

verus! {

/// An account of the ledger: its identifier and what it holds.
#[derive(Debug, Copy, Clone, PartialEq, Eq)]
pub struct Account {
    pub account_id: types::Hash,
    pub balance: Funds,
}

/// The bytes that stand for an account: the 32 bytes of the identifier, then the balance
/// in sixteen bytes, least significant first.
pub open spec fn account_encoding(account: Account) -> Seq<u8> {
    account.account_id@ + spec_u128_to_le_bytes(account.balance)
}

/// The account that `bytes` start with, if they are long enough to hold one.
pub open spec fn account_decoding(bytes: Seq<u8>) -> Option<Account> {
    if bytes.len() >= 48 {
        Some(
            Account {
                account_id: hash_of(bytes.subrange(0, 32)),
                balance: spec_u128_from_le_bytes(bytes.subrange(32, 48)),
            },
        )
    } else {
        None
    }
}

/// An account is read back from its encoding, whatever follows the encoding.
pub proof fn lemma_account_round_trip(account: Account, rest: Seq<u8>)
    ensures
        account_decoding(account_encoding(account) + rest) == Some(account),
{
    lemma_auto_spec_u128_to_from_le_bytes();
    let bytes = account_encoding(account) + rest;
    assert(bytes.subrange(0, 32) =~= account.account_id@);
    assert(bytes.subrange(32, 48) =~= spec_u128_to_le_bytes(account.balance));
    lemma_hash_of_view(account.account_id);
}

impl Encode for Account {
    open spec fn encoding(&self) -> Seq<u8> {
        account_encoding(*self)
    }

    fn encode(&self) -> (r: Result<Vec<u8>, StorageError>) {
        let mut bytes = match self.account_id.encode() {
            Ok(b) => b,
            Err(e) => { return Err(e); },
        };
        let mut balance = match self.balance.encode() {
            Ok(b) => b,
            Err(e) => { return Err(e); },
        };
        bytes.append(&mut balance);
        Ok(bytes)
    }
}

impl Decode for Account {
    open spec fn decoding(bytes: Seq<u8>) -> Option<Account> {
        account_decoding(bytes)
    }

    fn decode(bytes: &[u8]) -> (r: Result<Account, StorageError>) {
        let account_id = match <types::Hash as Decode>::decode(bytes) {
            Ok(id) => id,
            Err(e) => { return Err(e); },
        };
        let rest = slice_subrange(bytes, 32, bytes.len());
        let balance = match <u128 as Decode>::decode(rest) {
            Ok(b) => b,
            Err(e) => { return Err(e); },
        };
        assert(rest@.subrange(0, 16) == bytes@.subrange(32, 48));
        Ok(Account { account_id, balance })
    }
}

} // verus!
