use crate::codec::{hash_of, lemma_hash_of_view, Decode, Encode};
use crate::types;
use crate::types::{StorageError, TransactionType};
use vstd::bytes::{
    lemma_auto_spec_u128_to_from_le_bytes, lemma_auto_spec_u32_to_from_le_bytes,
    spec_u128_from_le_bytes, spec_u128_to_le_bytes, spec_u32_from_le_bytes, spec_u32_to_le_bytes,
};
use vstd::prelude::*;
use vstd::slice::slice_subrange;

verus! {

impl TransactionType {
    /// The number that tells the kinds of transaction apart in the encoding.
    pub open spec fn index(&self) -> u32 {
        match self {
            TransactionType::Transfer { .. } => 0,
            TransactionType::Mint { .. } => 1,
            TransactionType::Burn { .. } => 2,
            TransactionType::AccountCreation { .. } => 3,
        }
    }

    /// The fields of the transaction, each encoded, in the order of their declaration.
    pub open spec fn fields_encoding(&self) -> Seq<u8> {
        match self {
            TransactionType::Transfer { from, to, amount } => from@ + to@ + spec_u128_to_le_bytes(
                *amount,
            ),
            TransactionType::Mint { to, amount } => to@ + spec_u128_to_le_bytes(*amount),
            TransactionType::Burn { from, amount } => from@ + spec_u128_to_le_bytes(*amount),
            TransactionType::AccountCreation { account_id, balance } => account_id@
                + spec_u128_to_le_bytes(*balance),
        }
    }
}

/// The bytes that stand for a transaction: the index of its kind in four bytes, least
/// significant first, then its fields.
pub open spec fn transaction_encoding(tx: TransactionType) -> Seq<u8> {
    spec_u32_to_le_bytes(tx.index()) + tx.fields_encoding()
}

impl Encode for TransactionType {
    open spec fn encoding(&self) -> Seq<u8> {
        transaction_encoding(*self)
    }

    fn encode(&self) -> (r: Result<Vec<u8>, StorageError>) {
        let index: u32 = match self {
            TransactionType::Transfer { .. } => 0,
            TransactionType::Mint { .. } => 1,
            TransactionType::Burn { .. } => 2,
            TransactionType::AccountCreation { .. } => 3,
        };
        let mut bytes = match index.encode() {
            Ok(b) => b,
            Err(e) => { return Err(e); },
        };
        let (first, amount) = match self {
            TransactionType::Transfer { from, to, amount } => {
                let mut sender = match from.encode() {
                    Ok(b) => b,
                    Err(e) => { return Err(e); },
                };
                bytes.append(&mut sender);
                (*to, *amount)
            },
            TransactionType::Mint { to, amount } => (*to, *amount),
            TransactionType::Burn { from, amount } => (*from, *amount),
            TransactionType::AccountCreation { account_id, balance } => (*account_id, *balance),
        };
        let mut id = match first.encode() {
            Ok(b) => b,
            Err(e) => { return Err(e); },
        };
        bytes.append(&mut id);
        let mut funds = match amount.encode() {
            Ok(b) => b,
            Err(e) => { return Err(e); },
        };
        bytes.append(&mut funds);
        assert(bytes@ =~= self.encoding());
        Ok(bytes)
    }
}

/// The number of bytes that the encoding of a transaction takes.
pub open spec fn transaction_length(tx: TransactionType) -> nat {
    if tx is Transfer {
        84
    } else {
        52
    }
}

/// The transaction that `bytes` start with, if they start with one: the index of a kind,
/// and then enough bytes for the fields of that kind.
pub open spec fn transaction_decoding(bytes: Seq<u8>) -> Option<TransactionType> {
    if bytes.len() < 4 {
        None
    } else {
        let index = spec_u32_from_le_bytes(bytes.subrange(0, 4));
        if index == 0 && bytes.len() >= 84 {
            Some(
                TransactionType::Transfer {
                    from: hash_of(bytes.subrange(4, 36)),
                    to: hash_of(bytes.subrange(36, 68)),
                    amount: spec_u128_from_le_bytes(bytes.subrange(68, 84)),
                },
            )
        } else if 1 <= index <= 3 && bytes.len() >= 52 {
            let id = hash_of(bytes.subrange(4, 36));
            let funds = spec_u128_from_le_bytes(bytes.subrange(36, 52));
            if index == 1 {
                Some(TransactionType::Mint { to: id, amount: funds })
            } else if index == 2 {
                Some(TransactionType::Burn { from: id, amount: funds })
            } else {
                Some(TransactionType::AccountCreation { account_id: id, balance: funds })
            }
        } else {
            None
        }
    }
}

/// A transaction is read back from its encoding, whatever follows the encoding.
pub proof fn lemma_transaction_round_trip(tx: TransactionType, rest: Seq<u8>)
    ensures
        transaction_encoding(tx).len() == transaction_length(tx),
        transaction_decoding(transaction_encoding(tx) + rest) == Some(tx),
{
    lemma_auto_spec_u32_to_from_le_bytes();
    lemma_auto_spec_u128_to_from_le_bytes();
    let bytes = transaction_encoding(tx) + rest;
    assert(spec_u32_to_le_bytes(tx.index()).len() == 4);
    assert(bytes.subrange(0, 4) =~= spec_u32_to_le_bytes(tx.index()));
    match tx {
        TransactionType::Transfer { from, to, amount } => {
            assert(bytes.subrange(4, 36) =~= from@);
            assert(bytes.subrange(36, 68) =~= to@);
            assert(bytes.subrange(68, 84) =~= spec_u128_to_le_bytes(amount));
            lemma_hash_of_view(from);
            lemma_hash_of_view(to);
        },
        TransactionType::Mint { to, amount } => {
            assert(bytes.subrange(4, 36) =~= to@);
            assert(bytes.subrange(36, 52) =~= spec_u128_to_le_bytes(amount));
            lemma_hash_of_view(to);
        },
        TransactionType::Burn { from, amount } => {
            assert(bytes.subrange(4, 36) =~= from@);
            assert(bytes.subrange(36, 52) =~= spec_u128_to_le_bytes(amount));
            lemma_hash_of_view(from);
        },
        TransactionType::AccountCreation { account_id, balance } => {
            assert(bytes.subrange(4, 36) =~= account_id@);
            assert(bytes.subrange(36, 52) =~= spec_u128_to_le_bytes(balance));
            lemma_hash_of_view(account_id);
        },
    }
}

impl Decode for TransactionType {
    open spec fn decoding(bytes: Seq<u8>) -> Option<TransactionType> {
        transaction_decoding(bytes)
    }

    fn decode(bytes: &[u8]) -> (r: Result<TransactionType, StorageError>) {
        let index = match <u32 as Decode>::decode(bytes) {
            Ok(index) => index,
            Err(e) => { return Err(e); },
        };
        if index > 3 {
            return Err(StorageError::DeserializationError("unknown kind of transaction".to_owned()));
        }
        let fields = slice_subrange(bytes, 4, bytes.len());
        let first = match <types::Hash as Decode>::decode(fields) {
            Ok(id) => id,
            Err(e) => { return Err(e); },
        };
        let after = slice_subrange(fields, 32, fields.len());
        assert(fields@.subrange(0, 32) == bytes@.subrange(4, 36));
        if index == 0 {
            let second = match <types::Hash as Decode>::decode(after) {
                Ok(id) => id,
                Err(e) => { return Err(e); },
            };
            let tail = slice_subrange(after, 32, after.len());
            let amount = match <u128 as Decode>::decode(tail) {
                Ok(amount) => amount,
                Err(e) => { return Err(e); },
            };
            assert(after@.subrange(0, 32) == bytes@.subrange(36, 68));
            assert(tail@.subrange(0, 16) == bytes@.subrange(68, 84));
            Ok(TransactionType::Transfer { from: first, to: second, amount })
        } else {
            let funds = match <u128 as Decode>::decode(after) {
                Ok(funds) => funds,
                Err(e) => { return Err(e); },
            };
            assert(after@.subrange(0, 16) == bytes@.subrange(36, 52));
            if index == 1 {
                Ok(TransactionType::Mint { to: first, amount: funds })
            } else if index == 2 {
                Ok(TransactionType::Burn { from: first, amount: funds })
            } else {
                Ok(TransactionType::AccountCreation { account_id: first, balance: funds })
            }
        }
    }
}

/// A transaction as it travels through the pool and into a block.
#[derive(Debug, Copy, Clone, PartialEq, Eq)]
pub struct SignedTransaction {
    pub transaction_type: TransactionType,
}

impl SignedTransaction {
    /// The signed transaction that holds `transaction_type`.
    pub fn new(transaction_type: TransactionType) -> (tx: Self)
        ensures
            tx.transaction_type == transaction_type,
    {
        SignedTransaction { transaction_type }
    }

    /// The weight of the transaction: that of its kind.
    pub open spec fn spec_weight(&self) -> u64 {
        self.transaction_type.spec_weight()
    }

    /// The weight of the transaction.
    #[verifier::when_used_as_spec(spec_weight)]
    pub fn weight(&self) -> (w: u64)
        ensures
            w == self.spec_weight(),
    {
        self.transaction_type.weight()
    }
}

impl Encode for SignedTransaction {
    /// A signed transaction is written as the transaction it holds.
    open spec fn encoding(&self) -> Seq<u8> {
        transaction_encoding(self.transaction_type)
    }

    fn encode(&self) -> (r: Result<Vec<u8>, StorageError>) {
        self.transaction_type.encode()
    }
}

impl Decode for SignedTransaction {
    open spec fn decoding(bytes: Seq<u8>) -> Option<SignedTransaction> {
        match transaction_decoding(bytes) {
            Some(transaction_type) => Some(SignedTransaction { transaction_type }),
            None => None,
        }
    }

    fn decode(bytes: &[u8]) -> (r: Result<SignedTransaction, StorageError>) {
        match <TransactionType as Decode>::decode(bytes) {
            Ok(transaction_type) => Ok(SignedTransaction { transaction_type }),
            Err(e) => Err(e),
        }
    }
}

} // verus!
