use crate::account::{account_decoding, account_encoding, lemma_account_round_trip, Account};
use crate::block::{block_encoding, Header};
use crate::extrinsics::{transaction_encoding, SignedTransaction};
use crate::keys::{
    account_key, block_key, extrinsic_key, height_key, is_account_key,
    lemma_account_key_injective, lemma_block_key, lemma_height_keys,
};
use crate::stf::{
    account_at, apply_extrinsic, apply_extrinsics, apply_transaction, credited, debited,
    execute_block_result, execute_under_hash, put_account, to_be_credited, transaction_outcome,
};
use crate::types;
use crate::types::{Height, TransactionType};
use vstd::prelude::*;
use vstd::set::fold::{
    is_fun_commutative, lemma_finite_set_induct, lemma_fold_empty, lemma_fold_insert,
};

verus! {

/// After the record of an account was written, the store holds that account under its
/// identifier, and every other account as before.
pub proof fn lemma_account_at_put(store: Map<Seq<u8>, Seq<u8>>, account: Account, id: types::Hash)
    ensures
        account_at(put_account(store, account), id) == (if id == account.account_id {
            Some(account)
        } else {
            account_at(store, id)
        }),
{
    lemma_account_key_injective(id, account.account_id);
    lemma_account_round_trip(account, Seq::empty());
    assert(account_encoding(account) + Seq::<u8>::empty() =~= account_encoding(account));
}

/// A record that is not under the key of an account leaves every account as it is.
pub proof fn lemma_account_at_record(
    store: Map<Seq<u8>, Seq<u8>>,
    key: Seq<u8>,
    value: Seq<u8>,
    id: types::Hash,
)
    requires
        !is_account_key(key),
    ensures
        account_at(store.insert(key, value), id) == account_at(store, id),
{
    lemma_account_key_injective(id, id);
}

/// The accounts of the store are consistent: the record under the key of an identifier
/// is that of the account with this identifier.
pub open spec fn accounts_consistent(store: Map<Seq<u8>, Seq<u8>>) -> bool {
    forall|id: types::Hash|
        (#[trigger] account_at(store, id)) is Some ==> account_at(store, id).unwrap().account_id
            == id
}

/// A store that holds nothing has consistent accounts.
pub proof fn lemma_empty_is_consistent()
    ensures
        accounts_consistent(Map::<Seq<u8>, Seq<u8>>::empty()),
{
}

/// A record that is not under the key of an account leaves the accounts consistent.
pub proof fn lemma_record_keeps_consistency(
    store: Map<Seq<u8>, Seq<u8>>,
    key: Seq<u8>,
    value: Seq<u8>,
)
    requires
        accounts_consistent(store),
        !is_account_key(key),
    ensures
        accounts_consistent(store.insert(key, value)),
{
    assert forall|id: types::Hash|
        (#[trigger] account_at(store.insert(key, value), id)) is Some implies account_at(
        store.insert(key, value),
        id,
    ).unwrap().account_id == id by {
        lemma_account_at_record(store, key, value, id);
    }
}

/// Writing an account under its own identifier leaves the accounts consistent.
proof fn lemma_put_keeps_consistency(store: Map<Seq<u8>, Seq<u8>>, account: Account)
    requires
        accounts_consistent(store),
    ensures
        accounts_consistent(put_account(store, account)),
{
    assert forall|id: types::Hash|
        (#[trigger] account_at(put_account(store, account), id)) is Some implies account_at(
        put_account(store, account),
        id,
    ).unwrap().account_id == id by {
        lemma_account_at_put(store, account, id);
    }
}

/// A transaction leaves the accounts consistent.
pub proof fn lemma_transaction_keeps_consistency(store: Map<Seq<u8>, Seq<u8>>, tx: TransactionType)
    requires
        accounts_consistent(store),
    ensures
        accounts_consistent(apply_transaction(store, tx)),
{
    match tx {
        TransactionType::Transfer { from, to, amount } => {
            match (account_at(store, from), account_at(store, to)) {
                (Some(sender), Some(receiver)) => {
                    let paid = debited(sender, amount);
                    let received = credited(
                        to_be_credited(from, to, sender, receiver, amount),
                        amount,
                    );
                    lemma_put_keeps_consistency(store, paid);
                    lemma_put_keeps_consistency(put_account(store, paid), received);
                },
                _ => {},
            }
        },
        TransactionType::Mint { to, amount } => {
            match account_at(store, to) {
                Some(receiver) => {
                    lemma_put_keeps_consistency(
                        store,
                        Account {
                            account_id: receiver.account_id,
                            balance: (receiver.balance + amount) as u128,
                        },
                    );
                },
                None => {},
            }
        },
        TransactionType::Burn { from, amount } => {
            match account_at(store, from) {
                Some(sender) => {
                    lemma_put_keeps_consistency(
                        store,
                        Account {
                            account_id: sender.account_id,
                            balance: (sender.balance - amount) as u128,
                        },
                    );
                },
                None => {},
            }
        },
        TransactionType::AccountCreation { account_id, balance } => {
            lemma_put_keeps_consistency(store, Account { account_id, balance });
        },
    }
}

/// Executing extrinsics leaves the accounts consistent.
pub proof fn lemma_extrinsics_keep_consistency(
    store: Map<Seq<u8>, Seq<u8>>,
    height: Height,
    extrinsics: Seq<SignedTransaction>,
)
    requires
        accounts_consistent(store),
    ensures
        accounts_consistent(apply_extrinsics(store, height, extrinsics)),
    decreases extrinsics.len(),
{
    if extrinsics.len() > 0 {
        lemma_extrinsics_keep_consistency(store, height, extrinsics.drop_last());
        let before = apply_extrinsics(store, height, extrinsics.drop_last());
        let tx = extrinsics.last().transaction_type;
        lemma_transaction_keeps_consistency(before, tx);
        lemma_height_keys(height);
        lemma_record_keeps_consistency(
            apply_transaction(before, tx),
            extrinsic_key(height),
            transaction_encoding(tx),
        );
    }
}

/// Executing a block leaves the accounts consistent.
pub proof fn lemma_block_keeps_consistency(
    store: Map<Seq<u8>, Seq<u8>>,
    header: Header,
    extrinsics: Seq<SignedTransaction>,
)
    requires
        accounts_consistent(store),
    ensures
        accounts_consistent(execute_block_result(store, header, extrinsics)),
{
    let hash = header.hash_value();
    let height = header.block_height;
    let with_hash = store.insert(height_key(height), hash@);
    lemma_height_keys(height);
    lemma_block_key(hash, height);
    lemma_record_keeps_consistency(store, height_key(height), hash@);
    lemma_record_keeps_consistency(with_hash, block_key(hash), block_encoding(header, extrinsics));
    lemma_extrinsics_keep_consistency(
        with_hash.insert(block_key(hash), block_encoding(header, extrinsics)),
        height,
        extrinsics,
    );
}

/// Whether a transaction names the account `id`.
pub open spec fn names(tx: TransactionType, id: types::Hash) -> bool {
    match tx {
        TransactionType::Transfer { from, to, .. } => id == from || id == to,
        TransactionType::Mint { to, .. } => id == to,
        TransactionType::Burn { from, .. } => id == from,
        TransactionType::AccountCreation { account_id, .. } => id == account_id,
    }
}

/// A transaction leaves every account as it is that it does not name.
pub proof fn lemma_transaction_touches_named_accounts(
    store: Map<Seq<u8>, Seq<u8>>,
    tx: TransactionType,
    id: types::Hash,
)
    requires
        accounts_consistent(store),
        !names(tx, id),
    ensures
        account_at(apply_transaction(store, tx), id) == account_at(store, id),
{
    match tx {
        TransactionType::Transfer { from, to, amount } => {
            match (account_at(store, from), account_at(store, to)) {
                (Some(sender), Some(receiver)) => {
                    let paid = debited(sender, amount);
                    let received = credited(
                        to_be_credited(from, to, sender, receiver, amount),
                        amount,
                    );
                    lemma_account_at_put(store, paid, id);
                    lemma_account_at_put(put_account(store, paid), received, id);
                },
                _ => {},
            }
        },
        TransactionType::Mint { to, amount } => {
            match account_at(store, to) {
                Some(receiver) => {
                    lemma_account_at_put(
                        store,
                        Account {
                            account_id: receiver.account_id,
                            balance: (receiver.balance + amount) as u128,
                        },
                        id,
                    );
                },
                None => {},
            }
        },
        TransactionType::Burn { from, amount } => {
            match account_at(store, from) {
                Some(sender) => {
                    lemma_account_at_put(
                        store,
                        Account {
                            account_id: sender.account_id,
                            balance: (sender.balance - amount) as u128,
                        },
                        id,
                    );
                },
                None => {},
            }
        },
        TransactionType::AccountCreation { account_id, balance } => {
            lemma_account_at_put(store, Account { account_id, balance }, id);
        },
    }
}

/// Executing extrinsics leaves every account as it is that none of them names.
proof fn lemma_extrinsics_touch_named_accounts(
    store: Map<Seq<u8>, Seq<u8>>,
    height: Height,
    extrinsics: Seq<SignedTransaction>,
    id: types::Hash,
)
    requires
        accounts_consistent(store),
        forall|i: int|
            0 <= i < extrinsics.len() ==> !names((#[trigger] extrinsics[i]).transaction_type, id),
    ensures
        account_at(apply_extrinsics(store, height, extrinsics), id) == account_at(store, id),
    decreases extrinsics.len(),
{
    if extrinsics.len() > 0 {
        let front = extrinsics.drop_last();
        assert forall|i: int| 0 <= i < front.len() implies !names(
            (#[trigger] front[i]).transaction_type,
            id,
        ) by {
            assert(front[i] == extrinsics[i]);
        }
        lemma_extrinsics_touch_named_accounts(store, height, front, id);
        lemma_extrinsics_keep_consistency(store, height, front);
        let before = apply_extrinsics(store, height, front);
        let tx = extrinsics.last().transaction_type;
        assert(extrinsics[extrinsics.len() - 1].transaction_type == tx);
        lemma_transaction_touches_named_accounts(before, tx, id);
        lemma_height_keys(height);
        lemma_account_at_record(
            apply_transaction(before, tx),
            extrinsic_key(height),
            transaction_encoding(tx),
            id,
        );
    }
}

/// Executing a block leaves every account as it is that none of its extrinsics names.
pub proof fn lemma_block_touches_named_accounts(
    store: Map<Seq<u8>, Seq<u8>>,
    header: Header,
    extrinsics: Seq<SignedTransaction>,
    id: types::Hash,
)
    requires
        accounts_consistent(store),
        forall|i: int|
            0 <= i < extrinsics.len() ==> !names((#[trigger] extrinsics[i]).transaction_type, id),
    ensures
        account_at(execute_block_result(store, header, extrinsics), id) == account_at(store, id),
{
    let hash = header.hash_value();
    let height = header.block_height;
    let with_hash = store.insert(height_key(height), hash@);
    let with_block = with_hash.insert(block_key(hash), block_encoding(header, extrinsics));
    lemma_height_keys(height);
    lemma_block_key(hash, height);
    lemma_record_keeps_consistency(store, height_key(height), hash@);
    lemma_record_keeps_consistency(with_hash, block_key(hash), block_encoding(header, extrinsics));
    lemma_account_at_record(store, height_key(height), hash@, id);
    lemma_account_at_record(with_hash, block_key(hash), block_encoding(header, extrinsics), id);
    lemma_extrinsics_touch_named_accounts(with_block, height, extrinsics, id);
}

/// Whether a transaction creates the account `id`.
pub open spec fn creates(tx: TransactionType, id: types::Hash) -> bool {
    tx matches TransactionType::AccountCreation { account_id, .. } && account_id == id
}

/// A transaction never removes an account, and only the creation of an account adds one.
pub proof fn lemma_transaction_keeps_accounts(
    store: Map<Seq<u8>, Seq<u8>>,
    tx: TransactionType,
    id: types::Hash,
)
    requires
        accounts_consistent(store),
    ensures
        account_at(store, id) is Some ==> account_at(apply_transaction(store, tx), id) is Some,
        account_at(store, id) is None && !creates(tx, id) ==> account_at(
            apply_transaction(store, tx),
            id,
        ) is None,
{
    match tx {
        TransactionType::Transfer { from, to, amount } => {
            match (account_at(store, from), account_at(store, to)) {
                (Some(sender), Some(receiver)) => {
                    let paid = debited(sender, amount);
                    let received = credited(
                        to_be_credited(from, to, sender, receiver, amount),
                        amount,
                    );
                    lemma_account_at_put(store, paid, id);
                    lemma_account_at_put(put_account(store, paid), received, id);
                },
                _ => {},
            }
        },
        TransactionType::Mint { to, amount } => {
            match account_at(store, to) {
                Some(receiver) => {
                    lemma_account_at_put(
                        store,
                        Account {
                            account_id: receiver.account_id,
                            balance: (receiver.balance + amount) as u128,
                        },
                        id,
                    );
                },
                None => {},
            }
        },
        TransactionType::Burn { from, amount } => {
            match account_at(store, from) {
                Some(sender) => {
                    lemma_account_at_put(
                        store,
                        Account {
                            account_id: sender.account_id,
                            balance: (sender.balance - amount) as u128,
                        },
                        id,
                    );
                },
                None => {},
            }
        },
        TransactionType::AccountCreation { account_id, balance } => {
            lemma_account_at_put(store, Account { account_id, balance }, id);
        },
    }
}

/// Executing extrinsics never removes an account, and adds none that none of them
/// creates.
proof fn lemma_extrinsics_keep_accounts(
    store: Map<Seq<u8>, Seq<u8>>,
    height: Height,
    extrinsics: Seq<SignedTransaction>,
    id: types::Hash,
)
    requires
        accounts_consistent(store),
    ensures
        account_at(store, id) is Some ==> account_at(
            apply_extrinsics(store, height, extrinsics),
            id,
        ) is Some,
        account_at(store, id) is None && (forall|i: int|
            0 <= i < extrinsics.len() ==> !creates((#[trigger] extrinsics[i]).transaction_type, id))
            ==> account_at(apply_extrinsics(store, height, extrinsics), id) is None,
    decreases extrinsics.len(),
{
    if extrinsics.len() > 0 {
        let front = extrinsics.drop_last();
        lemma_extrinsics_keep_accounts(store, height, front, id);
        lemma_extrinsics_keep_consistency(store, height, front);
        let before = apply_extrinsics(store, height, front);
        let tx = extrinsics.last().transaction_type;
        lemma_transaction_keeps_accounts(before, tx, id);
        lemma_height_keys(height);
        lemma_account_at_record(
            apply_transaction(before, tx),
            extrinsic_key(height),
            transaction_encoding(tx),
            id,
        );
        if forall|i: int|
            0 <= i < extrinsics.len() ==> !creates((#[trigger] extrinsics[i]).transaction_type, id) {
            assert forall|i: int| 0 <= i < front.len() implies !creates(
                (#[trigger] front[i]).transaction_type,
                id,
            ) by {
                assert(front[i] == extrinsics[i]);
            }
            assert(extrinsics[extrinsics.len() - 1].transaction_type == tx);
        }
    }
}

/// Executing a block never removes an account, and adds none that none of its extrinsics
/// creates: accounts come into being by the creation of an account alone, and stay.
pub proof fn lemma_block_keeps_accounts(
    store: Map<Seq<u8>, Seq<u8>>,
    header: Header,
    extrinsics: Seq<SignedTransaction>,
    hash: types::Hash,
    id: types::Hash,
)
    requires
        accounts_consistent(store),
    ensures
        account_at(store, id) is Some ==> account_at(
            execute_under_hash(store, header, extrinsics, hash),
            id,
        ) is Some,
        account_at(store, id) is None && (forall|i: int|
            0 <= i < extrinsics.len() ==> !creates((#[trigger] extrinsics[i]).transaction_type, id))
            ==> account_at(execute_under_hash(store, header, extrinsics, hash), id) is None,
{
    let height = header.block_height;
    let with_hash = store.insert(height_key(height), hash@);
    let with_block = with_hash.insert(block_key(hash), block_encoding(header, extrinsics));
    lemma_height_keys(height);
    lemma_block_key(hash, height);
    lemma_record_keeps_consistency(store, height_key(height), hash@);
    lemma_record_keeps_consistency(with_hash, block_key(hash), block_encoding(header, extrinsics));
    lemma_account_at_record(store, height_key(height), hash@, id);
    lemma_account_at_record(with_hash, block_key(hash), block_encoding(header, extrinsics), id);
    lemma_extrinsics_keep_accounts(with_block, height, extrinsics, id);
}

/// Two stores hold the same accounts.
pub open spec fn same_accounts(a: Map<Seq<u8>, Seq<u8>>, b: Map<Seq<u8>, Seq<u8>>) -> bool {
    forall|id: types::Hash| account_at(a, id) == account_at(b, id)
}

/// The store after the transactions were applied one after the other, without any record
/// of a block or of an extrinsic.
pub open spec fn apply_transactions(
    store: Map<Seq<u8>, Seq<u8>>,
    extrinsics: Seq<SignedTransaction>,
) -> Map<Seq<u8>, Seq<u8>>
    decreases extrinsics.len(),
{
    if extrinsics.len() == 0 {
        store
    } else {
        apply_transaction(
            apply_transactions(store, extrinsics.drop_last()),
            extrinsics.last().transaction_type,
        )
    }
}

/// What a transaction does to the accounts depends on the accounts alone: applied to two
/// stores that hold the same accounts, it leaves them with the same accounts.
pub proof fn lemma_transaction_reads_accounts(
    a: Map<Seq<u8>, Seq<u8>>,
    b: Map<Seq<u8>, Seq<u8>>,
    tx: TransactionType,
)
    requires
        same_accounts(a, b),
    ensures
        same_accounts(apply_transaction(a, tx), apply_transaction(b, tx)),
{
    assert forall|id: types::Hash|
        account_at(apply_transaction(a, tx), id) == account_at(apply_transaction(b, tx), id) by {
        match tx {
            TransactionType::Transfer { from, to, amount } => {
                assert(account_at(a, from) == account_at(b, from));
                assert(account_at(a, to) == account_at(b, to));
                match (account_at(a, from), account_at(a, to)) {
                    (Some(sender), Some(receiver)) => {
                        let paid = debited(sender, amount);
                        let received = credited(
                            to_be_credited(from, to, sender, receiver, amount),
                            amount,
                        );
                        lemma_account_at_put(a, paid, id);
                        lemma_account_at_put(b, paid, id);
                        lemma_account_at_put(put_account(a, paid), received, id);
                        lemma_account_at_put(put_account(b, paid), received, id);
                    },
                    _ => {},
                }
            },
            TransactionType::Mint { to, amount } => {
                assert(account_at(a, to) == account_at(b, to));
                match account_at(a, to) {
                    Some(receiver) => {
                        let received = credited(receiver, amount);
                        lemma_account_at_put(a, received, id);
                        lemma_account_at_put(b, received, id);
                    },
                    None => {},
                }
            },
            TransactionType::Burn { from, amount } => {
                assert(account_at(a, from) == account_at(b, from));
                match account_at(a, from) {
                    Some(sender) => {
                        let left = Account {
                            account_id: sender.account_id,
                            balance: (sender.balance - amount) as u128,
                        };
                        lemma_account_at_put(a, left, id);
                        lemma_account_at_put(b, left, id);
                    },
                    None => {},
                }
            },
            TransactionType::AccountCreation { account_id, balance } => {
                assert(account_at(a, account_id) == account_at(b, account_id));
                lemma_account_at_put(a, Account { account_id, balance }, id);
                lemma_account_at_put(b, Account { account_id, balance }, id);
            },
        }
    }
}

/// The accounts after the extrinsics of a block were executed are the accounts after
/// their transactions were applied: the records of the extrinsics add nothing to them.
pub proof fn lemma_extrinsics_accounts(
    a: Map<Seq<u8>, Seq<u8>>,
    b: Map<Seq<u8>, Seq<u8>>,
    height: Height,
    extrinsics: Seq<SignedTransaction>,
)
    requires
        same_accounts(a, b),
    ensures
        same_accounts(apply_extrinsics(a, height, extrinsics), apply_transactions(b, extrinsics)),
    decreases extrinsics.len(),
{
    if extrinsics.len() > 0 {
        lemma_extrinsics_accounts(a, b, height, extrinsics.drop_last());
        let executed = apply_extrinsics(a, height, extrinsics.drop_last());
        let applied = apply_transactions(b, extrinsics.drop_last());
        let tx = extrinsics.last().transaction_type;
        lemma_transaction_reads_accounts(executed, applied, tx);
        lemma_height_keys(height);
        assert forall|id: types::Hash|
            account_at(apply_extrinsics(a, height, extrinsics), id) == account_at(
                apply_transactions(b, extrinsics),
                id,
            ) by {
            lemma_account_at_record(
                apply_transaction(executed, tx),
                extrinsic_key(height),
                transaction_encoding(tx),
                id,
            );
        }
    }
}

/// The accounts after a block was executed are the accounts after the transactions of
/// its extrinsics were applied one after the other: what is recorded of the block and of
/// its extrinsics adds nothing to them.
pub proof fn lemma_block_accounts(
    store: Map<Seq<u8>, Seq<u8>>,
    header: Header,
    extrinsics: Seq<SignedTransaction>,
    hash: types::Hash,
)
    ensures
        same_accounts(
            execute_under_hash(store, header, extrinsics, hash),
            apply_transactions(store, extrinsics),
        ),
{
    let height = header.block_height;
    let with_hash = store.insert(height_key(height), hash@);
    let with_block = with_hash.insert(block_key(hash), block_encoding(header, extrinsics));
    lemma_height_keys(height);
    lemma_block_key(hash, height);
    assert forall|id: types::Hash| account_at(with_block, id) == account_at(store, id) by {
        lemma_account_at_record(store, height_key(height), hash@, id);
        lemma_account_at_record(with_hash, block_key(hash), block_encoding(header, extrinsics), id);
    }
    lemma_extrinsics_accounts(with_block, store, height, extrinsics);
}

/// The funds that the record under `key` holds: the balance of the account, where the
/// record is that of an account and can be read, and nothing otherwise.
pub open spec fn balance_under(store: Map<Seq<u8>, Seq<u8>>, key: Seq<u8>) -> nat {
    if is_account_key(key) {
        match account_decoding(store[key]) {
            Some(account) => account.balance as nat,
            None => 0,
        }
    } else {
        0
    }
}

/// Adds the funds under one more key to a sum.
pub open spec fn add_balance(store: Map<Seq<u8>, Seq<u8>>) -> spec_fn(nat, Seq<u8>) -> nat {
    |sum: nat, key: Seq<u8>| sum + balance_under(store, key)
}

/// The total issuance: the sum of the balances of all the accounts that the store holds.
pub open spec fn total_issuance(store: Map<Seq<u8>, Seq<u8>>) -> nat {
    store.dom().fold(0nat, add_balance(store))
}

/// The sum over a set of keys depends on the store only through the records under
/// those keys.
proof fn lemma_sum_agrees(
    keys: Set<Seq<u8>>,
    a: Map<Seq<u8>, Seq<u8>>,
    b: Map<Seq<u8>, Seq<u8>>,
)
    requires
        keys.finite(),
        forall|key: Seq<u8>| keys.contains(key) ==> a[key] == b[key],
    ensures
        keys.fold(0nat, add_balance(a)) == keys.fold(0nat, add_balance(b)),
{
    let f = add_balance(a);
    let g = add_balance(b);
    assert(is_fun_commutative(f));
    assert(is_fun_commutative(g));
    let agree = |s: Set<Seq<u8>>|
        (forall|key: Seq<u8>| s.contains(key) ==> a[key] == b[key]) ==> s.fold(0nat, f) == s.fold(
            0nat,
            g,
        );
    assert(agree(Set::<Seq<u8>>::empty())) by {
        lemma_fold_empty(0nat, f);
        lemma_fold_empty(0nat, g);
    }
    assert forall|s: Set<Seq<u8>>, key: Seq<u8>|
        agree(s) && s.finite() && !s.contains(key) implies #[trigger] agree(s.insert(key)) by {
        if forall|k: Seq<u8>| s.insert(key).contains(k) ==> a[k] == b[k] {
            assert forall|k: Seq<u8>| s.contains(k) implies a[k] == b[k] by {
                assert(s.insert(key).contains(k));
            }
            assert(s.insert(key).contains(key));
            lemma_fold_insert(s, 0nat, f, key);
            lemma_fold_insert(s, 0nat, g, key);
        }
    }
    lemma_finite_set_induct(keys, agree);
}

/// Writing one record changes the total issuance by what the record holds after the
/// writing, less what the record under the same key held before.
pub proof fn lemma_issuance_insert(store: Map<Seq<u8>, Seq<u8>>, key: Seq<u8>, value: Seq<u8>)
    requires
        store.dom().finite(),
    ensures
        store.insert(key, value).dom().finite(),
        total_issuance(store.insert(key, value)) + (if store.contains_key(key) {
            balance_under(store, key)
        } else {
            0
        }) == total_issuance(store) + balance_under(store.insert(key, value), key),
{
    let after = store.insert(key, value);
    let rest = store.dom().remove(key);
    assert(after.dom() =~= rest.insert(key));
    assert(is_fun_commutative(add_balance(store)));
    assert(is_fun_commutative(add_balance(after)));
    lemma_fold_insert(rest, 0nat, add_balance(after), key);
    lemma_sum_agrees(rest, store, after);
    if store.contains_key(key) {
        assert(store.dom() =~= rest.insert(key));
        lemma_fold_insert(rest, 0nat, add_balance(store), key);
    } else {
        assert(store.dom() =~= rest);
    }
}

/// The effect of writing the record of an account on the total issuance, where the store
/// holds the account `before` under the same identifier.
proof fn lemma_issuance_put(store: Map<Seq<u8>, Seq<u8>>, before: Account, after: Account)
    requires
        store.dom().finite(),
        account_at(store, after.account_id) == Some(before),
    ensures
        put_account(store, after).dom().finite(),
        total_issuance(put_account(store, after)) + before.balance == total_issuance(store)
            + after.balance,
{
    lemma_account_key_injective(after.account_id, after.account_id);
    lemma_issuance_insert(store, account_key(after.account_id), account_encoding(after));
    lemma_account_at_put(store, after, after.account_id);
}

/// Recording an extrinsic leaves the accounts and the total issuance as they are.
proof fn lemma_recording(
    store: Map<Seq<u8>, Seq<u8>>,
    height: Height,
    value: Seq<u8>,
)
    requires
        store.dom().finite(),
    ensures
        store.insert(extrinsic_key(height), value).dom().finite(),
        total_issuance(store.insert(extrinsic_key(height), value)) == total_issuance(store),
        forall|id: types::Hash|
            account_at(store.insert(extrinsic_key(height), value), id) == account_at(store, id),
{
    lemma_height_keys(height);
    lemma_issuance_insert(store, extrinsic_key(height), value);
    assert forall|id: types::Hash|
        account_at(store.insert(extrinsic_key(height), value), id) == account_at(store, id) by {
        lemma_account_at_record(store, extrinsic_key(height), value, id);
    }
}

/// A transfer between two accounts, of no more than the sender has and no more than the
/// receiver can take: the sender has the amount less, the receiver has it more, every
/// other account is as before, and the total issuance is unchanged.
pub proof fn lemma_transfer(
    store: Map<Seq<u8>, Seq<u8>>,
    height: Height,
    from: types::Hash,
    to: types::Hash,
    amount: u128,
    sender_balance: u128,
    receiver_balance: u128,
)
    requires
        store.dom().finite(),
        account_at(store, from) == Some(Account { account_id: from, balance: sender_balance }),
        account_at(store, to) == Some(Account { account_id: to, balance: receiver_balance }),
        from != to,
        sender_balance >= amount,
        receiver_balance + amount <= u128::MAX,
    ensures
        ({
            let after = apply_extrinsic(
                store,
                height,
                SignedTransaction { transaction_type: TransactionType::Transfer { from, to, amount } },
            );
            &&& account_at(after, from) == Some(
                Account { account_id: from, balance: (sender_balance - amount) as u128 },
            )
            &&& account_at(after, to) == Some(
                Account { account_id: to, balance: (receiver_balance + amount) as u128 },
            )
            &&& forall|id: types::Hash|
                id != from && id != to ==> account_at(after, id) == account_at(store, id)
            &&& total_issuance(after) == total_issuance(store)
        }),
{
    let tx = TransactionType::Transfer { from, to, amount };
    let sender = Account { account_id: from, balance: sender_balance };
    let receiver = Account { account_id: to, balance: receiver_balance };
    let paid = Account { account_id: from, balance: (sender_balance - amount) as u128 };
    let received = Account { account_id: to, balance: (receiver_balance + amount) as u128 };
    let debited = put_account(store, paid);
    let settled = put_account(debited, received);
    assert(apply_transaction(store, tx) == settled);
    lemma_issuance_put(store, sender, paid);
    lemma_account_at_put(store, paid, to);
    lemma_issuance_put(debited, receiver, received);
    let after = apply_extrinsic(store, height, SignedTransaction { transaction_type: tx });
    lemma_recording(settled, height, transaction_encoding(tx));
    assert(after == settled.insert(extrinsic_key(height), transaction_encoding(tx)));
    assert forall|id: types::Hash| account_at(after, id) == (if id == to {
        Some(received)
    } else if id == from {
        Some(paid)
    } else {
        account_at(store, id)
    }) by {
        lemma_account_at_put(debited, received, id);
        lemma_account_at_put(store, paid, id);
        assert(account_at(after, id) == account_at(settled, id));
    }
}

/// A transfer from an account to itself, of no more than the account has: the account
/// has what it had, every other account is as before, and the total issuance is
/// unchanged.
pub proof fn lemma_transfer_to_self(
    store: Map<Seq<u8>, Seq<u8>>,
    height: Height,
    id: types::Hash,
    amount: u128,
    balance: u128,
)
    requires
        store.dom().finite(),
        account_at(store, id) == Some(Account { account_id: id, balance }),
        balance >= amount,
    ensures
        ({
            let after = apply_extrinsic(
                store,
                height,
                SignedTransaction {
                    transaction_type: TransactionType::Transfer { from: id, to: id, amount },
                },
            );
            &&& forall|other: types::Hash| account_at(after, other) == account_at(store, other)
            &&& total_issuance(after) == total_issuance(store)
        }),
{
    let tx = TransactionType::Transfer { from: id, to: id, amount };
    let account = Account { account_id: id, balance };
    let paid = debited(account, amount);
    let restored = credited(paid, amount);
    assert(restored == account);
    let debited_store = put_account(store, paid);
    let settled = put_account(debited_store, restored);
    assert(apply_transaction(store, tx) == settled);
    lemma_issuance_put(store, account, paid);
    lemma_account_at_put(store, paid, id);
    lemma_issuance_put(debited_store, paid, restored);
    lemma_recording(settled, height, transaction_encoding(tx));
    let after = apply_extrinsic(store, height, SignedTransaction { transaction_type: tx });
    assert(after == settled.insert(extrinsic_key(height), transaction_encoding(tx)));
    assert forall|other: types::Hash| account_at(after, other) == account_at(store, other) by {
        lemma_account_at_put(debited_store, restored, other);
        lemma_account_at_put(store, paid, other);
        assert(account_at(after, other) == account_at(settled, other));
    }
}

/// A mint on an account that the store holds, of no more than the account can take: the
/// account has the amount more, every other account is as before, and the total issuance
/// is greater by exactly the amount.
pub proof fn lemma_mint(
    store: Map<Seq<u8>, Seq<u8>>,
    height: Height,
    to: types::Hash,
    amount: u128,
    balance: u128,
)
    requires
        store.dom().finite(),
        account_at(store, to) == Some(Account { account_id: to, balance }),
        balance + amount <= u128::MAX,
    ensures
        ({
            let after = apply_extrinsic(
                store,
                height,
                SignedTransaction { transaction_type: TransactionType::Mint { to, amount } },
            );
            &&& account_at(after, to) == Some(
                Account { account_id: to, balance: (balance + amount) as u128 },
            )
            &&& forall|id: types::Hash| id != to ==> account_at(after, id) == account_at(store, id)
            &&& total_issuance(after) == total_issuance(store) + amount
        }),
{
    let tx = TransactionType::Mint { to, amount };
    let receiver = Account { account_id: to, balance };
    let received = Account { account_id: to, balance: (balance + amount) as u128 };
    let minted = put_account(store, received);
    assert(apply_transaction(store, tx) == minted);
    lemma_issuance_put(store, receiver, received);
    lemma_recording(minted, height, transaction_encoding(tx));
    let after = apply_extrinsic(store, height, SignedTransaction { transaction_type: tx });
    assert(after == minted.insert(extrinsic_key(height), transaction_encoding(tx)));
    assert forall|id: types::Hash| account_at(after, id) == (if id == to {
        Some(received)
    } else {
        account_at(store, id)
    }) by {
        lemma_account_at_put(store, received, id);
        assert(account_at(after, id) == account_at(minted, id));
    }
}

/// A burn of no more than the account has: the account has the amount less, every other
/// account is as before, and the total issuance is smaller by exactly the amount.
pub proof fn lemma_burn(
    store: Map<Seq<u8>, Seq<u8>>,
    height: Height,
    from: types::Hash,
    amount: u128,
    balance: u128,
)
    requires
        store.dom().finite(),
        account_at(store, from) == Some(Account { account_id: from, balance }),
        balance >= amount,
    ensures
        ({
            let after = apply_extrinsic(
                store,
                height,
                SignedTransaction { transaction_type: TransactionType::Burn { from, amount } },
            );
            &&& account_at(after, from) == Some(
                Account { account_id: from, balance: (balance - amount) as u128 },
            )
            &&& forall|id: types::Hash|
                id != from ==> account_at(after, id) == account_at(store, id)
            &&& total_issuance(after) + amount == total_issuance(store)
        }),
{
    let tx = TransactionType::Burn { from, amount };
    let sender = Account { account_id: from, balance };
    let left = Account { account_id: from, balance: (balance - amount) as u128 };
    let burnt = put_account(store, left);
    assert(apply_transaction(store, tx) == burnt);
    lemma_issuance_put(store, sender, left);
    lemma_recording(burnt, height, transaction_encoding(tx));
    let after = apply_extrinsic(store, height, SignedTransaction { transaction_type: tx });
    assert(after == burnt.insert(extrinsic_key(height), transaction_encoding(tx)));
    assert forall|id: types::Hash| account_at(after, id) == (if id == from {
        Some(left)
    } else {
        account_at(store, id)
    }) by {
        lemma_account_at_put(store, left, id);
        assert(account_at(after, id) == account_at(burnt, id));
    }
}

/// A burn of more than the account has does nothing: every account is as before, and so
/// is the total issuance. The balance is not brought down to zero.
pub proof fn lemma_burn_beyond_balance(
    store: Map<Seq<u8>, Seq<u8>>,
    height: Height,
    from: types::Hash,
    amount: u128,
    balance: u128,
)
    requires
        store.dom().finite(),
        account_at(store, from) == Some(Account { account_id: from, balance }),
        balance < amount,
    ensures
        apply_transaction(store, TransactionType::Burn { from, amount }) == store,
        ({
            let after = apply_extrinsic(
                store,
                height,
                SignedTransaction { transaction_type: TransactionType::Burn { from, amount } },
            );
            &&& forall|id: types::Hash| account_at(after, id) == account_at(store, id)
            &&& total_issuance(after) == total_issuance(store)
        }),
{
    let tx = TransactionType::Burn { from, amount };
    lemma_recording(store, height, transaction_encoding(tx));
}

/// By how much a transaction changes the total issuance of a store with consistent
/// accounts: a mint that is applied raises it by its amount, a burn that is applied
/// lowers it by its amount, the creation of an account raises it by the opening balance,
/// and a transfer leaves it as it is. A transaction that is skipped changes nothing.
pub open spec fn issuance_change(store: Map<Seq<u8>, Seq<u8>>, tx: TransactionType) -> int {
    if transaction_outcome(store, tx) is Err {
        0
    } else {
        match tx {
            TransactionType::Transfer { .. } => 0,
            TransactionType::Mint { amount, .. } => amount as int,
            TransactionType::Burn { amount, .. } => -(amount as int),
            TransactionType::AccountCreation { balance, .. } => balance as int,
        }
    }
}

/// The total issuance after an extrinsic was executed is the total issuance before it,
/// changed by what its transaction does to it.
pub proof fn lemma_issuance_of_extrinsic(
    store: Map<Seq<u8>, Seq<u8>>,
    height: Height,
    tx: TransactionType,
)
    requires
        store.dom().finite(),
        accounts_consistent(store),
    ensures
        apply_extrinsic(store, height, SignedTransaction { transaction_type: tx }).dom().finite(),
        total_issuance(apply_extrinsic(store, height, SignedTransaction { transaction_type: tx }))
            == total_issuance(store) + issuance_change(store, tx),
{
    let applied = apply_transaction(store, tx);
    assert(applied.dom().finite() && total_issuance(applied) == total_issuance(store)
        + issuance_change(store, tx)) by {
        if transaction_outcome(store, tx) is Ok {
            match tx {
                TransactionType::Transfer { from, to, amount } => {
                    let sender = account_at(store, from).unwrap();
                    let receiver = account_at(store, to).unwrap();
                    let paid = debited(sender, amount);
                    let received = credited(
                        to_be_credited(from, to, sender, receiver, amount),
                        amount,
                    );
                    lemma_issuance_put(store, sender, paid);
                    lemma_account_at_put(store, paid, to);
                    if from == to {
                        lemma_issuance_put(put_account(store, paid), paid, received);
                    } else {
                        lemma_issuance_put(put_account(store, paid), receiver, received);
                    }
                },
                TransactionType::Mint { to, amount } => {
                    let receiver = account_at(store, to).unwrap();
                    lemma_issuance_put(
                        store,
                        receiver,
                        Account { account_id: to, balance: (receiver.balance + amount) as u128 },
                    );
                },
                TransactionType::Burn { from, amount } => {
                    let sender = account_at(store, from).unwrap();
                    lemma_issuance_put(
                        store,
                        sender,
                        Account { account_id: from, balance: (sender.balance - amount) as u128 },
                    );
                },
                TransactionType::AccountCreation { account_id, balance } => {
                    let opened = Account { account_id, balance };
                    lemma_account_key_injective(account_id, account_id);
                    lemma_issuance_insert(store, account_key(account_id), account_encoding(opened));
                    lemma_account_at_put(store, opened, account_id);
                },
            }
        }
    }
    lemma_recording(applied, height, transaction_encoding(tx));
}

/// Whether a transaction can create funds: a mint and the creation of an account can, a
/// burn and a transfer cannot.
pub open spec fn may_issue(tx: TransactionType) -> bool {
    tx is Mint || tx is AccountCreation
}

/// Executing extrinsics none of which can create funds never raises the total issuance.
proof fn lemma_extrinsics_issue_nothing(
    store: Map<Seq<u8>, Seq<u8>>,
    height: Height,
    extrinsics: Seq<SignedTransaction>,
)
    requires
        store.dom().finite(),
        accounts_consistent(store),
        forall|i: int|
            0 <= i < extrinsics.len() ==> !may_issue((#[trigger] extrinsics[i]).transaction_type),
    ensures
        apply_extrinsics(store, height, extrinsics).dom().finite(),
        total_issuance(apply_extrinsics(store, height, extrinsics)) <= total_issuance(store),
    decreases extrinsics.len(),
{
    if extrinsics.len() > 0 {
        let front = extrinsics.drop_last();
        assert forall|i: int| 0 <= i < front.len() implies !may_issue(
            (#[trigger] front[i]).transaction_type,
        ) by {
            assert(front[i] == extrinsics[i]);
        }
        lemma_extrinsics_issue_nothing(store, height, front);
        lemma_extrinsics_keep_consistency(store, height, front);
        let tx = extrinsics.last().transaction_type;
        assert(extrinsics[extrinsics.len() - 1].transaction_type == tx);
        lemma_issuance_of_extrinsic(apply_extrinsics(store, height, front), height, tx);
    }
}

/// Executing a block none of whose extrinsics can create funds never raises the total
/// issuance.
pub proof fn lemma_block_issues_nothing(
    store: Map<Seq<u8>, Seq<u8>>,
    header: Header,
    extrinsics: Seq<SignedTransaction>,
    hash: types::Hash,
)
    requires
        store.dom().finite(),
        accounts_consistent(store),
        forall|i: int|
            0 <= i < extrinsics.len() ==> !may_issue((#[trigger] extrinsics[i]).transaction_type),
    ensures
        total_issuance(execute_under_hash(store, header, extrinsics, hash)) <= total_issuance(
            store,
        ),
{
    let height = header.block_height;
    let with_hash = store.insert(height_key(height), hash@);
    let with_block = with_hash.insert(block_key(hash), block_encoding(header, extrinsics));
    lemma_height_keys(height);
    lemma_block_key(hash, height);
    lemma_issuance_insert(store, height_key(height), hash@);
    lemma_issuance_insert(with_hash, block_key(hash), block_encoding(header, extrinsics));
    lemma_record_keeps_consistency(store, height_key(height), hash@);
    lemma_record_keeps_consistency(with_hash, block_key(hash), block_encoding(header, extrinsics));
    lemma_extrinsics_issue_nothing(with_block, height, extrinsics);
}

/// Executing extrinsics that are all transfers leaves the total issuance as it is.
proof fn lemma_transfers_keep_issuance(
    store: Map<Seq<u8>, Seq<u8>>,
    height: Height,
    extrinsics: Seq<SignedTransaction>,
)
    requires
        store.dom().finite(),
        accounts_consistent(store),
        forall|i: int|
            0 <= i < extrinsics.len() ==> (#[trigger] extrinsics[i]).transaction_type is Transfer,
    ensures
        apply_extrinsics(store, height, extrinsics).dom().finite(),
        total_issuance(apply_extrinsics(store, height, extrinsics)) == total_issuance(store),
    decreases extrinsics.len(),
{
    if extrinsics.len() > 0 {
        let front = extrinsics.drop_last();
        assert forall|i: int| 0 <= i < front.len() implies (#[trigger] front[i]).transaction_type
            is Transfer by {
            assert(front[i] == extrinsics[i]);
        }
        lemma_transfers_keep_issuance(store, height, front);
        lemma_extrinsics_keep_consistency(store, height, front);
        let tx = extrinsics.last().transaction_type;
        assert(extrinsics[extrinsics.len() - 1].transaction_type == tx);
        lemma_issuance_of_extrinsic(apply_extrinsics(store, height, front), height, tx);
    }
}

/// Executing a block whose extrinsics are all transfers, applied or skipped, between two
/// accounts or from an account to itself: the total issuance is what it was, and the
/// store holds an account under exactly the identifiers under which it held one.
pub proof fn lemma_block_of_transfers(
    store: Map<Seq<u8>, Seq<u8>>,
    header: Header,
    extrinsics: Seq<SignedTransaction>,
    hash: types::Hash,
)
    requires
        store.dom().finite(),
        accounts_consistent(store),
        forall|i: int|
            0 <= i < extrinsics.len() ==> (#[trigger] extrinsics[i]).transaction_type is Transfer,
    ensures
        total_issuance(execute_under_hash(store, header, extrinsics, hash)) == total_issuance(
            store,
        ),
        forall|id: types::Hash|
            account_at(execute_under_hash(store, header, extrinsics, hash), id) is Some
                <==> account_at(store, id) is Some,
{
    let height = header.block_height;
    let with_hash = store.insert(height_key(height), hash@);
    let with_block = with_hash.insert(block_key(hash), block_encoding(header, extrinsics));
    lemma_height_keys(height);
    lemma_block_key(hash, height);
    lemma_issuance_insert(store, height_key(height), hash@);
    lemma_issuance_insert(with_hash, block_key(hash), block_encoding(header, extrinsics));
    lemma_record_keeps_consistency(store, height_key(height), hash@);
    lemma_record_keeps_consistency(with_hash, block_key(hash), block_encoding(header, extrinsics));
    lemma_transfers_keep_issuance(with_block, height, extrinsics);
    assert forall|id: types::Hash|
        account_at(execute_under_hash(store, header, extrinsics, hash), id) is Some
            <==> account_at(store, id) is Some by {
        assert forall|i: int| 0 <= i < extrinsics.len() implies !creates(
            (#[trigger] extrinsics[i]).transaction_type,
            id,
        ) by {}
        lemma_block_keeps_accounts(store, header, extrinsics, hash, id);
    }
}

} // verus!
