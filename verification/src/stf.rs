use crate::account::{account_decoding, account_encoding, Account};
use crate::block::{
    block_decoding, block_encoding, lemma_block_round_trip, Block, BlockTrait, Header,
};
use crate::codec::{hash_of, lemma_hash_of_view, Decode, Encode};
use crate::extrinsics::{transaction_encoding, SignedTransaction};
use crate::keys::{
    account_key, block_key, extrinsic_key, height_key, is_account_key, lemma_account_key_injective,
    lemma_block_key, lemma_extrinsic_key_is_no_height_key, lemma_height_key_injective,
    lemma_height_keys,
};
use crate::plugin::{key_text, Plugin, StoragePlugin};
use crate::state::same_bytes;
use crate::types;
use crate::types::{
    Height, StfError, StorageError, StoragePrefix, TransactionError, TransactionType,
};
use vstd::prelude::*;

verus! {

/// Why a block or an account is refused before anything is written.
#[derive(Debug, Copy, Clone, PartialEq, Eq)]
pub enum ValidationError {
    /// The store already holds a record for the height of the block.
    AlreadyImported,
    /// The store holds no hash for the height below that of the block.
    MissingParent,
    /// The parent hash of the block is not the hash stored for the height below.
    ParentMismatch,
    /// The store already holds an account with this identifier.
    AccountExists,
}

impl ValidationError {
    /// The message that goes with the refusal.
    pub fn message(&self) -> (text: String)
        ensures
            text@ == (match self {
                ValidationError::AlreadyImported => "Block already exists in the state."@,
                ValidationError::MissingParent => "Parent block does not exist."@,
                ValidationError::ParentMismatch => "Parent hash is invalid for this block."@,
                ValidationError::AccountExists => "Account already exists in the state."@,
            }),
    {
        match self {
            ValidationError::AlreadyImported => "Block already exists in the state.".to_owned(),
            ValidationError::MissingParent => "Parent block does not exist.".to_owned(),
            ValidationError::ParentMismatch => "Parent hash is invalid for this block.".to_owned(),
            ValidationError::AccountExists => "Account already exists in the state.".to_owned(),
        }
    }
}

/// The account that the store holds under the identifier `id`, if it holds one that can
/// be read.
pub open spec fn account_at(store: Map<Seq<u8>, Seq<u8>>, id: types::Hash) -> Option<Account> {
    if store.contains_key(account_key(id)) {
        account_decoding(store[account_key(id)])
    } else {
        None
    }
}

/// Whether the store holds a record for the block at `height`.
pub open spec fn has_block(store: Map<Seq<u8>, Seq<u8>>, height: Height) -> bool {
    store.contains_key(height_key(height))
}

/// The hash that the store holds for the block at `height`, if it holds one that can be
/// read.
pub open spec fn block_hash_at(store: Map<Seq<u8>, Seq<u8>>, height: Height) -> Option<
    types::Hash,
> {
    if has_block(store, height) && store[height_key(height)].len() >= 32 {
        Some(hash_of(store[height_key(height)].subrange(0, 32)))
    } else {
        None
    }
}

/// The hash that the store holds for the block below `height`, if there is a height
/// below and the store holds a hash for it.
pub open spec fn parent_hash_at(store: Map<Seq<u8>, Seq<u8>>, height: Height) -> Option<
    types::Hash,
> {
    if height.0 == 0 {
        None
    } else {
        block_hash_at(store, Height((height.0 - 1) as u64))
    }
}

/// Whether a block with this header may be imported into the store, and why not: the
/// height must be new, the height below must have a hash, and that hash must be the
/// parent hash of the header. The checks are made in this order.
pub open spec fn block_validity(store: Map<Seq<u8>, Seq<u8>>, header: Header) -> Result<
    (),
    ValidationError,
> {
    if has_block(store, header.block_height) {
        Err(ValidationError::AlreadyImported)
    } else {
        match parent_hash_at(store, header.block_height) {
            None => Err(ValidationError::MissingParent),
            Some(parent) => if header.parent_hash == parent {
                Ok(())
            } else {
                Err(ValidationError::ParentMismatch)
            },
        }
    }
}

/// Whether an account may be created, and why not.
pub open spec fn account_validity(store: Map<Seq<u8>, Seq<u8>>, account: Account) -> Result<
    (),
    ValidationError,
> {
    if account_at(store, account.account_id) is Some {
        Err(ValidationError::AccountExists)
    } else {
        Ok(())
    }
}

/// The store after the record of `account` was written, in place of any record under the
/// same identifier.
pub open spec fn put_account(store: Map<Seq<u8>, Seq<u8>>, account: Account) -> Map<
    Seq<u8>,
    Seq<u8>,
> {
    store.insert(account_key(account.account_id), account_encoding(account))
}

/// `account` with `amount` taken from its balance.
pub open spec fn debited(account: Account, amount: u128) -> Account {
    Account { account_id: account.account_id, balance: (account.balance - amount) as u128 }
}

/// `account` with `amount` added to its balance.
pub open spec fn credited(account: Account, amount: u128) -> Account {
    Account { account_id: account.account_id, balance: (account.balance + amount) as u128 }
}

/// Whether `amount` can be added to the balance of `account` without leaving the range
/// of balances.
pub open spec fn can_credit(account: Account, amount: u128) -> bool {
    account.balance + amount <= u128::MAX
}

/// The account that a transfer credits, as it is when the credit is made: the receiver,
/// or, where an account transfers to itself, that account once it was debited.
pub open spec fn to_be_credited(
    from: types::Hash,
    to: types::Hash,
    sender: Account,
    receiver: Account,
    amount: u128,
) -> Account {
    if from == to {
        debited(sender, amount)
    } else {
        receiver
    }
}

/// Whether a transaction can be applied to the store, and why not.
///
/// A transfer needs both accounts, in the sender no less than the amount, and room for
/// the amount in the receiver. A mint needs the account and room for the amount. A burn
/// needs the account and in it no less than the amount. The creation of an account needs
/// the identifier to be free. The checks are made in this order.
pub open spec fn transaction_outcome(store: Map<Seq<u8>, Seq<u8>>, tx: TransactionType) -> Result<
    (),
    TransactionError,
> {
    match tx {
        TransactionType::Transfer { from, to, amount } => match account_at(store, from) {
            None => Err(TransactionError::AccountNotFound(from)),
            Some(sender) => match account_at(store, to) {
                None => Err(TransactionError::AccountNotFound(to)),
                Some(receiver) => if sender.balance < amount {
                    Err(
                        TransactionError::InsufficientBalance {
                            account_id: from,
                            balance: sender.balance,
                            amount,
                        },
                    )
                } else if !can_credit(to_be_credited(from, to, sender, receiver, amount), amount) {
                    Err(
                        TransactionError::BalanceOverflow {
                            account_id: to,
                            balance: receiver.balance,
                            amount,
                        },
                    )
                } else {
                    Ok(())
                },
            },
        },
        TransactionType::Mint { to, amount } => match account_at(store, to) {
            None => Err(TransactionError::AccountNotFound(to)),
            Some(receiver) => if can_credit(receiver, amount) {
                Ok(())
            } else {
                Err(
                    TransactionError::BalanceOverflow {
                        account_id: to,
                        balance: receiver.balance,
                        amount,
                    },
                )
            },
        },
        TransactionType::Burn { from, amount } => match account_at(store, from) {
            None => Err(TransactionError::AccountNotFound(from)),
            Some(sender) => if sender.balance >= amount {
                Ok(())
            } else {
                Err(
                    TransactionError::InsufficientBalance {
                        account_id: from,
                        balance: sender.balance,
                        amount,
                    },
                )
            },
        },
        TransactionType::AccountCreation { account_id, .. } => if account_at(store, account_id)
            is Some {
            Err(TransactionError::AccountExists(account_id))
        } else {
            Ok(())
        },
    }
}

/// The store after a transaction that can be applied was applied.
///
/// A transfer writes the sender with the amount less, and then the receiver with the
/// amount more. Where an account transfers to itself, debit and credit fall on the same
/// record, which is written with the balance that it had.
pub open spec fn applied(store: Map<Seq<u8>, Seq<u8>>, tx: TransactionType) -> Map<
    Seq<u8>,
    Seq<u8>,
> {
    match tx {
        TransactionType::Transfer { from, to, amount } => {
            let sender = account_at(store, from).unwrap();
            let receiver = account_at(store, to).unwrap();
            put_account(
                put_account(store, debited(sender, amount)),
                credited(to_be_credited(from, to, sender, receiver, amount), amount),
            )
        },
        TransactionType::Mint { to, amount } => put_account(
            store,
            credited(account_at(store, to).unwrap(), amount),
        ),
        TransactionType::Burn { from, amount } => put_account(
            store,
            debited(account_at(store, from).unwrap(), amount),
        ),
        TransactionType::AccountCreation { account_id, balance } => put_account(
            store,
            Account { account_id, balance },
        ),
    }
}

/// What a transaction does to the accounts of the store: it is applied if it can be, and
/// does nothing otherwise.
pub open spec fn apply_transaction(store: Map<Seq<u8>, Seq<u8>>, tx: TransactionType) -> Map<
    Seq<u8>,
    Seq<u8>,
> {
    if transaction_outcome(store, tx) is Ok {
        applied(store, tx)
    } else {
        store
    }
}

/// The store after one extrinsic of the block at `height` was executed: the transaction is
/// applied, and then the extrinsic is recorded under the height, whether or not it did
/// anything.
pub open spec fn apply_extrinsic(
    store: Map<Seq<u8>, Seq<u8>>,
    height: Height,
    extrinsic: SignedTransaction,
) -> Map<Seq<u8>, Seq<u8>> {
    apply_transaction(store, extrinsic.transaction_type).insert(
        extrinsic_key(height),
        transaction_encoding(extrinsic.transaction_type),
    )
}

/// The store after the extrinsics were executed one after the other.
pub open spec fn apply_extrinsics(
    store: Map<Seq<u8>, Seq<u8>>,
    height: Height,
    extrinsics: Seq<SignedTransaction>,
) -> Map<Seq<u8>, Seq<u8>>
    decreases extrinsics.len(),
{
    if extrinsics.len() == 0 {
        store
    } else {
        apply_extrinsic(
            apply_extrinsics(store, height, extrinsics.drop_last()),
            height,
            extrinsics.last(),
        )
    }
}

/// The store after a block was executed under the hash `hash`: the hash is recorded under
/// the height of the block, the block under the hash, and then the extrinsics of the
/// block are executed in order.
pub open spec fn execute_under_hash(
    store: Map<Seq<u8>, Seq<u8>>,
    header: Header,
    extrinsics: Seq<SignedTransaction>,
    hash: types::Hash,
) -> Map<Seq<u8>, Seq<u8>> {
    let with_hash = store.insert(height_key(header.block_height), hash@);
    let with_block = with_hash.insert(block_key(hash), block_encoding(header, extrinsics));
    apply_extrinsics(with_block, header.block_height, extrinsics)
}

/// The store after a block was executed: the block is executed under its own hash.
pub open spec fn execute_block_result(
    store: Map<Seq<u8>, Seq<u8>>,
    header: Header,
    extrinsics: Seq<SignedTransaction>,
) -> Map<Seq<u8>, Seq<u8>> {
    execute_under_hash(store, header, extrinsics, header.hash_value())
}

/// The state transition function: what validates blocks and applies them to a store.
pub trait Stf {
    /// The store that the function works on.
    spec fn store(&self) -> Map<Seq<u8>, Seq<u8>>;

    /// Says whether `block` may be imported. Nothing is written.
    fn validate_block(&mut self, block: Block) -> (r: Result<(), ValidationError>)
        ensures
            final(self).store() == old(self).store(),
            r == block_validity(old(self).store(), block.header),
    ;

    /// Records `block` and executes its extrinsics. Nothing is checked: records of a block
    /// executed before at this height are overwritten. This always succeeds.
    fn execute_block(&mut self, block: Block) -> (r: Result<(), StfError>)
        ensures
            r is Ok,
            final(self).store() == execute_block_result(
                old(self).store(),
                block.header,
                block.extrinsics@,
            ),
    ;

    /// Says whether `account` may be created. Nothing is written.
    fn validate_account(&mut self, account: Account) -> (r: Result<(), ValidationError>)
        ensures
            final(self).store() == old(self).store(),
            r == account_validity(old(self).store(), account),
    ;

    /// The hash recorded for the block at `block_height`: `KeyNotFound` with the text of
    /// the key where there is no record, `DeserializationError` where the record does not
    /// hold a hash.
    fn get_block_hash(&self, block_height: Height) -> (r: Result<types::Hash, StorageError>)
        ensures
            match r {
                Ok(hash) => block_hash_at(self.store(), block_height) == Some(hash),
                Err(StorageError::KeyNotFound(text)) => !has_block(self.store(), block_height)
                    && text@ == key_text(height_key(block_height)),
                Err(StorageError::DeserializationError(_)) => has_block(
                    self.store(),
                    block_height,
                ) && block_hash_at(self.store(), block_height) is None,
                Err(_) => false,
            },
    ;

    /// The account recorded under `account_id`: `KeyNotFound` with the text of the key
    /// where there is no record, `DeserializationError` where the record does not hold an
    /// account.
    fn get_account(&self, account_id: types::Hash) -> (r: Result<Account, StorageError>)
        ensures
            match r {
                Ok(account) => account_at(self.store(), account_id) == Some(account),
                Err(StorageError::KeyNotFound(text)) => !self.store().contains_key(
                    account_key(account_id),
                ) && text@ == key_text(account_key(account_id)),
                Err(StorageError::DeserializationError(_)) => self.store().contains_key(
                    account_key(account_id),
                ) && account_at(self.store(), account_id) is None,
                Err(_) => false,
            },
    ;
}

/// The state transition function over the storage engine.
pub struct SimpleStf {
    plugin: Plugin,
}

impl View for SimpleStf {
    type V = Map<Seq<u8>, Seq<u8>>;

    closed spec fn view(&self) -> Map<Seq<u8>, Seq<u8>> {
        self.plugin@
    }
}

impl SimpleStf {
    /// The state transition function over the store of `plugin`.
    pub fn new(plugin: Plugin) -> (stf: Self)
        ensures
            stf@ == plugin@,
    {
        SimpleStf { plugin }
    }

    /// The block recorded under the hash `hash`: `KeyNotFound` with the text of the key
    /// where there is no record, `DeserializationError` where the record does not hold a
    /// block.
    pub fn get_block(&self, hash: types::Hash) -> (r: Result<Block, StorageError>)
        ensures
            if self@.contains_key(block_key(hash)) {
                match block_decoding(self@[block_key(hash)]) {
                    Some((header, extrinsics)) => r matches Ok(block) && block.header == header
                        && block.extrinsics@ == extrinsics,
                    None => r matches Err(StorageError::DeserializationError(_)),
                }
            } else {
                r matches Err(StorageError::KeyNotFound(text)) && text@ == key_text(
                    block_key(hash),
                )
            },
    {
        self.plugin.get_block(hash)
    }

    /// The storage engine that the function works on, for inspection.
    pub fn storage(&self) -> (plugin: &Plugin)
        ensures
            plugin@ == self@,
    {
        &self.plugin
    }

    /// Records `block` under the hash `hash` and executes its extrinsics: what
    /// `execute_block` does once it has taken the hash of the block. This always succeeds.
    pub fn execute_under_hash(&mut self, block: &Block, hash: types::Hash) -> (r: Result<
        (),
        StfError,
    >)
        ensures
            r is Ok,
            final(self)@ == execute_under_hash(old(self)@, block.header, block.extrinsics@, hash),
    {
        let height = block.header.block_height;
        match self.plugin.set(StoragePrefix::Block, height, &hash) {
            Ok(_) => {},
            Err(e) => { return Err(StfError::Storage(e)); },
        }
        match self.plugin.set(StoragePrefix::Block, hash, block) {
            Ok(_) => {},
            Err(e) => { return Err(StfError::Storage(e)); },
        }
        let ghost recorded = self@;
        let extrinsics = block.extrinsics();
        let mut i: usize = 0;
        while i < extrinsics.len()
            invariant
                i <= extrinsics.len(),
                extrinsics@ == block.extrinsics@,
                self@ == apply_extrinsics(recorded, height, extrinsics@.take(i as int)),
            decreases extrinsics.len() - i,
        {
            let extrinsic = extrinsics[i];
            let _ = self.apply(extrinsic.transaction_type);
            match self.plugin.set(StoragePrefix::Extrinsic, height, &extrinsic) {
                Ok(_) => {},
                Err(e) => { return Err(StfError::Storage(e)); },
            }
            proof {
                let next = extrinsics@.take(i + 1);
                assert(next.drop_last() =~= extrinsics@.take(i as int));
                assert(next.last() == extrinsic);
            }
            i = i + 1;
        }
        assert(extrinsics@.take(i as int) =~= extrinsics@);
        Ok(())
    }

    /// The store of the function holds a value under finitely many keys.
    pub proof fn lemma_finite(&self)
        ensures
            self@.dom().finite(),
    {
        self.plugin.lemma_finite();
    }

    /// The account under `id`, if the store holds one that can be read.
    fn account(&self, id: types::Hash) -> (found: Option<Account>)
        ensures
            found == account_at(self@, id),
    {
        let r: Result<Account, StorageError> = self.plugin.get(StoragePrefix::Account, id);
        match r {
            Ok(account) => Some(account),
            Err(_) => None,
        }
    }

    /// Writes the record of `account`.
    fn put(&mut self, account: Account)
        ensures
            final(self)@ == put_account(old(self)@, account),
    {
        let _ = self.plugin.set(StoragePrefix::Account, account.account_id, &account);
    }

    /// Says whether `tx` can be applied to the store as it stands, and why not. Nothing
    /// is written.
    pub fn check_transaction(&self, tx: TransactionType) -> (r: Result<(), TransactionError>)
        ensures
            r == transaction_outcome(self@, tx),
    {
        match tx {
            TransactionType::Transfer { from, to, amount } => {
                let sender = match self.account(from) {
                    Some(sender) => sender,
                    None => { return Err(TransactionError::AccountNotFound(from)); },
                };
                let receiver = match self.account(to) {
                    Some(receiver) => receiver,
                    None => { return Err(TransactionError::AccountNotFound(to)); },
                };
                if sender.balance < amount {
                    return Err(
                        TransactionError::InsufficientBalance {
                            account_id: from,
                            balance: sender.balance,
                            amount,
                        },
                    );
                }
                let same = same_bytes(from.as_slice(), to.as_slice());
                assert(same == (from == to)) by {
                    if same {
                        assert(from =~= to);
                    }
                }
                let base = if same {
                    sender.balance - amount
                } else {
                    receiver.balance
                };
                match base.checked_add(amount) {
                    Some(_) => Ok(()),
                    None => Err(
                        TransactionError::BalanceOverflow {
                            account_id: to,
                            balance: receiver.balance,
                            amount,
                        },
                    ),
                }
            },
            TransactionType::Mint { to, amount } => {
                match self.account(to) {
                    None => Err(TransactionError::AccountNotFound(to)),
                    Some(receiver) => match receiver.balance.checked_add(amount) {
                        Some(_) => Ok(()),
                        None => Err(
                            TransactionError::BalanceOverflow {
                                account_id: to,
                                balance: receiver.balance,
                                amount,
                            },
                        ),
                    },
                }
            },
            TransactionType::Burn { from, amount } => {
                match self.account(from) {
                    None => Err(TransactionError::AccountNotFound(from)),
                    Some(sender) => if sender.balance >= amount {
                        Ok(())
                    } else {
                        Err(
                            TransactionError::InsufficientBalance {
                                account_id: from,
                                balance: sender.balance,
                                amount,
                            },
                        )
                    },
                }
            },
            TransactionType::AccountCreation { account_id, balance } => {
                match self.account(account_id) {
                    None => Ok(()),
                    Some(_) => Err(TransactionError::AccountExists(account_id)),
                }
            },
        }
    }

    /// Applies one transaction to the accounts if it can be applied, and says why not
    /// otherwise.
    fn apply(&mut self, tx: TransactionType) -> (r: Result<(), TransactionError>)
        ensures
            r == transaction_outcome(old(self)@, tx),
            final(self)@ == apply_transaction(old(self)@, tx),
    {
        match self.check_transaction(tx) {
            Ok(_) => {},
            Err(e) => { return Err(e); },
        }
        match tx {
            TransactionType::Transfer { from, to, amount } => {
                let sender = self.account(from);
                let receiver = self.account(to);
                match (sender, receiver) {
                    (Some(sender), Some(receiver)) => {
                        let paid = Account {
                            account_id: sender.account_id,
                            balance: sender.balance - amount,
                        };
                        let same = same_bytes(from.as_slice(), to.as_slice());
                        assert(same == (from == to)) by {
                            if same {
                                assert(from =~= to);
                            }
                        }
                        let base = if same {
                            paid
                        } else {
                            receiver
                        };
                        self.put(paid);
                        self.put(
                            Account { account_id: base.account_id, balance: base.balance + amount },
                        );
                    },
                    _ => {},
                }
            },
            TransactionType::Mint { to, amount } => {
                match self.account(to) {
                    Some(receiver) => {
                        self.put(
                            Account {
                                account_id: receiver.account_id,
                                balance: receiver.balance + amount,
                            },
                        );
                    },
                    None => {},
                }
            },
            TransactionType::Burn { from, amount } => {
                match self.account(from) {
                    Some(sender) => {
                        self.put(
                            Account {
                                account_id: sender.account_id,
                                balance: sender.balance - amount,
                            },
                        );
                    },
                    None => {},
                }
            },
            TransactionType::AccountCreation { account_id, balance } => {
                self.put(Account { account_id, balance });
            },
        }
        Ok(())
    }
}

impl Stf for SimpleStf {
    open spec fn store(&self) -> Map<Seq<u8>, Seq<u8>> {
        self@
    }

    fn validate_block(&mut self, block: Block) -> (r: Result<(), ValidationError>) {
        let height = block.header.block_height;
        let exists: Result<(), StorageError> = self.plugin.get(StoragePrefix::Block, height);
        if exists.is_ok() {
            return Err(ValidationError::AlreadyImported);
        }
        if height.0 == 0 {
            return Err(ValidationError::MissingParent);
        }
        let parent: Result<types::Hash, StorageError> = self.plugin.get(
            StoragePrefix::Block,
            Height(height.0 - 1),
        );
        match parent {
            Err(_) => Err(ValidationError::MissingParent),
            Ok(parent) => {
                if same_bytes(block.header.parent_hash.as_slice(), parent.as_slice()) {
                    assert(block.header.parent_hash =~= parent);
                    Ok(())
                } else {
                    Err(ValidationError::ParentMismatch)
                }
            },
        }
    }

    fn execute_block(&mut self, block: Block) -> (r: Result<(), StfError>) {
        let hash = block.hash();
        self.execute_under_hash(&block, hash)
    }

    fn validate_account(&mut self, account: Account) -> (r: Result<(), ValidationError>) {
        match self.account(account.account_id) {
            Some(_) => Err(ValidationError::AccountExists),
            None => Ok(()),
        }
    }

    fn get_block_hash(&self, block_height: Height) -> (r: Result<types::Hash, StorageError>) {
        self.plugin.get(StoragePrefix::Block, block_height)
    }

    fn get_account(&self, account_id: types::Hash) -> (r: Result<Account, StorageError>) {
        self.plugin.get(StoragePrefix::Account, account_id)
    }
}

/// A block above the genesis block whose height is new, while the store holds a hash for
/// the height below that is not the parent hash of the block, is refused for the
/// mismatch. (Validation writes nothing, whatever it finds.)
pub proof fn lemma_parent_mismatch(
    store: Map<Seq<u8>, Seq<u8>>,
    header: Header,
    parent: types::Hash,
)
    requires
        header.block_height.0 > 0,
        !has_block(store, header.block_height),
        block_hash_at(store, Height((header.block_height.0 - 1) as u64)) == Some(parent),
        header.parent_hash != parent,
    ensures
        block_validity(store, header) == Err::<(), ValidationError>(
            ValidationError::ParentMismatch,
        ),
{
}

/// A block at a height for which the store holds a record is refused as already
/// imported, whatever else the block says.
pub proof fn lemma_known_height(store: Map<Seq<u8>, Seq<u8>>, header: Header)
    requires
        has_block(store, header.block_height),
    ensures
        block_validity(store, header) == Err::<(), ValidationError>(
            ValidationError::AlreadyImported,
        ),
{
}

/// Once a block was executed, the store holds a record for its height, and the hash
/// under the height is the hash of the block.
pub proof fn lemma_executed_block_is_known(
    store: Map<Seq<u8>, Seq<u8>>,
    header: Header,
    extrinsics: Seq<SignedTransaction>,
)
    ensures
        has_block(execute_block_result(store, header, extrinsics), header.block_height),
        block_hash_at(execute_block_result(store, header, extrinsics), header.block_height)
            == Some(header.hash_value()),
    decreases extrinsics.len(),
{
    let hash = header.hash_value();
    let height = header.block_height;
    let with_hash = store.insert(height_key(height), hash@);
    let with_block = with_hash.insert(block_key(hash), block_encoding(header, extrinsics));
    lemma_block_key(hash, height);
    lemma_hash_of_view(hash);
    assert(hash@.subrange(0, 32) =~= hash@);
    lemma_height_keys(height);
    lemma_extrinsics_keep_records(with_block, height, extrinsics, height_key(height));
}

/// Once a block was executed, the store holds the block under its hash: the header and
/// the extrinsics as they were executed.
pub proof fn lemma_executed_block_is_recorded(
    store: Map<Seq<u8>, Seq<u8>>,
    header: Header,
    extrinsics: Seq<SignedTransaction>,
)
    ensures
        execute_block_result(store, header, extrinsics).contains_key(
            block_key(header.hash_value()),
        ),
        execute_block_result(store, header, extrinsics)[block_key(header.hash_value())]
            == block_encoding(header, extrinsics),
{
    let hash = header.hash_value();
    let height = header.block_height;
    let with_hash = store.insert(height_key(height), hash@);
    let with_block = with_hash.insert(block_key(hash), block_encoding(header, extrinsics));
    lemma_block_key(hash, height);
    lemma_extrinsics_keep_records(with_block, height, extrinsics, block_key(hash));
}

/// Once a block that a vector can hold was executed, the record under its hash reads
/// back as the block: its header and its extrinsics.
pub proof fn lemma_executed_block_reads_back(
    store: Map<Seq<u8>, Seq<u8>>,
    header: Header,
    extrinsics: Seq<SignedTransaction>,
)
    requires
        extrinsics.len() <= usize::MAX,
    ensures
        execute_block_result(store, header, extrinsics).contains_key(
            block_key(header.hash_value()),
        ),
        block_decoding(
            execute_block_result(store, header, extrinsics)[block_key(header.hash_value())],
        ) == Some((header, extrinsics)),
{
    lemma_executed_block_is_recorded(store, header, extrinsics);
    lemma_block_round_trip(header, extrinsics, Seq::empty());
    assert(block_encoding(header, extrinsics) + Seq::<u8>::empty() =~= block_encoding(
        header,
        extrinsics,
    ));
}

/// Executing a block leaves the hash recorded for every other height as it is.
pub proof fn lemma_other_heights_keep_their_hash(
    store: Map<Seq<u8>, Seq<u8>>,
    header: Header,
    extrinsics: Seq<SignedTransaction>,
    other: Height,
)
    requires
        other != header.block_height,
    ensures
        has_block(execute_block_result(store, header, extrinsics), other) == has_block(
            store,
            other,
        ),
        block_hash_at(execute_block_result(store, header, extrinsics), other) == block_hash_at(
            store,
            other,
        ),
{
    let hash = header.hash_value();
    let height = header.block_height;
    let with_hash = store.insert(height_key(height), hash@);
    let with_block = with_hash.insert(block_key(hash), block_encoding(header, extrinsics));
    lemma_height_key_injective(other, height);
    lemma_block_key(hash, other);
    lemma_height_keys(other);
    lemma_extrinsic_key_is_no_height_key(height, other);
    lemma_extrinsics_keep_records(with_block, height, extrinsics, height_key(other));
}

/// Executing extrinsics at a height leaves every record as it is that is neither that of
/// an account nor that of the extrinsics of the height.
proof fn lemma_extrinsics_keep_records(
    store: Map<Seq<u8>, Seq<u8>>,
    height: Height,
    extrinsics: Seq<SignedTransaction>,
    key: Seq<u8>,
)
    requires
        !is_account_key(key),
        key != extrinsic_key(height),
    ensures
        apply_extrinsics(store, height, extrinsics).contains_key(key) == store.contains_key(key),
        apply_extrinsics(store, height, extrinsics)[key] == store[key],
    decreases extrinsics.len(),
{
    if extrinsics.len() > 0 {
        lemma_extrinsics_keep_records(store, height, extrinsics.drop_last(), key);
        let before = apply_extrinsics(store, height, extrinsics.drop_last());
        lemma_transaction_keeps_record(before, extrinsics.last().transaction_type, key);
    }
}

/// A transaction writes under the keys of accounts only.
pub proof fn lemma_transaction_keeps_record(
    store: Map<Seq<u8>, Seq<u8>>,
    tx: TransactionType,
    key: Seq<u8>,
)
    requires
        !is_account_key(key),
    ensures
        apply_transaction(store, tx).contains_key(key) == store.contains_key(key),
        apply_transaction(store, tx)[key] == store[key],
{
    assert forall|id: types::Hash| account_key(id) != key by {
        lemma_account_key_injective(id, id);
    }
}

} // verus!
