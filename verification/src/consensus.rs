use crate::account::Account;
use crate::block::{block_encoding, total_weight, Block, BlockTrait, Header};
use crate::extrinsics::{transaction_encoding, SignedTransaction};
use crate::keys::{block_key, extrinsic_key, height_key, lemma_block_key, lemma_height_keys};
use crate::ledger::{lemma_account_at_put, lemma_account_at_record};
use crate::stf::{
    account_at, apply_extrinsic, apply_extrinsics, apply_transaction, block_hash_at,
    block_validity, execute_block_result, has_block, lemma_executed_block_is_known,
    lemma_executed_block_is_recorded, lemma_other_heights_keep_their_hash, parent_hash_at,
    SimpleStf, Stf, ValidationError,
};
use crate::types;
use crate::types::{
    ConsensusError, Get, Height, MaxBlockWeight, StfError, StorageError, TransactionType,
};
use std::collections::VecDeque;
use vstd::array::spec_array_fill_for_copy_type;
use vstd::prelude::*;

verus! {

/// A network of nodes that can hand over blocks.
pub trait Nodes {
    /// The block with the given number, as the network knows it. Meant for a node that
    /// meets a fork and has to move to the chain that the network follows.
    fn request_block(&self, block_number: Height) -> Block;
}

/// How an import ended that did not fail.
#[derive(Debug, Copy, Clone, PartialEq, Eq)]
pub enum ImportOutcome {
    /// The block was executed.
    Executed,
    /// The block was refused and nothing was written.
    Rejected(ValidationError),
}

/// The identifier of the first account that the genesis block creates.
pub open spec fn alice() -> types::Hash {
    spec_array_fill_for_copy_type::<u8, 32>(0u8)
}

/// The identifier of the second account that the genesis block creates.
pub open spec fn dave() -> types::Hash {
    spec_array_fill_for_copy_type::<u8, 32>(1u8)
}

/// The balance with which the genesis block opens the first account.
pub const ALICE_BALANCE: u128 = 10000000000;

/// The balance with which the genesis block opens the second account.
pub const DAVE_BALANCE: u128 = 1000;

/// The two extrinsics that every genesis block ends with: they create the two accounts
/// that the chain starts with.
pub open spec fn seed_extrinsics() -> Seq<SignedTransaction> {
    seq![
        SignedTransaction {
            transaction_type: TransactionType::AccountCreation {
                account_id: alice(),
                balance: ALICE_BALANCE,
            },
        },
        SignedTransaction {
            transaction_type: TransactionType::AccountCreation {
                account_id: dave(),
                balance: DAVE_BALANCE,
            },
        },
    ]
}

/// `header` with the parent hash set to `parent`.
pub open spec fn linked(header: Header, parent: types::Hash) -> Header {
    Header { parent_hash: parent, ..header }
}

/// The header that a block has after its import was tried: above the genesis block, and
/// where the store holds a hash for the height below, the parent hash is that hash.
pub open spec fn import_header(store: Map<Seq<u8>, Seq<u8>>, header: Header) -> Header {
    match parent_hash_at(store, header.block_height) {
        Some(parent) => linked(header, parent),
        None => header,
    }
}

/// The extrinsics that a block has after its import was tried: those of a genesis block
/// are followed by the seed extrinsics.
pub open spec fn import_extrinsics(header: Header, extrinsics: Seq<SignedTransaction>) -> Seq<
    SignedTransaction,
> {
    if header.block_height.0 == 0 {
        extrinsics + seed_extrinsics()
    } else {
        extrinsics
    }
}

/// Whether the import of a block executes the block: a genesis block is always executed,
/// a block above it where the store holds a hash for the height below and the block,
/// with that hash for its parent hash, is valid.
pub open spec fn import_executes(store: Map<Seq<u8>, Seq<u8>>, header: Header) -> bool {
    header.block_height.0 == 0 || (parent_hash_at(store, header.block_height) is Some
        && block_validity(store, import_header(store, header)) is Ok)
}

/// The store after the import of a block was tried: the block is executed or nothing is
/// written.
pub open spec fn import_result(
    store: Map<Seq<u8>, Seq<u8>>,
    header: Header,
    extrinsics: Seq<SignedTransaction>,
) -> Map<Seq<u8>, Seq<u8>> {
    if import_executes(store, header) {
        execute_block_result(
            store,
            import_header(store, header),
            import_extrinsics(header, extrinsics),
        )
    } else {
        store
    }
}

/// What imports blocks into a chain.
pub trait ConsensusT {
    /// Imports `block`. Blocks are meant to come one height after the other, starting at
    /// zero.
    ///
    /// At height zero the two seed extrinsics are appended to the block, and the block is
    /// executed without any check.
    ///
    /// Above zero the parent hash of the block is first set to the hash that the store
    /// holds for the height below; the import fails where the store holds none. The block
    /// is then validated, and executed if it is valid. A block that is not valid is
    /// refused: nothing is written, and the outcome says why.
    fn import_block(&self, block: &mut Block, stf: &mut SimpleStf) -> (r: Result<
        ImportOutcome,
        ConsensusError,
    >)
        ensures
            final(block).header == import_header(old(stf)@, old(block).header),
            final(block).extrinsics@ == import_extrinsics(
                old(block).header,
                old(block).extrinsics@,
            ),
            final(stf)@ == import_result(old(stf)@, old(block).header, old(block).extrinsics@),
            match r {
                Ok(ImportOutcome::Executed) => import_executes(old(stf)@, old(block).header),
                Ok(ImportOutcome::Rejected(e)) => {
                    &&& old(block).header.block_height.0 > 0
                    &&& parent_hash_at(old(stf)@, old(block).header.block_height) is Some
                    &&& block_validity(old(stf)@, final(block).header) == Err::<
                        (),
                        ValidationError,
                    >(e)
                },
                Err(ConsensusError::Stf(StfError::Storage(e))) => {
                    &&& old(block).header.block_height.0 > 0
                    &&& parent_hash_at(old(stf)@, old(block).header.block_height) is None
                    &&& (e is KeyNotFound || e is DeserializationError)
                },
                Err(_) => false,
            },
    ;
}

/// A block above the genesis block at a height for which the store holds a record is
/// not imported again: nothing is written, so the first record stays as it is. Where the
/// store holds a hash for the height below, the block is refused as already imported.
pub proof fn lemma_import_again(
    store: Map<Seq<u8>, Seq<u8>>,
    header: Header,
    extrinsics: Seq<SignedTransaction>,
)
    requires
        header.block_height.0 > 0,
        has_block(store, header.block_height),
    ensures
        import_result(store, header, extrinsics) == store,
        block_validity(store, import_header(store, header)) == Err::<(), ValidationError>(
            ValidationError::AlreadyImported,
        ),
{
}

/// The import of a block above the genesis block, where the store holds a hash for the
/// height below: the block is executed if its height is new, and refused as already
/// imported otherwise. The parent hash of the block as the caller set it plays no part.
pub proof fn lemma_import_above_genesis(store: Map<Seq<u8>, Seq<u8>>, header: Header)
    requires
        header.block_height.0 > 0,
        parent_hash_at(store, header.block_height) is Some,
    ensures
        block_validity(store, import_header(store, header)) == (if has_block(
            store,
            header.block_height,
        ) {
            Err::<(), ValidationError>(ValidationError::AlreadyImported)
        } else {
            Ok::<(), ValidationError>(())
        }),
        import_executes(store, header) == !has_block(store, header.block_height),
{
}

/// A block above the genesis block that the import executes is linked to the chain: its
/// parent hash is the hash that the store held for the height below, and the block is
/// recorded with that parent hash, its hash under its height.
pub proof fn lemma_import_links(
    store: Map<Seq<u8>, Seq<u8>>,
    header: Header,
    extrinsics: Seq<SignedTransaction>,
)
    requires
        header.block_height.0 > 0,
        import_executes(store, header),
    ensures
        ({
            let imported = import_header(store, header);
            let after = import_result(store, header, extrinsics);
            &&& Some(imported.parent_hash) == block_hash_at(
                store,
                Height((header.block_height.0 - 1) as u64),
            )
            &&& block_hash_at(after, header.block_height) == Some(imported.hash_value())
            &&& after.contains_key(block_key(imported.hash_value()))
            &&& after[block_key(imported.hash_value())] == block_encoding(imported, extrinsics)
            &&& block_hash_at(after, Height((header.block_height.0 - 1) as u64)) == Some(
                imported.parent_hash,
            )
        }),
{
    let imported = import_header(store, header);
    lemma_executed_block_is_known(store, imported, extrinsics);
    lemma_executed_block_is_recorded(store, imported, extrinsics);
    lemma_other_heights_keep_their_hash(
        store,
        imported,
        extrinsics,
        Height((header.block_height.0 - 1) as u64),
    );
}

/// No account is held under any identifier.
pub open spec fn no_accounts(store: Map<Seq<u8>, Seq<u8>>) -> bool {
    forall|id: types::Hash| account_at(store, id) is None
}

/// None of the extrinsics creates an account.
pub open spec fn no_creation(extrinsics: Seq<SignedTransaction>) -> bool {
    forall|i: int|
        0 <= i < extrinsics.len() ==> !((#[trigger] extrinsics[i]).transaction_type
            is AccountCreation)
}

/// Executing extrinsics one after the other can be done in two parts.
pub proof fn lemma_apply_extrinsics_split(
    store: Map<Seq<u8>, Seq<u8>>,
    height: Height,
    first: Seq<SignedTransaction>,
    second: Seq<SignedTransaction>,
)
    ensures
        apply_extrinsics(store, height, first + second) == apply_extrinsics(
            apply_extrinsics(store, height, first),
            height,
            second,
        ),
    decreases second.len(),
{
    if second.len() == 0 {
        assert(first + second =~= first);
    } else {
        assert((first + second).drop_last() =~= first + second.drop_last());
        assert((first + second).last() == second.last());
        lemma_apply_extrinsics_split(store, height, first, second.drop_last());
    }
}

/// Where the store holds no account, extrinsics that create none leave it without one.
proof fn lemma_nothing_to_act_on(
    store: Map<Seq<u8>, Seq<u8>>,
    height: Height,
    extrinsics: Seq<SignedTransaction>,
)
    requires
        no_accounts(store),
        no_creation(extrinsics),
    ensures
        no_accounts(apply_extrinsics(store, height, extrinsics)),
    decreases extrinsics.len(),
{
    if extrinsics.len() > 0 {
        let front = extrinsics.drop_last();
        assert forall|i: int| 0 <= i < front.len() implies !((#[trigger] front[i]).transaction_type
            is AccountCreation) by {
            assert(front[i] == extrinsics[i]);
        }
        lemma_nothing_to_act_on(store, height, front);
        let before = apply_extrinsics(store, height, front);
        let tx = extrinsics.last().transaction_type;
        assert(!(extrinsics[extrinsics.len() - 1].transaction_type is AccountCreation));
        assert(apply_transaction(before, tx) == before);
        lemma_height_keys(height);
        assert forall|id: types::Hash|
            account_at(apply_extrinsics(store, height, extrinsics), id) is None by {
            lemma_account_at_record(before, extrinsic_key(height), transaction_encoding(tx), id);
        }
    }
}

/// The two seed accounts are not the same account.
pub proof fn lemma_seeds_differ()
    ensures
        alice() != dave(),
{
    assert(alice()@[0] == 0u8);
    assert(dave()@[0] == 1u8);
}

/// The account that the store holds under `id` once `seed` was created there: the
/// account that it held before, and `seed` where it held none.
pub open spec fn seeded(store: Map<Seq<u8>, Seq<u8>>, seed: Account) -> Option<Account> {
    if account_at(store, seed.account_id) is Some {
        account_at(store, seed.account_id)
    } else {
        Some(seed)
    }
}

/// What the seed extrinsics do to a store: each of the two seed accounts is created with
/// its opening balance unless the store holds an account under its identifier, which
/// then stays as it is, and every other account stays as it is.
pub proof fn lemma_seed_accounts(store: Map<Seq<u8>, Seq<u8>>, height: Height)
    ensures
        ({
            let after = apply_extrinsics(store, height, seed_extrinsics());
            &&& account_at(after, alice()) == seeded(
                store,
                Account { account_id: alice(), balance: ALICE_BALANCE },
            )
            &&& account_at(after, dave()) == seeded(
                store,
                Account { account_id: dave(), balance: DAVE_BALANCE },
            )
            &&& forall|id: types::Hash|
                id != alice() && id != dave() ==> account_at(after, id) == account_at(store, id)
        }),
{
    lemma_seeds_differ();
    lemma_height_keys(height);
    let seeds = seed_extrinsics();
    let first = seeds[0];
    let second = seeds[1];
    let a = Account { account_id: alice(), balance: ALICE_BALANCE };
    let d = Account { account_id: dave(), balance: DAVE_BALANCE };
    assert(seeds.drop_last() =~= seq![first]);
    assert(seq![first].drop_last() =~= Seq::<SignedTransaction>::empty());
    assert(apply_extrinsics(store, height, Seq::<SignedTransaction>::empty()) == store);
    let one = apply_extrinsic(store, height, first);
    assert(apply_extrinsics(store, height, seq![first]) == one);
    let two = apply_extrinsic(one, height, second);
    assert(apply_extrinsics(store, height, seeds) == two);
    let opened = apply_transaction(store, first.transaction_type);
    assert forall|id: types::Hash| account_at(one, id) == (if id == alice() {
        seeded(store, a)
    } else {
        account_at(store, id)
    }) by {
        lemma_account_at_put(store, a, id);
        lemma_account_at_record(
            opened,
            extrinsic_key(height),
            transaction_encoding(first.transaction_type),
            id,
        );
    }
    let both = apply_transaction(one, second.transaction_type);
    assert forall|id: types::Hash| account_at(two, id) == (if id == dave() {
        seeded(store, d)
    } else {
        account_at(one, id)
    }) by {
        lemma_account_at_put(one, d, id);
        lemma_account_at_record(
            both,
            extrinsic_key(height),
            transaction_encoding(second.transaction_type),
            id,
        );
    }
}

/// The store in which the extrinsics that come with a genesis block were executed, and
/// the seed extrinsics not yet.
pub open spec fn before_seeding(
    store: Map<Seq<u8>, Seq<u8>>,
    header: Header,
    extrinsics: Seq<SignedTransaction>,
) -> Map<Seq<u8>, Seq<u8>> {
    let hash = header.hash_value();
    apply_extrinsics(
        store.insert(height_key(header.block_height), hash@).insert(
            block_key(hash),
            block_encoding(header, extrinsics + seed_extrinsics()),
        ),
        header.block_height,
        extrinsics,
    )
}

/// The import of a genesis block, whatever the store holds and whatever extrinsics come
/// with the block: the block is executed, and once the extrinsics that came with it are
/// executed, each seed account is created unless an account is there under its
/// identifier, which is then kept. The seed extrinsics touch no other account.
pub proof fn lemma_genesis_seeds(
    store: Map<Seq<u8>, Seq<u8>>,
    header: Header,
    extrinsics: Seq<SignedTransaction>,
)
    requires
        header.block_height.0 == 0,
    ensures
        import_executes(store, header),
        ({
            let ready = before_seeding(store, header, extrinsics);
            let after = import_result(store, header, extrinsics);
            &&& account_at(after, alice()) == seeded(
                ready,
                Account { account_id: alice(), balance: ALICE_BALANCE },
            )
            &&& account_at(after, dave()) == seeded(
                ready,
                Account { account_id: dave(), balance: DAVE_BALANCE },
            )
            &&& forall|id: types::Hash|
                id != alice() && id != dave() ==> account_at(after, id) == account_at(ready, id)
        }),
{
    let height = header.block_height;
    let hash = header.hash_value();
    let all = extrinsics + seed_extrinsics();
    let with_block = store.insert(height_key(height), hash@).insert(
        block_key(hash),
        block_encoding(header, all),
    );
    lemma_apply_extrinsics_split(with_block, height, extrinsics, seed_extrinsics());
    lemma_seed_accounts(before_seeding(store, header, extrinsics), height);
    assert(import_header(store, header) == header);
}

/// The import of a genesis block into a store that holds no account, where the
/// extrinsics that come with the block create none: afterwards the store holds the two
/// seed accounts with their opening balances, and no other account.
pub proof fn lemma_genesis(
    store: Map<Seq<u8>, Seq<u8>>,
    header: Header,
    extrinsics: Seq<SignedTransaction>,
)
    requires
        header.block_height.0 == 0,
        no_accounts(store),
        no_creation(extrinsics),
    ensures
        import_executes(store, header),
        ({
            let after = import_result(store, header, extrinsics);
            &&& account_at(after, alice()) == Some(
                Account { account_id: alice(), balance: ALICE_BALANCE },
            )
            &&& account_at(after, dave()) == Some(
                Account { account_id: dave(), balance: DAVE_BALANCE },
            )
            &&& forall|id: types::Hash|
                account_at(after, id) is Some ==> id == alice() || id == dave()
        }),
{
    let height = header.block_height;
    let hash = header.hash_value();
    let all = extrinsics + seed_extrinsics();
    let with_hash = store.insert(height_key(height), hash@);
    let with_block = with_hash.insert(block_key(hash), block_encoding(header, all));
    lemma_height_keys(height);
    lemma_block_key(hash, height);
    assert forall|id: types::Hash| account_at(with_block, id) is None by {
        lemma_account_at_record(store, height_key(height), hash@, id);
        lemma_account_at_record(with_hash, block_key(hash), block_encoding(header, all), id);
    }
    lemma_nothing_to_act_on(with_block, height, extrinsics);
    lemma_genesis_seeds(store, header, extrinsics);
}

/// The import of a genesis block without extrinsics of its own into a store that holds
/// both seed accounts already: every account stays as it is. The records of the block
/// are written again, in place of those of the first import.
pub proof fn lemma_genesis_again(store: Map<Seq<u8>, Seq<u8>>, header: Header)
    requires
        header.block_height.0 == 0,
        account_at(store, alice()) is Some,
        account_at(store, dave()) is Some,
    ensures
        forall|id: types::Hash|
            account_at(import_result(store, header, Seq::empty()), id) == account_at(store, id),
{
    let height = header.block_height;
    let hash = header.hash_value();
    let none = Seq::<SignedTransaction>::empty();
    let with_hash = store.insert(height_key(height), hash@);
    let with_block = with_hash.insert(
        block_key(hash),
        block_encoding(header, none + seed_extrinsics()),
    );
    lemma_height_keys(height);
    lemma_block_key(hash, height);
    assert(before_seeding(store, header, none) == with_block);
    assert forall|id: types::Hash| account_at(with_block, id) == account_at(store, id) by {
        lemma_account_at_record(store, height_key(height), hash@, id);
        lemma_account_at_record(
            with_hash,
            block_key(hash),
            block_encoding(header, none + seed_extrinsics()),
            id,
        );
    }
    lemma_genesis_seeds(store, header, none);
}

/// The import of blocks in sequence.
#[derive(Debug)]
pub struct Consensus<N: Nodes> {
    pub node_network: N,
}

impl<N: Nodes> ConsensusT for Consensus<N> {
    fn import_block(&self, block: &mut Block, stf: &mut SimpleStf) -> (r: Result<
        ImportOutcome,
        ConsensusError,
    >) {
        let height = block.header.block_height;
        if height.0 == 0 {
            block.extrinsics.push(
                SignedTransaction::new(
                    TransactionType::AccountCreation {
                        account_id: [0u8; 32],
                        balance: ALICE_BALANCE,
                    },
                ),
            );
            block.extrinsics.push(
                SignedTransaction::new(
                    TransactionType::AccountCreation {
                        account_id: [1u8; 32],
                        balance: DAVE_BALANCE,
                    },
                ),
            );
            assert(block.extrinsics@ =~= old(block).extrinsics@ + seed_extrinsics());
            assert(parent_hash_at(old(stf)@, height) is None);
            match stf.execute_block(block.clone()) {
                Ok(_) => Ok(ImportOutcome::Executed),
                Err(e) => Err(ConsensusError::Stf(e)),
            }
        } else {
            match stf.get_block_hash(Height(height.0 - 1)) {
                Ok(parent) => {
                    block.header.parent_hash = parent;
                },
                Err(e) => {
                    return Err(ConsensusError::Stf(StfError::Storage(e)));
                },
            }
            match stf.validate_block(block.clone()) {
                Ok(_) => match stf.execute_block(block.clone()) {
                    Ok(_) => Ok(ImportOutcome::Executed),
                    Err(e) => Err(ConsensusError::Stf(e)),
                },
                Err(e) => Ok(ImportOutcome::Rejected(e)),
            }
        }
    }
}

/// A node: the pool of the transactions that wait for a block. New transactions enter at
/// the front and leave from the back.
#[derive(Debug)]
pub struct Node {
    pub transaction_pool: VecDeque<SignedTransaction>,
}

impl Nodes for Node {
    /// A node on its own knows no block of the network: it hands over a block at the
    /// height asked for that holds nothing.
    fn request_block(&self, block_number: Height) -> (block: Block)
        ensures
            block.header.block_height == block_number,
            block.header.parent_hash == no_hash(),
            block.header.state_root == no_hash(),
            block.header.extrinsics_root == no_hash(),
            block.header.block_weight == 0,
            block.extrinsics@ == Seq::<SignedTransaction>::empty(),
    {
        Block {
            header: Header {
                block_height: block_number,
                parent_hash: [0u8; 32],
                state_root: [0u8; 32],
                extrinsics_root: [0u8; 32],
                block_weight: 0,
            },
            extrinsics: Vec::new(),
        }
    }
}

/// What a node offers to those who submit transactions.
pub trait RpcNode {
    /// The transactions that wait, the one submitted last first.
    spec fn pending(&self) -> Seq<SignedTransaction>;

    /// Puts `transaction` at the front of the pool.
    fn submit_extrinsic(&mut self, transaction: SignedTransaction)
        ensures
            final(self).pending() == seq![transaction] + old(self).pending(),
    ;

    /// A copy of the pool.
    fn pending_extrinsics(&self) -> (pool: VecDeque<SignedTransaction>)
        ensures
            pool@ == self.pending(),
    ;
}

impl RpcNode for Node {
    open spec fn pending(&self) -> Seq<SignedTransaction> {
        self.transaction_pool@
    }

    fn submit_extrinsic(&mut self, transaction: SignedTransaction) {
        self.transaction_pool.push_front(transaction);
    }

    fn pending_extrinsics(&self) -> (pool: VecDeque<SignedTransaction>) {
        let mut pool: VecDeque<SignedTransaction> = VecDeque::new();
        let mut i: usize = 0;
        while i < self.transaction_pool.len()
            invariant
                i <= self.transaction_pool.len(),
                pool@ == self.transaction_pool@.take(i as int),
            decreases self.transaction_pool.len() - i,
        {
            pool.push_back(self.transaction_pool[i]);
            assert(self.transaction_pool@.take(i + 1) =~= self.transaction_pool@.take(
                i as int,
            ).push(self.transaction_pool@[i as int]));
            i = i + 1;
        }
        assert(self.transaction_pool@.take(i as int) =~= self.transaction_pool@);
        pool
    }
}

/// The transactions that a block of the weight `weight` takes from `pool`, in the order in
/// which it takes them: from the back of the pool, one after the other, as long as each
/// keeps the weight of the block within the limit. The first one that does not fit ends
/// the taking, whatever waits before it.
pub open spec fn admitted(pool: Seq<SignedTransaction>, weight: nat) -> Seq<SignedTransaction>
    decreases pool.len(),
{
    if pool.len() > 0 && weight + pool.last().spec_weight() <= MaxBlockWeight::value() {
        seq![pool.last()] + admitted(
            pool.drop_last(),
            weight + pool.last().spec_weight() as nat,
        )
    } else {
        Seq::empty()
    }
}

/// The weights of two runs of transactions add up.
pub proof fn lemma_total_weight_split(first: Seq<SignedTransaction>, second: Seq<SignedTransaction>)
    ensures
        total_weight(first + second) == total_weight(first) + total_weight(second),
    decreases second.len(),
{
    if second.len() == 0 {
        assert(first + second =~= first);
    } else {
        assert((first + second).drop_last() =~= first + second.drop_last());
        assert((first + second).last() == second.last());
        lemma_total_weight_split(first, second.drop_last());
    }
}

/// A single transaction weighs what it weighs.
proof fn lemma_weight_of_one(tx: SignedTransaction)
    ensures
        total_weight(seq![tx]) == tx.spec_weight(),
{
    assert(seq![tx].drop_last() =~= Seq::<SignedTransaction>::empty());
    assert(total_weight(Seq::<SignedTransaction>::empty()) == 0);
    assert(seq![tx].last() == tx);
}

/// What a block takes from the pool never brings its weight above the limit, and comes
/// from the back of the pool in the order in which it waits there, the oldest first.
pub proof fn lemma_admitted(pool: Seq<SignedTransaction>, weight: nat)
    requires
        weight <= MaxBlockWeight::value(),
    ensures
        weight + total_weight(admitted(pool, weight)) <= MaxBlockWeight::value(),
        admitted(pool, weight).len() <= pool.len(),
        forall|i: int|
            0 <= i < admitted(pool, weight).len() ==> admitted(pool, weight)[i] == pool[pool.len()
                - 1 - i],
    decreases pool.len(),
{
    if pool.len() > 0 && weight + pool.last().spec_weight() <= MaxBlockWeight::value() {
        let next = weight + pool.last().spec_weight() as nat;
        let rest = admitted(pool.drop_last(), next);
        lemma_admitted(pool.drop_last(), next);
        lemma_total_weight_split(seq![pool.last()], rest);
        lemma_weight_of_one(pool.last());
        assert forall|i: int| 0 <= i < admitted(pool, weight).len() implies admitted(
            pool,
            weight,
        )[i] == pool[pool.len() - 1 - i] by {
            if i > 0 {
                assert(admitted(pool, weight)[i] == rest[i - 1]);
                assert(rest[i - 1] == pool.drop_last()[pool.drop_last().len() - 1 - (i - 1)]);
            }
        }
    } else {
        assert(admitted(pool, weight) =~= Seq::empty());
    }
}

/// A transaction at the back of the pool whose weight is exactly what the block has left
/// is taken.
pub proof fn lemma_exact_fit(pool: Seq<SignedTransaction>, weight: nat)
    requires
        pool.len() > 0,
        weight + pool.last().spec_weight() == MaxBlockWeight::value(),
    ensures
        admitted(pool, weight).len() >= 1,
        admitted(pool, weight)[0] == pool.last(),
{
}

/// Taking stops at the first transaction that does not fit: what the block takes is all
/// of the pool, or the transaction that waits next is too heavy for what the block has
/// left.
pub proof fn lemma_admission_ends(pool: Seq<SignedTransaction>, weight: nat)
    ensures
        admitted(pool, weight).len() <= pool.len(),
        admitted(pool, weight).len() < pool.len() ==> weight + total_weight(
            admitted(pool, weight),
        ) + pool[pool.len() - 1 - admitted(pool, weight).len()].spec_weight()
            > MaxBlockWeight::value(),
    decreases pool.len(),
{
    if pool.len() > 0 && weight + pool.last().spec_weight() <= MaxBlockWeight::value() {
        let next = weight + pool.last().spec_weight() as nat;
        let rest = admitted(pool.drop_last(), next);
        lemma_admission_ends(pool.drop_last(), next);
        lemma_total_weight_split(seq![pool.last()], rest);
        lemma_weight_of_one(pool.last());
    } else {
        assert(admitted(pool, weight) =~= Seq::empty());
        assert(total_weight(Seq::<SignedTransaction>::empty()) == 0);
    }
}

/// The hash of a block that has none yet: 32 zero bytes.
pub open spec fn no_hash() -> types::Hash {
    spec_array_fill_for_copy_type::<u8, 32>(0u8)
}

impl Node {
    /// Builds the candidate block for `block_height`: a block without hashes that holds,
    /// above height zero, what it can take from the pool. The genesis block takes nothing
    /// from the pool.
    pub fn build_block(&mut self, block_height: Height) -> (block: Block)
        ensures
            block.header.block_height == block_height,
            block.header.parent_hash == no_hash(),
            block.header.state_root == no_hash(),
            block.header.extrinsics_root == no_hash(),
            block.extrinsics@ == (if block_height.0 == 0 {
                Seq::<SignedTransaction>::empty()
            } else {
                admitted(old(self).transaction_pool@, 0)
            }),
            block.extrinsics@.len() <= old(self).transaction_pool@.len(),
            final(self).transaction_pool@ == old(self).transaction_pool@.take(
                old(self).transaction_pool@.len() - block.extrinsics@.len(),
            ),
            block.well_formed(),
    {
        let mut block = Block {
            header: Header {
                block_height,
                parent_hash: [0u8; 32],
                state_root: [0u8; 32],
                extrinsics_root: [0u8; 32],
                block_weight: 0,
            },
            extrinsics: Vec::new(),
        };
        assert(total_weight(block.extrinsics@) == 0);
        if block_height.0 != 0 {
            self.fill_block(&mut block);
            assert(block.extrinsics@ =~= admitted(old(self).transaction_pool@, 0));
        } else {
            assert(self.transaction_pool@.take(self.transaction_pool@.len() as int)
                =~= self.transaction_pool@);
        }
        block
    }

    /// Moves transactions from the back of the pool into `block` as long as the next one
    /// fits. What does not fit, and all that waits before it, stays in the pool.
    pub fn fill_block(&mut self, block: &mut Block)
        ensures
            ({
                let taken = admitted(
                    old(self).transaction_pool@,
                    old(block).header.block_weight as nat,
                );
                &&& taken.len() <= old(self).transaction_pool@.len()
                &&& final(self).transaction_pool@ == old(self).transaction_pool@.take(
                    old(self).transaction_pool@.len() - taken.len(),
                )
                &&& final(block).extrinsics@ == old(block).extrinsics@ + taken
                &&& final(block).header.block_weight == old(block).header.block_weight
                    + total_weight(taken)
                &&& final(block).header == (Header {
                    block_weight: final(block).header.block_weight,
                    ..old(block).header
                })
            }),
            old(block).header.block_weight <= MaxBlockWeight::value()
                ==> final(block).header.block_weight <= MaxBlockWeight::value(),
            old(block).well_formed() ==> final(block).well_formed(),
    {
        let ghost pool0 = self.transaction_pool@;
        let ghost weight0 = block.header.block_weight as nat;
        let ghost extrinsics0 = block.extrinsics@;
        let ghost mut taken: Seq<SignedTransaction> = Seq::empty();
        assert(pool0.take(pool0.len() as int) =~= pool0);
        assert(extrinsics0 + taken =~= extrinsics0);
        while self.transaction_pool.len() > 0
            invariant
                taken.len() <= pool0.len(),
                self.transaction_pool@ == pool0.take(pool0.len() - taken.len()),
                block.extrinsics@ == extrinsics0 + taken,
                block.header.block_weight == weight0 + total_weight(taken),
                block.header == (Header {
                    block_weight: block.header.block_weight,
                    ..old(block).header
                }),
                admitted(pool0, weight0) == taken + admitted(
                    self.transaction_pool@,
                    block.header.block_weight as nat,
                ),
            ensures
                taken.len() <= pool0.len(),
                self.transaction_pool@ == pool0.take(pool0.len() - taken.len()),
                block.extrinsics@ == extrinsics0 + taken,
                block.header.block_weight == weight0 + total_weight(taken),
                block.header == (Header {
                    block_weight: block.header.block_weight,
                    ..old(block).header
                }),
                admitted(pool0, weight0) == taken,
            decreases self.transaction_pool.len(),
        {
            let ghost pool = self.transaction_pool@;
            let next = self.transaction_pool[self.transaction_pool.len() - 1];
            if !block.can_add_extrinsic(next.weight()) {
                assert(admitted(pool, block.header.block_weight as nat) =~= Seq::empty());
                assert(taken + Seq::<SignedTransaction>::empty() =~= taken);
                break ;
            }
            let ghost weight = block.header.block_weight as nat;
            let _ = block.add_extrinsic(next);
            let _ = self.transaction_pool.pop_back();
            proof {
                let longer = taken.push(next);
                assert(longer.drop_last() =~= taken);
                assert(pool.drop_last() =~= pool0.take(pool0.len() - longer.len()));
                assert(admitted(pool, weight) == seq![next] + admitted(
                    pool.drop_last(),
                    weight + next.spec_weight() as nat,
                ));
                assert(taken + (seq![next] + admitted(
                    pool.drop_last(),
                    weight + next.spec_weight() as nat,
                )) =~= longer + admitted(pool.drop_last(), weight + next.spec_weight() as nat));
                assert(extrinsics0 + longer =~= (extrinsics0 + taken).push(next));
                taken = longer;
            }
        }
        proof {
            if self.transaction_pool@.len() == 0 {
                assert(admitted(self.transaction_pool@, block.header.block_weight as nat)
                    =~= Seq::empty());
                assert(taken + Seq::<SignedTransaction>::empty() =~= taken);
            }
            if weight0 <= MaxBlockWeight::value() {
                lemma_admitted(pool0, weight0);
            }
            lemma_total_weight_split(extrinsics0, taken);
        }
    }
}

} // verus!
