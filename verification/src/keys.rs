use crate::plugin::full_key;
use crate::types;
use crate::types::{Height, StoragePrefix};
use vstd::bytes::{
    lemma_auto_spec_u32_to_from_le_bytes, lemma_auto_spec_u64_to_from_le_bytes,
    spec_u32_from_le_bytes, spec_u32_to_le_bytes, spec_u64_from_le_bytes, spec_u64_to_le_bytes,
};
use vstd::prelude::*;

verus! {

/// The bytes that stand for a prefix in a key.
pub open spec fn prefix_bytes(prefix: StoragePrefix) -> Seq<u8> {
    spec_u32_to_le_bytes(prefix.index())
}

/// The key of the record of the account `id`.
pub open spec fn account_key(id: types::Hash) -> Seq<u8> {
    full_key(prefix_bytes(StoragePrefix::Account), id@)
}

/// The key under which the hash of the block at `height` is stored.
pub open spec fn height_key(height: Height) -> Seq<u8> {
    full_key(prefix_bytes(StoragePrefix::Block), spec_u64_to_le_bytes(height.0))
}

/// The key under which the block with the hash `hash` is stored.
pub open spec fn block_key(hash: types::Hash) -> Seq<u8> {
    full_key(prefix_bytes(StoragePrefix::Block), hash@)
}

/// The key under which the last extrinsic of the block at `height` is stored.
pub open spec fn extrinsic_key(height: Height) -> Seq<u8> {
    full_key(prefix_bytes(StoragePrefix::Extrinsic), spec_u64_to_le_bytes(height.0))
}

/// Whether `key` is the key of the record of an account.
pub open spec fn is_account_key(key: Seq<u8>) -> bool {
    key.len() == 36 && key.subrange(0, 4) == prefix_bytes(StoragePrefix::Account)
}

/// A prefix takes four bytes in a key, and two prefixes are never written alike.
pub proof fn lemma_prefix_bytes(p: StoragePrefix, q: StoragePrefix)
    ensures
        prefix_bytes(p).len() == 4,
        prefix_bytes(p) == prefix_bytes(q) <==> p == q,
{
    lemma_auto_spec_u32_to_from_le_bytes();
    assert(spec_u32_to_le_bytes(p.index()).len() == 4);
    assert(spec_u32_to_le_bytes(q.index()).len() == 4);
    if prefix_bytes(p) == prefix_bytes(q) {
        assert(spec_u32_from_le_bytes(spec_u32_to_le_bytes(p.index())) == p.index());
        assert(spec_u32_from_le_bytes(spec_u32_to_le_bytes(q.index())) == q.index());
        assert(p.index() == q.index());
    }
}

/// A full key falls apart into its prefix and its key again, the prefix having four bytes.
pub proof fn lemma_full_key_parts(p: StoragePrefix, key: Seq<u8>)
    ensures
        full_key(prefix_bytes(p), key).len() == 4 + key.len(),
        full_key(prefix_bytes(p), key).subrange(0, 4) == prefix_bytes(p),
        full_key(prefix_bytes(p), key).subrange(4, 4 + key.len() as int) == key,
{
    lemma_prefix_bytes(p, p);
    let full = full_key(prefix_bytes(p), key);
    assert(full.subrange(0, 4) =~= prefix_bytes(p));
    assert(full.subrange(4, 4 + key.len() as int) =~= key);
}

/// Two accounts have the same key only if they are the same account.
pub proof fn lemma_account_key_injective(a: types::Hash, b: types::Hash)
    ensures
        account_key(a) == account_key(b) <==> a == b,
        is_account_key(account_key(a)),
{
    lemma_full_key_parts(StoragePrefix::Account, a@);
    lemma_full_key_parts(StoragePrefix::Account, b@);
    if account_key(a) == account_key(b) {
        assert(a@ == b@);
        assert(a =~= b);
    }
}

/// The records that go by a height are not under the key of any account, and the hash
/// of a block and its last extrinsic are under different keys.
pub proof fn lemma_height_keys(height: Height)
    ensures
        !is_account_key(height_key(height)),
        !is_account_key(extrinsic_key(height)),
        height_key(height) != extrinsic_key(height),
{
    lemma_auto_spec_u64_to_from_le_bytes();
    lemma_full_key_parts(StoragePrefix::Block, spec_u64_to_le_bytes(height.0));
    lemma_full_key_parts(StoragePrefix::Extrinsic, spec_u64_to_le_bytes(height.0));
    lemma_prefix_bytes(StoragePrefix::Block, StoragePrefix::Extrinsic);
}

/// The record of a block is not under the key of any account, nor under the key of any
/// height.
pub proof fn lemma_block_key(hash: types::Hash, height: Height)
    ensures
        !is_account_key(block_key(hash)),
        block_key(hash) != height_key(height),
        block_key(hash) != extrinsic_key(height),
{
    lemma_auto_spec_u64_to_from_le_bytes();
    lemma_full_key_parts(StoragePrefix::Block, spec_u64_to_le_bytes(height.0));
    lemma_full_key_parts(StoragePrefix::Extrinsic, spec_u64_to_le_bytes(height.0));
    lemma_full_key_parts(StoragePrefix::Block, hash@);
    lemma_prefix_bytes(StoragePrefix::Block, StoragePrefix::Account);
}

/// The last extrinsic of one height is never under the key of the hash of another.
pub proof fn lemma_extrinsic_key_is_no_height_key(height: Height, other: Height)
    ensures
        extrinsic_key(height) != height_key(other),
{
    lemma_full_key_parts(StoragePrefix::Block, spec_u64_to_le_bytes(other.0));
    lemma_full_key_parts(StoragePrefix::Extrinsic, spec_u64_to_le_bytes(height.0));
    lemma_prefix_bytes(StoragePrefix::Block, StoragePrefix::Extrinsic);
}

/// Heights have the same key only if they are the same height.
pub proof fn lemma_height_key_injective(a: Height, b: Height)
    ensures
        height_key(a) == height_key(b) <==> a == b,
{
    lemma_auto_spec_u64_to_from_le_bytes();
    lemma_full_key_parts(StoragePrefix::Block, spec_u64_to_le_bytes(a.0));
    lemma_full_key_parts(StoragePrefix::Block, spec_u64_to_le_bytes(b.0));
    if height_key(a) == height_key(b) {
        assert(spec_u64_from_le_bytes(spec_u64_to_le_bytes(a.0)) == a.0);
        assert(spec_u64_from_le_bytes(spec_u64_to_le_bytes(b.0)) == b.0);
    }
}

} // verus!
