use crate::block::{block_decoding, Block};
use crate::codec::{Decode, Encode};
use crate::keys::block_key;
use crate::state::State;
use crate::types;
use crate::types::{decimal, StorageError, StoragePrefix};
use vstd::prelude::*;

verus! {

/// The key under which the store holds a value: the encoding of the prefix and then that
/// of the key, with nothing between them.
pub open spec fn full_key(prefix: Seq<u8>, key: Seq<u8>) -> Seq<u8> {
    prefix + key
}

/// A store of typed values under prefixed keys.
pub trait StoragePlugin<P: Encode, K: Encode, V> {
    /// What the store holds, as bytes under bytes.
    spec fn contents(&self) -> Map<Seq<u8>, Seq<u8>>;

    /// Stores the encoding of `value` under the full key of `prefix` and `key`, in place
    /// of what was there.
    fn set(&mut self, prefix: P, key: K, value: &V) -> (r: Result<(), StorageError>) where
        V: Encode,
        ensures
            r is Ok,
            final(self).contents() == old(self).contents().insert(
                full_key(prefix.encoding(), key.encoding()),
                value.encoding(),
            ),
    ;

    /// Reads the value under the full key of `prefix` and `key`: `KeyNotFound` with the
    /// text of the full key where the store holds nothing there, `DeserializationError`
    /// where what it holds does not start with a value of type `V`.
    fn get(&self, prefix: P, key: K) -> (r: Result<V, StorageError>) where V: Decode
        ensures
            ({
                let full = full_key(prefix.encoding(), key.encoding());
                if self.contents().contains_key(full) {
                    match V::decoding(self.contents()[full]) {
                        Some(v) => r == Ok::<V, StorageError>(v),
                        None => r matches Err(StorageError::DeserializationError(_)),
                    }
                } else {
                    r matches Err(StorageError::KeyNotFound(text)) && text@ == key_text(full)
                }
            }),
    ;

    /// The full key of `prefix` and `key`.
    fn create_full_key(prefix: P, key: K) -> (r: Result<Vec<u8>, StorageError>)
        ensures
            r matches Ok(k) && k@ == full_key(prefix.encoding(), key.encoding()),
    ;
}

/// The storage engine: typed access to a `State`.
pub struct Plugin {
    state: State,
}

impl View for Plugin {
    type V = Map<Seq<u8>, Seq<u8>>;

    closed spec fn view(&self) -> Map<Seq<u8>, Seq<u8>> {
        self.state@
    }
}

/// The decimal numerals of the bytes, with a comma and a blank between one and the next.
pub open spec fn numerals(bytes: Seq<u8>) -> Seq<char>
    decreases bytes.len(),
{
    if bytes.len() == 0 {
        Seq::empty()
    } else if bytes.len() == 1 {
        decimal(bytes[0] as nat)
    } else {
        numerals(bytes.drop_last()) + ", "@ + decimal(bytes.last() as nat)
    }
}

/// The text that names a key in a message: the numerals of its bytes in square brackets.
pub open spec fn key_text(key: Seq<u8>) -> Seq<char> {
    "["@ + numerals(key) + "]"@
}

/// `format!` with `{:?}` on a vector of bytes: the decimal numerals of the bytes,
/// separated by a comma and a blank, in square brackets.
#[verifier::external_body]
fn debug_text(key: &Vec<u8>) -> (text: String)
    ensures
        text@ == key_text(key@),
{
    format!("{:?}", key)
}

impl Plugin {
    /// An engine over an empty store.
    pub fn new() -> (plugin: Self)
        ensures
            plugin@ == Map::<Seq<u8>, Seq<u8>>::empty(),
    {
        Plugin { state: State::new() }
    }

    /// The engine holds a value under finitely many keys.
    pub proof fn lemma_finite(&self)
        ensures
            self@.dom().finite(),
    {
        self.state.lemma_finite();
    }

    /// The block recorded under the hash `hash`: `KeyNotFound` with the text of the key
    /// where there is no record, `DeserializationError` where the record does not hold a
    /// block.
    pub fn get_block(&self, hash: types::Hash) -> (r: Result<Block, StorageError>)
        ensures
            if self@.contains_key(block_key(hash)) {
                match block_decoding(self@[block_key(hash)]) {
                    Some((header, extrinsics)) => r matches Ok(block) && block.header == header
                        && block.extrinsics@ == extrinsics,
                    None => r matches Err(StorageError::DeserializationError(_)),
                }
            } else {
                r matches Err(StorageError::KeyNotFound(text)) && text@ == key_text(
                    block_key(hash),
                )
            },
    {
        let full_key = match <Plugin as StoragePlugin<StoragePrefix, types::Hash, ()>>::create_full_key(
            StoragePrefix::Block,
            hash,
        ) {
            Ok(k) => k,
            Err(e) => { return Err(e); },
        };
        let text = debug_text(&full_key);
        match self.state.get(full_key) {
            Some(bytes) => Block::decode(bytes.as_slice()),
            None => Err(StorageError::KeyNotFound(text)),
        }
    }

    /// The store behind the engine.
    pub fn get_state(&self) -> (state: &State)
        ensures
            state@ == self@,
    {
        &self.state
    }
}

impl<P: Encode, K: Encode, V> StoragePlugin<P, K, V> for Plugin {
    open spec fn contents(&self) -> Map<Seq<u8>, Seq<u8>> {
        self@
    }

    fn set(&mut self, prefix: P, key: K, value: &V) -> (r: Result<(), StorageError>) where
        V: Encode,
    {
        let full_key = match <Plugin as StoragePlugin<P, K, V>>::create_full_key(prefix, key) {
            Ok(k) => k,
            Err(e) => { return Err(e); },
        };
        let encoded_value = match value.encode() {
            Ok(b) => b,
            Err(e) => { return Err(e); },
        };
        self.state.insert(full_key, encoded_value)
    }

    fn get(&self, prefix: P, key: K) -> (r: Result<V, StorageError>) where V: Decode {
        let full_key = match <Plugin as StoragePlugin<P, K, V>>::create_full_key(prefix, key) {
            Ok(k) => k,
            Err(e) => { return Err(e); },
        };
        let text = debug_text(&full_key);
        match self.state.get(full_key) {
            Some(bytes) => V::decode(bytes.as_slice()),
            None => Err(StorageError::KeyNotFound(text)),
        }
    }

    fn create_full_key(prefix: P, key: K) -> (r: Result<Vec<u8>, StorageError>) {
        let mut full_key = match prefix.encode() {
            Ok(b) => b,
            Err(e) => { return Err(e); },
        };
        let mut encoded_key = match key.encode() {
            Ok(b) => b,
            Err(e) => { return Err(e); },
        };
        full_key.append(&mut encoded_key);
        Ok(full_key)
    }
}

} // verus!
