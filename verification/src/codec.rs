use crate::types;
use crate::types::{Height, StorageError, StoragePrefix};
use vstd::bytes::{
    spec_u128_from_le_bytes, spec_u128_to_le_bytes, spec_u32_from_le_bytes, spec_u32_to_le_bytes,
    spec_u64_from_le_bytes, spec_u64_to_le_bytes,
};
use vstd::prelude::*;
use vstd::string::StringSliceAdditionalSpecFns;

verus! {

/// The error that bincode reports; nothing of its content is known here.
#[verifier::external_type_specification]
#[verifier::external_body]
pub struct ExBincodeErrorKind(bincode::ErrorKind);

/// `bincode::serialize` on a `u8`: the byte itself. The call does not fail, for the reasons
/// given at `serialize_u32`.
#[verifier::external_body]
fn serialize_u8(value: u8) -> (r: Result<Vec<u8>, Box<bincode::ErrorKind>>)
    ensures
        match r {
            Ok(bytes) => bytes@ == seq![value],
            Err(_) => false,
        },
{
    bincode::serialize(&value)
}

/// `bincode::serialize` on a `u32`: the four bytes of the value, least significant first.
/// The default options set no size limit and the bytes go into a `Vec`, so the call
/// does not fail.
#[verifier::external_body]
fn serialize_u32(value: u32) -> (r: Result<Vec<u8>, Box<bincode::ErrorKind>>)
    ensures
        match r {
            Ok(bytes) => bytes@ == spec_u32_to_le_bytes(value),
            Err(_) => false,
        },
{
    bincode::serialize(&value)
}

/// `bincode::serialize` on a `u64`: the eight bytes of the value, least significant first.
/// The call does not fail, for the reasons given at `serialize_u32`.
#[verifier::external_body]
fn serialize_u64(value: u64) -> (r: Result<Vec<u8>, Box<bincode::ErrorKind>>)
    ensures
        match r {
            Ok(bytes) => bytes@ == spec_u64_to_le_bytes(value),
            Err(_) => false,
        },
{
    bincode::serialize(&value)
}

/// `bincode::serialize` on a `u128`: the sixteen bytes of the value, least significant
/// first. The call does not fail, for the reasons given at `serialize_u32`.
#[verifier::external_body]
fn serialize_u128(value: u128) -> (r: Result<Vec<u8>, Box<bincode::ErrorKind>>)
    ensures
        match r {
            Ok(bytes) => bytes@ == spec_u128_to_le_bytes(value),
            Err(_) => false,
        },
{
    bincode::serialize(&value)
}

/// `bincode::serialize` on an array of 32 bytes: serde hands an array over as a tuple, so
/// the result is the 32 bytes themselves with nothing before them. The call does not
/// fail, for the reasons given at `serialize_u32`.
#[verifier::external_body]
fn serialize_hash(value: &types::Hash) -> (r: Result<Vec<u8>, Box<bincode::ErrorKind>>)
    ensures
        match r {
            Ok(bytes) => bytes@ == value@,
            Err(_) => false,
        },
{
    bincode::serialize(value)
}

/// `bincode::serialize` on a slice of bytes: the length as a `u64`, least significant
/// byte first, and then the bytes. The call does not fail, for the reasons given at
/// `serialize_u32`.
#[verifier::external_body]
fn serialize_bytes(value: &[u8]) -> (r: Result<Vec<u8>, Box<bincode::ErrorKind>>)
    ensures
        match r {
            Ok(bytes) => bytes@ == spec_u64_to_le_bytes(value@.len() as u64) + value@,
            Err(_) => false,
        },
{
    bincode::serialize(value)
}

/// `bincode::deserialize` to a `u8`: the first byte, whatever follows it; fails where no
/// byte is given.
#[verifier::external_body]
fn deserialize_u8(bytes: &[u8]) -> (r: Result<u8, Box<bincode::ErrorKind>>)
    ensures
        match r {
            Ok(v) => bytes@.len() >= 1 && v == bytes@[0],
            Err(_) => bytes@.len() < 1,
        },
{
    bincode::deserialize(bytes)
}

/// `bincode::deserialize` to a `u64`: reads the first eight bytes, least significant
/// first, and ignores what follows them; fails where fewer than eight bytes are given.
#[verifier::external_body]
fn deserialize_u64(bytes: &[u8]) -> (r: Result<u64, Box<bincode::ErrorKind>>)
    ensures
        match r {
            Ok(v) => bytes@.len() >= 8 && v == spec_u64_from_le_bytes(bytes@.subrange(0, 8)),
            Err(_) => bytes@.len() < 8,
        },
{
    bincode::deserialize(bytes)
}

/// `bincode::deserialize` to a `u32`: reads the first four bytes, least significant
/// first, and ignores what follows them; fails where fewer than four bytes are given.
#[verifier::external_body]
fn deserialize_u32(bytes: &[u8]) -> (r: Result<u32, Box<bincode::ErrorKind>>)
    ensures
        match r {
            Ok(v) => bytes@.len() >= 4 && v == spec_u32_from_le_bytes(bytes@.subrange(0, 4)),
            Err(_) => bytes@.len() < 4,
        },
{
    bincode::deserialize(bytes)
}

/// `bincode::deserialize` to a `u128`: reads the first sixteen bytes, least significant
/// first, and ignores what follows them; fails where fewer than sixteen bytes are given.
#[verifier::external_body]
fn deserialize_u128(bytes: &[u8]) -> (r: Result<u128, Box<bincode::ErrorKind>>)
    ensures
        match r {
            Ok(v) => bytes@.len() >= 16 && v == spec_u128_from_le_bytes(bytes@.subrange(0, 16)),
            Err(_) => bytes@.len() < 16,
        },
{
    bincode::deserialize(bytes)
}

/// `bincode::deserialize` to an array of 32 bytes: the first 32 bytes as they stand,
/// whatever follows them; fails where fewer than 32 bytes are given.
#[verifier::external_body]
fn deserialize_hash(bytes: &[u8]) -> (r: Result<types::Hash, Box<bincode::ErrorKind>>)
    ensures
        match r {
            Ok(v) => bytes@.len() >= 32 && v@ == bytes@.subrange(0, 32),
            Err(_) => bytes@.len() < 32,
        },
{
    bincode::deserialize(bytes)
}

/// The text of a bincode error, as its `Display` gives it.
#[verifier::external_body]
fn error_text(e: &bincode::ErrorKind) -> (text: String) {
    e.to_string()
}

/// The storage error for a value that bincode could not write, with bincode's text for it.
fn encode_failure(text: String) -> (r: StorageError)
    ensures
        r == StorageError::SerializationError(text),
{
    StorageError::SerializationError(text)
}

/// The storage error for bytes that bincode could not read, with bincode's text for it.
fn decode_failure(text: String) -> (r: StorageError)
    ensures
        r == StorageError::DeserializationError(text),
{
    StorageError::DeserializationError(text)
}

/// A value with a byte encoding, the one under which the store holds it.
pub trait Encode {
    /// The bytes that stand for the value.
    spec fn encoding(&self) -> Seq<u8>;

    /// Writes the value out. This succeeds for every value.
    fn encode(&self) -> (r: Result<Vec<u8>, StorageError>)
        ensures
            r matches Ok(bytes) && bytes@ == self.encoding(),
    ;
}

/// A value that can be read back from bytes. Reading takes what it needs from the front
/// and ignores the rest.
pub trait Decode: Sized {
    /// The value that the bytes start with, if they start with one.
    spec fn decoding(bytes: Seq<u8>) -> Option<Self>;

    /// Reads a value from the front of `bytes`.
    fn decode(bytes: &[u8]) -> (r: Result<Self, StorageError>)
        ensures
            match Self::decoding(bytes@) {
                Some(v) => r == Ok::<Self, StorageError>(v),
                None => r matches Err(StorageError::DeserializationError(_)),
            },
    ;
}

/// The array that holds the 32 bytes of `s`.
pub open spec fn hash_of(s: Seq<u8>) -> types::Hash {
    choose|h: types::Hash| h@ == s
}

/// An array is determined by the bytes it holds.
pub proof fn lemma_hash_of_view(h: types::Hash)
    ensures
        hash_of(h@) == h,
{
    let g = hash_of(h@);
    assert(g@ == h@);
    assert(g =~= h);
}

impl StoragePrefix {
    /// The number by which a prefix is told apart in a key.
    pub open spec fn index(&self) -> u32 {
        match self {
            StoragePrefix::Account => 0,
            StoragePrefix::Block => 1,
            StoragePrefix::Extrinsic => 2,
        }
    }
}

impl Encode for StoragePrefix {
    open spec fn encoding(&self) -> Seq<u8> {
        spec_u32_to_le_bytes(self.index())
    }

    fn encode(&self) -> (r: Result<Vec<u8>, StorageError>) {
        let index: u32 = match self {
            StoragePrefix::Account => 0,
            StoragePrefix::Block => 1,
            StoragePrefix::Extrinsic => 2,
        };
        match serialize_u32(index) {
            Ok(bytes) => Ok(bytes),
            Err(e) => Err(encode_failure(error_text(&*e))),
        }
    }
}

impl Encode for u8 {
    open spec fn encoding(&self) -> Seq<u8> {
        seq![*self]
    }

    fn encode(&self) -> (r: Result<Vec<u8>, StorageError>) {
        match serialize_u8(*self) {
            Ok(bytes) => Ok(bytes),
            Err(e) => Err(encode_failure(error_text(&*e))),
        }
    }
}

impl Decode for u8 {
    open spec fn decoding(bytes: Seq<u8>) -> Option<u8> {
        if bytes.len() >= 1 {
            Some(bytes[0])
        } else {
            None
        }
    }

    fn decode(bytes: &[u8]) -> (r: Result<u8, StorageError>) {
        match deserialize_u8(bytes) {
            Ok(v) => Ok(v),
            Err(e) => Err(decode_failure(error_text(&*e))),
        }
    }
}

impl Encode for u32 {
    open spec fn encoding(&self) -> Seq<u8> {
        spec_u32_to_le_bytes(*self)
    }

    fn encode(&self) -> (r: Result<Vec<u8>, StorageError>) {
        match serialize_u32(*self) {
            Ok(bytes) => Ok(bytes),
            Err(e) => Err(encode_failure(error_text(&*e))),
        }
    }
}

impl Decode for u32 {
    open spec fn decoding(bytes: Seq<u8>) -> Option<u32> {
        if bytes.len() >= 4 {
            Some(spec_u32_from_le_bytes(bytes.subrange(0, 4)))
        } else {
            None
        }
    }

    fn decode(bytes: &[u8]) -> (r: Result<u32, StorageError>) {
        match deserialize_u32(bytes) {
            Ok(v) => Ok(v),
            Err(e) => Err(decode_failure(error_text(&*e))),
        }
    }
}

impl Encode for u64 {
    open spec fn encoding(&self) -> Seq<u8> {
        spec_u64_to_le_bytes(*self)
    }

    fn encode(&self) -> (r: Result<Vec<u8>, StorageError>) {
        match serialize_u64(*self) {
            Ok(bytes) => Ok(bytes),
            Err(e) => Err(encode_failure(error_text(&*e))),
        }
    }
}

impl Decode for u64 {
    open spec fn decoding(bytes: Seq<u8>) -> Option<u64> {
        if bytes.len() >= 8 {
            Some(spec_u64_from_le_bytes(bytes.subrange(0, 8)))
        } else {
            None
        }
    }

    fn decode(bytes: &[u8]) -> (r: Result<u64, StorageError>) {
        match deserialize_u64(bytes) {
            Ok(v) => Ok(v),
            Err(e) => Err(decode_failure(error_text(&*e))),
        }
    }
}

impl Encode for u128 {
    open spec fn encoding(&self) -> Seq<u8> {
        spec_u128_to_le_bytes(*self)
    }

    fn encode(&self) -> (r: Result<Vec<u8>, StorageError>) {
        match serialize_u128(*self) {
            Ok(bytes) => Ok(bytes),
            Err(e) => Err(encode_failure(error_text(&*e))),
        }
    }
}

impl Decode for u128 {
    open spec fn decoding(bytes: Seq<u8>) -> Option<u128> {
        if bytes.len() >= 16 {
            Some(spec_u128_from_le_bytes(bytes.subrange(0, 16)))
        } else {
            None
        }
    }

    fn decode(bytes: &[u8]) -> (r: Result<u128, StorageError>) {
        match deserialize_u128(bytes) {
            Ok(v) => Ok(v),
            Err(e) => Err(decode_failure(error_text(&*e))),
        }
    }
}

impl Encode for Height {
    open spec fn encoding(&self) -> Seq<u8> {
        spec_u64_to_le_bytes(self.0)
    }

    fn encode(&self) -> (r: Result<Vec<u8>, StorageError>) {
        match serialize_u64(self.0) {
            Ok(bytes) => Ok(bytes),
            Err(e) => Err(encode_failure(error_text(&*e))),
        }
    }
}

impl Decode for Height {
    open spec fn decoding(bytes: Seq<u8>) -> Option<Height> {
        if bytes.len() >= 8 {
            Some(Height(spec_u64_from_le_bytes(bytes.subrange(0, 8))))
        } else {
            None
        }
    }

    fn decode(bytes: &[u8]) -> (r: Result<Height, StorageError>) {
        match deserialize_u64(bytes) {
            Ok(v) => Ok(Height(v)),
            Err(e) => Err(decode_failure(error_text(&*e))),
        }
    }
}

impl Encode for types::Hash {
    open spec fn encoding(&self) -> Seq<u8> {
        self@
    }

    fn encode(&self) -> (r: Result<Vec<u8>, StorageError>) {
        match serialize_hash(self) {
            Ok(bytes) => Ok(bytes),
            Err(e) => Err(encode_failure(error_text(&*e))),
        }
    }
}

impl Decode for types::Hash {
    open spec fn decoding(bytes: Seq<u8>) -> Option<types::Hash> {
        if bytes.len() >= 32 {
            Some(hash_of(bytes.subrange(0, 32)))
        } else {
            None
        }
    }

    fn decode(bytes: &[u8]) -> (r: Result<types::Hash, StorageError>) {
        match deserialize_hash(bytes) {
            Ok(v) => {
                proof {
                    lemma_hash_of_view(v);
                }
                Ok(v)
            },
            Err(e) => Err(decode_failure(error_text(&*e))),
        }
    }
}

impl Encode for () {
    open spec fn encoding(&self) -> Seq<u8> {
        Seq::empty()
    }

    fn encode(&self) -> (r: Result<Vec<u8>, StorageError>) {
        Ok(Vec::new())
    }
}

impl Decode for () {
    open spec fn decoding(bytes: Seq<u8>) -> Option<()> {
        Some(())
    }

    fn decode(bytes: &[u8]) -> (r: Result<(), StorageError>) {
        Ok(())
    }
}

impl Encode for Vec<u8> {
    open spec fn encoding(&self) -> Seq<u8> {
        spec_u64_to_le_bytes(self@.len() as u64) + self@
    }

    fn encode(&self) -> (r: Result<Vec<u8>, StorageError>) {
        match serialize_bytes(self.as_slice()) {
            Ok(bytes) => Ok(bytes),
            Err(e) => Err(encode_failure(error_text(&*e))),
        }
    }
}

impl Encode for &str {
    open spec fn encoding(&self) -> Seq<u8> {
        spec_u64_to_le_bytes(self.spec_bytes().len() as u64) + self.spec_bytes()
    }

    fn encode(&self) -> (r: Result<Vec<u8>, StorageError>) {
        match serialize_bytes(self.as_bytes()) {
            Ok(bytes) => Ok(bytes),
            Err(e) => Err(encode_failure(error_text(&*e))),
        }
    }
}

} // verus!
