use crate::codec::{hash_of, lemma_hash_of_view, Decode, Encode};
use crate::extrinsics::{
    lemma_transaction_round_trip, transaction_decoding, transaction_encoding, transaction_length,
    SignedTransaction,
};
use crate::types;
use crate::types::{
    u64_to_string, Get, Height, MaxBlockWeight, StorageError, TransactionType,
};
use vstd::bytes::{
    lemma_auto_spec_u64_to_from_le_bytes, spec_u64_from_le_bytes, spec_u64_to_le_bytes,
};
use vstd::prelude::*;
use vstd::slice::slice_subrange;
use vstd::string::StringExecFns;

verus! {

/// The BLAKE2s digest of 256 bits of `data`.
pub uninterp spec fn blake2s256(data: Seq<u8>) -> Seq<u8>;

/// `Blake2s256::digest` of the blake2 crate: the BLAKE2s-256 digest of `data`, which has
/// 32 bytes.
#[verifier::external_body]
fn blake2s256_digest(data: &[u8]) -> (digest: [u8; 32])
    ensures
        digest@ == blake2s256(data@),
{
    <blake2::Blake2s256 as blake2::Digest>::digest(data).into()
}

/// Appends `bytes` to `out`.
fn push_all(out: &mut Vec<u8>, bytes: &[u8])
    ensures
        final(out)@ == old(out)@ + bytes@,
{
    let mut i: usize = 0;
    assert(bytes@.take(0) =~= Seq::<u8>::empty());
    assert(out@ + Seq::<u8>::empty() =~= out@);
    while i < bytes.len()
        invariant
            i <= bytes.len(),
            out@ == old(out)@ + bytes@.take(i as int),
        decreases bytes.len() - i,
    {
        out.push(bytes[i]);
        assert(old(out)@ + bytes@.take(i + 1) =~= (old(out)@ + bytes@.take(i as int)).push(
            bytes@[i as int],
        ));
        i = i + 1;
    }
    assert(bytes@.take(i as int) =~= bytes@);
}

/// What a block says of itself apart from its extrinsics.
#[derive(Debug, Copy, Clone, PartialEq, Eq)]
pub struct Header {
    pub block_height: Height,
    pub parent_hash: types::Hash,
    /// Not used yet.
    pub state_root: types::Hash,
    /// Not used yet.
    pub extrinsics_root: types::Hash,
    /// The sum of the weights of the extrinsics of the block.
    pub block_weight: u64,
}

impl Header {
    /// The bytes that the hash of a block is taken of: height, parent hash, state root and
    /// extrinsics root. Neither the weight nor the extrinsics are among them.
    pub open spec fn preimage(&self) -> Seq<u8> {
        spec_u64_to_le_bytes(self.block_height.0) + self.parent_hash@ + self.state_root@
            + self.extrinsics_root@
    }

    /// The hash of a block with this header.
    pub open spec fn hash_value(&self) -> types::Hash {
        hash_of(blake2s256(self.preimage()))
    }
}

/// The bytes that stand for a header: its five fields, each encoded, in the order of
/// their declaration.
pub open spec fn header_encoding(header: Header) -> Seq<u8> {
    header.preimage() + spec_u64_to_le_bytes(header.block_weight)
}

impl Encode for Header {
    open spec fn encoding(&self) -> Seq<u8> {
        header_encoding(*self)
    }

    fn encode(&self) -> (r: Result<Vec<u8>, StorageError>) {
        let mut bytes = match self.block_height.encode() {
            Ok(b) => b,
            Err(e) => { return Err(e); },
        };
        let mut parent = match self.parent_hash.encode() {
            Ok(b) => b,
            Err(e) => { return Err(e); },
        };
        bytes.append(&mut parent);
        let mut state = match self.state_root.encode() {
            Ok(b) => b,
            Err(e) => { return Err(e); },
        };
        bytes.append(&mut state);
        let mut extrinsics = match self.extrinsics_root.encode() {
            Ok(b) => b,
            Err(e) => { return Err(e); },
        };
        bytes.append(&mut extrinsics);
        let mut weight = match self.block_weight.encode() {
            Ok(b) => b,
            Err(e) => { return Err(e); },
        };
        bytes.append(&mut weight);
        Ok(bytes)
    }
}

/// The header that `bytes` start with, if they are long enough to hold one.
pub open spec fn header_decoding(bytes: Seq<u8>) -> Option<Header> {
    if bytes.len() >= 112 {
        Some(
            Header {
                block_height: Height(spec_u64_from_le_bytes(bytes.subrange(0, 8))),
                parent_hash: hash_of(bytes.subrange(8, 40)),
                state_root: hash_of(bytes.subrange(40, 72)),
                extrinsics_root: hash_of(bytes.subrange(72, 104)),
                block_weight: spec_u64_from_le_bytes(bytes.subrange(104, 112)),
            },
        )
    } else {
        None
    }
}

/// A header is read back from its encoding, whatever follows the encoding.
pub proof fn lemma_header_round_trip(header: Header, rest: Seq<u8>)
    ensures
        header_encoding(header).len() == 112,
        header_decoding(header_encoding(header) + rest) == Some(header),
{
    lemma_auto_spec_u64_to_from_le_bytes();
    let bytes = header_encoding(header) + rest;
    assert(bytes.subrange(0, 8) =~= spec_u64_to_le_bytes(header.block_height.0));
    assert(bytes.subrange(8, 40) =~= header.parent_hash@);
    assert(bytes.subrange(40, 72) =~= header.state_root@);
    assert(bytes.subrange(72, 104) =~= header.extrinsics_root@);
    assert(bytes.subrange(104, 112) =~= spec_u64_to_le_bytes(header.block_weight));
    lemma_hash_of_view(header.parent_hash);
    lemma_hash_of_view(header.state_root);
    lemma_hash_of_view(header.extrinsics_root);
}

impl Decode for Header {
    open spec fn decoding(bytes: Seq<u8>) -> Option<Header> {
        header_decoding(bytes)
    }

    fn decode(bytes: &[u8]) -> (r: Result<Header, StorageError>) {
        let block_height = match <Height as Decode>::decode(bytes) {
            Ok(height) => height,
            Err(e) => { return Err(e); },
        };
        let after_height = slice_subrange(bytes, 8, bytes.len());
        let parent_hash = match <types::Hash as Decode>::decode(after_height) {
            Ok(hash) => hash,
            Err(e) => { return Err(e); },
        };
        let after_parent = slice_subrange(after_height, 32, after_height.len());
        let state_root = match <types::Hash as Decode>::decode(after_parent) {
            Ok(hash) => hash,
            Err(e) => { return Err(e); },
        };
        let after_state = slice_subrange(after_parent, 32, after_parent.len());
        let extrinsics_root = match <types::Hash as Decode>::decode(after_state) {
            Ok(hash) => hash,
            Err(e) => { return Err(e); },
        };
        let after_roots = slice_subrange(after_state, 32, after_state.len());
        let block_weight = match <u64 as Decode>::decode(after_roots) {
            Ok(weight) => weight,
            Err(e) => { return Err(e); },
        };
        assert(after_height@.subrange(0, 32) == bytes@.subrange(8, 40));
        assert(after_parent@.subrange(0, 32) == bytes@.subrange(40, 72));
        assert(after_state@.subrange(0, 32) == bytes@.subrange(72, 104));
        assert(after_roots@.subrange(0, 8) == bytes@.subrange(104, 112));
        Ok(Header { block_height, parent_hash, state_root, extrinsics_root, block_weight })
    }
}

/// The encodings of the transactions of `txs`, one after the other.
pub open spec fn encoding_of_all(txs: Seq<SignedTransaction>) -> Seq<u8>
    decreases txs.len(),
{
    if txs.len() == 0 {
        Seq::empty()
    } else {
        encoding_of_all(txs.drop_last()) + transaction_encoding(txs.last().transaction_type)
    }
}

/// The sum of the weights of the transactions of `txs`.
pub open spec fn total_weight(txs: Seq<SignedTransaction>) -> nat
    decreases txs.len(),
{
    if txs.len() == 0 {
        0
    } else {
        total_weight(txs.drop_last()) + txs.last().spec_weight() as nat
    }
}

/// A block: a header and the extrinsics in the order in which they are applied.
#[derive(Debug, PartialEq, Eq)]
pub struct Block {
    pub header: Header,
    pub extrinsics: Vec<SignedTransaction>,
}

impl Clone for Block {
    fn clone(&self) -> (copy: Self)
        ensures
            copy.header == self.header,
            copy.extrinsics@ == self.extrinsics@,
    {
        let mut extrinsics: Vec<SignedTransaction> = Vec::new();
        let mut i: usize = 0;
        while i < self.extrinsics.len()
            invariant
                i <= self.extrinsics.len(),
                extrinsics@ == self.extrinsics@.take(i as int),
            decreases self.extrinsics.len() - i,
        {
            extrinsics.push(self.extrinsics[i]);
            assert(self.extrinsics@.take(i + 1) =~= self.extrinsics@.take(i as int).push(
                self.extrinsics@[i as int],
            ));
            i = i + 1;
        }
        assert(self.extrinsics@.take(i as int) =~= self.extrinsics@);
        Block { header: self.header, extrinsics }
    }
}

impl Block {
    /// The block is as the builder leaves it: its weight is the sum of the weights of its
    /// extrinsics and within the limit.
    pub open spec fn well_formed(&self) -> bool {
        &&& self.header.block_weight == total_weight(self.extrinsics@)
        &&& self.header.block_weight <= MaxBlockWeight::value()
    }
}

/// The bytes that stand for a block: the header, the number of extrinsics in eight bytes,
/// least significant first, and the extrinsics.
pub open spec fn block_encoding(header: Header, extrinsics: Seq<SignedTransaction>) -> Seq<u8> {
    header_encoding(header) + spec_u64_to_le_bytes(extrinsics.len() as u64) + encoding_of_all(
        extrinsics,
    )
}

impl Encode for Block {
    open spec fn encoding(&self) -> Seq<u8> {
        block_encoding(self.header, self.extrinsics@)
    }

    fn encode(&self) -> (r: Result<Vec<u8>, StorageError>) {
        let mut bytes = match self.header.encode() {
            Ok(b) => b,
            Err(e) => { return Err(e); },
        };
        let count: u64 = self.extrinsics.len() as u64;
        let mut length = match count.encode() {
            Ok(b) => b,
            Err(e) => { return Err(e); },
        };
        bytes.append(&mut length);
        let ghost front = bytes@;
        let mut i: usize = 0;
        while i < self.extrinsics.len()
            invariant
                i <= self.extrinsics.len(),
                bytes@ == front + encoding_of_all(self.extrinsics@.take(i as int)),
            decreases self.extrinsics.len() - i,
        {
            let mut item = match self.extrinsics[i].encode() {
                Ok(b) => b,
                Err(e) => { return Err(e); },
            };
            bytes.append(&mut item);
            proof {
                let next = self.extrinsics@.take(i + 1);
                assert(next.drop_last() =~= self.extrinsics@.take(i as int));
                assert(next.last() == self.extrinsics@[i as int]);
            }
            i = i + 1;
        }
        assert(self.extrinsics@.take(i as int) =~= self.extrinsics@);
        Ok(bytes)
    }
}

/// The first `count` transactions that `bytes` hold one after the other, if they hold so
/// many.
pub open spec fn extrinsics_decoding(bytes: Seq<u8>, count: nat) -> Option<
    Seq<SignedTransaction>,
>
    decreases count,
{
    if count == 0 {
        Some(Seq::empty())
    } else {
        match transaction_decoding(bytes) {
            None => None,
            Some(tx) => match extrinsics_decoding(
                bytes.skip(transaction_length(tx) as int),
                (count - 1) as nat,
            ) {
                None => None,
                Some(rest) => Some(seq![SignedTransaction { transaction_type: tx }] + rest),
            },
        }
    }
}

/// The header and the extrinsics of the block that `bytes` start with, if they start
/// with one: a header, the number of extrinsics, and as many extrinsics. A number of
/// extrinsics that no vector can hold on this machine makes no block.
pub open spec fn block_decoding(bytes: Seq<u8>) -> Option<(Header, Seq<SignedTransaction>)> {
    match header_decoding(bytes) {
        None => None,
        Some(header) => if bytes.len() < 120 {
            None
        } else {
            let count = spec_u64_from_le_bytes(bytes.subrange(112, 120));
            if count > usize::MAX {
                None
            } else {
                match extrinsics_decoding(bytes.skip(120), count as nat) {
                    None => None,
                    Some(extrinsics) => Some((header, extrinsics)),
                }
            }
        },
    }
}

/// The encoding of a run of transactions starts with that of the first.
pub proof fn lemma_encoding_of_all_front(first: SignedTransaction, rest: Seq<SignedTransaction>)
    ensures
        encoding_of_all(seq![first] + rest) == transaction_encoding(first.transaction_type)
            + encoding_of_all(rest),
    decreases rest.len(),
{
    let all = seq![first] + rest;
    if rest.len() == 0 {
        assert(all.drop_last() =~= Seq::<SignedTransaction>::empty());
        assert(all.last() == first);
        assert(encoding_of_all(rest) =~= Seq::<u8>::empty());
        assert(encoding_of_all(all.drop_last()) =~= Seq::<u8>::empty());
        assert(encoding_of_all(all) =~= transaction_encoding(first.transaction_type));
    } else {
        assert(all.drop_last() =~= seq![first] + rest.drop_last());
        assert(all.last() == rest.last());
        lemma_encoding_of_all_front(first, rest.drop_last());
        assert(encoding_of_all(all) =~= transaction_encoding(first.transaction_type)
            + encoding_of_all(rest));
    }
}

/// Transactions are read back from their encodings, whatever follows.
pub proof fn lemma_extrinsics_round_trip(extrinsics: Seq<SignedTransaction>, rest: Seq<u8>)
    ensures
        extrinsics_decoding(encoding_of_all(extrinsics) + rest, extrinsics.len()) == Some(
            extrinsics,
        ),
    decreases extrinsics.len(),
{
    if extrinsics.len() > 0 {
        let first = extrinsics[0];
        let tail = extrinsics.drop_first();
        assert(extrinsics =~= seq![first] + tail);
        lemma_encoding_of_all_front(first, tail);
        let head = transaction_encoding(first.transaction_type);
        let bytes = encoding_of_all(extrinsics) + rest;
        assert(bytes =~= head + (encoding_of_all(tail) + rest));
        lemma_transaction_round_trip(first.transaction_type, encoding_of_all(tail) + rest);
        assert(bytes.skip(transaction_length(first.transaction_type) as int) =~= encoding_of_all(
            tail,
        ) + rest);
        lemma_extrinsics_round_trip(tail, rest);
        assert(extrinsics_decoding(bytes, extrinsics.len()) == Some(seq![first] + tail));
    }
}

/// A block that a vector can hold is read back from its encoding, whatever follows.
pub proof fn lemma_block_round_trip(
    header: Header,
    extrinsics: Seq<SignedTransaction>,
    rest: Seq<u8>,
)
    requires
        extrinsics.len() <= usize::MAX,
    ensures
        block_decoding(block_encoding(header, extrinsics) + rest) == Some((header, extrinsics)),
{
    lemma_auto_spec_u64_to_from_le_bytes();
    let count = spec_u64_to_le_bytes(extrinsics.len() as u64);
    let body = encoding_of_all(extrinsics) + rest;
    let bytes = block_encoding(header, extrinsics) + rest;
    assert(bytes =~= header_encoding(header) + (count + body));
    lemma_header_round_trip(header, count + body);
    assert(bytes.subrange(112, 120) =~= count);
    assert(bytes.skip(120) =~= body);
    lemma_extrinsics_round_trip(extrinsics, rest);
}

impl Block {
    /// Reads a block from the front of `bytes`: `DeserializationError` where they do not
    /// start with a block.
    pub fn decode(bytes: &[u8]) -> (r: Result<Block, StorageError>)
        ensures
            match block_decoding(bytes@) {
                Some((header, extrinsics)) => r matches Ok(block) && block.header == header
                    && block.extrinsics@ == extrinsics,
                None => r matches Err(StorageError::DeserializationError(_)),
            },
    {
        let header = match <Header as Decode>::decode(bytes) {
            Ok(header) => header,
            Err(e) => { return Err(e); },
        };
        let after_header = slice_subrange(bytes, 112, bytes.len());
        let count = match <u64 as Decode>::decode(after_header) {
            Ok(count) => count,
            Err(e) => { return Err(e); },
        };
        assert(after_header@.subrange(0, 8) == bytes@.subrange(112, 120));
        if count > usize::MAX as u64 {
            return Err(StorageError::DeserializationError("too many extrinsics".to_owned()));
        }
        let mut rest = slice_subrange(bytes, 120, bytes.len());
        let ghost start = rest@;
        assert(start == bytes@.skip(120));
        let mut extrinsics: Vec<SignedTransaction> = Vec::new();
        let mut i: u64 = 0;
        proof {
            match extrinsics_decoding(start, count as nat) {
                Some(all) => {
                    assert(Seq::<SignedTransaction>::empty() + all =~= all);
                },
                None => {},
            }
        }
        while i < count
            invariant
                i <= count,
                extrinsics@.len() == i,
                block_decoding(bytes@) == (match extrinsics_decoding(start, count as nat) {
                    Some(all) => Some((header, all)),
                    None => None::<(Header, Seq<SignedTransaction>)>,
                }),
                extrinsics_decoding(start, count as nat) == (match extrinsics_decoding(
                    rest@,
                    (count - i) as nat,
                ) {
                    Some(more) => Some(extrinsics@ + more),
                    None => None::<Seq<SignedTransaction>>,
                }),
            decreases count - i,
        {
            assert(extrinsics_decoding(rest@, (count - i) as nat) is Some ==> transaction_decoding(
                rest@,
            ) is Some);
            let extrinsic = match <SignedTransaction as Decode>::decode(rest) {
                Ok(extrinsic) => extrinsic,
                Err(e) => { return Err(e); },
            };
            let length: usize = match extrinsic.transaction_type {
                TransactionType::Transfer { .. } => 84,
                _ => 52,
            };
            let ghost before = rest@;
            let ghost done = extrinsics@;
            rest = slice_subrange(rest, length, rest.len());
            extrinsics.push(extrinsic);
            proof {
                assert(rest@ == before.skip(length as int));
                match extrinsics_decoding(rest@, (count - i - 1) as nat) {
                    Some(more) => {
                        assert(done + (seq![extrinsic] + more) =~= done.push(extrinsic) + more);
                    },
                    None => {},
                }
            }
            i = i + 1;
        }
        assert(extrinsics@ + Seq::<SignedTransaction>::empty() =~= extrinsics@);
        Ok(Block { header, extrinsics })
    }
}

/// What the chain asks of a block.
pub trait BlockTrait {
    /// The extrinsics of the block, in order.
    spec fn extrinsics_view(&self) -> Seq<SignedTransaction>;

    /// The header of the block.
    spec fn header_view(&self) -> Header;

    /// The extrinsics of the block, in order.
    fn extrinsics(&self) -> (txs: &Vec<SignedTransaction>)
        ensures
            txs@ == self.extrinsics_view(),
    ;

    /// The hash of the block: the BLAKE2s-256 digest of height, parent hash, state root
    /// and extrinsics root. Two blocks that differ in their extrinsics alone have the same
    /// hash.
    fn hash(&self) -> (h: [u8; 32])
        ensures
            h@ == blake2s256(self.header_view().preimage()),
            h == self.header_view().hash_value(),
    ;

    /// Appends `extrinsic` if its weight keeps the block within the weight limit, and
    /// leaves the block as it is otherwise.
    fn add_extrinsic(&mut self, extrinsic: SignedTransaction) -> (r: Result<(), String>)
        ensures
            old(self).header_view().block_weight + extrinsic.spec_weight()
                <= MaxBlockWeight::value() ==> {
                &&& r is Ok
                &&& final(self).extrinsics_view() == old(self).extrinsics_view().push(extrinsic)
                &&& final(self).header_view() == (Header {
                    block_weight: (old(self).header_view().block_weight
                        + extrinsic.spec_weight()) as u64,
                    ..old(self).header_view()
                })
            },
            old(self).header_view().block_weight + extrinsic.spec_weight()
                > MaxBlockWeight::value() ==> {
                &&& r matches Err(text)
                &&& text@ == weight_exceeded_text(
                    MaxBlockWeight::value(),
                    old(self).header_view().block_weight,
                    extrinsic.spec_weight(),
                )
                &&& final(self).extrinsics_view() == old(self).extrinsics_view()
                &&& final(self).header_view() == old(self).header_view()
            },
    ;

    /// Whether an extrinsic of the given weight still fits: whether the weight of the
    /// block and `weight` together stay within the limit. Meeting the limit exactly fits.
    fn can_add_extrinsic(&self, weight: u64) -> (fits: bool)
        ensures
            fits == (self.header_view().block_weight + weight <= MaxBlockWeight::value()),
    ;
}

/// Puts the message of a refused extrinsic together: the limit, the weight of the block
/// and the weight of the extrinsic as decimal numerals.
fn weight_exceeded(limit: u64, current: u64, added: u64) -> (text: String)
    ensures
        text@ == weight_exceeded_text(limit, current, added),
{
    let mut text = "Block weight exceeded. Max allowed: ".to_owned();
    text.append(u64_to_string(limit).as_str());
    text.append(", Current: ");
    text.append(u64_to_string(current).as_str());
    text.append(", New Extrinsic: ");
    text.append(u64_to_string(added).as_str());
    text
}

/// The message that tells why an extrinsic was refused.
pub open spec fn weight_exceeded_text(limit: u64, current: u64, added: u64) -> Seq<char> {
    "Block weight exceeded. Max allowed: "@ + types::decimal(limit as nat) + ", Current: "@
        + types::decimal(current as nat) + ", New Extrinsic: "@ + types::decimal(added as nat)
}

impl BlockTrait for Block {
    open spec fn extrinsics_view(&self) -> Seq<SignedTransaction> {
        self.extrinsics@
    }

    open spec fn header_view(&self) -> Header {
        self.header
    }

    fn extrinsics(&self) -> (txs: &Vec<SignedTransaction>) {
        &self.extrinsics
    }

    fn hash(&self) -> (h: [u8; 32]) {
        let mut preimage: Vec<u8> = self.header.block_height.into();
        push_all(&mut preimage, self.header.parent_hash.as_slice());
        push_all(&mut preimage, self.header.state_root.as_slice());
        push_all(&mut preimage, self.header.extrinsics_root.as_slice());
        let digest = blake2s256_digest(preimage.as_slice());
        proof {
            lemma_hash_of_view(digest);
        }
        digest
    }

    fn can_add_extrinsic(&self, weight: u64) -> (fits: bool) {
        match self.header.block_weight.checked_add(weight) {
            Some(sum) => sum <= MaxBlockWeight::get(),
            None => false,
        }
    }

    fn add_extrinsic(&mut self, extrinsic: SignedTransaction) -> (r: Result<(), String>)
        ensures
            old(self).well_formed() ==> final(self).well_formed(),
    {
        proof {
            assert(self.extrinsics@.push(extrinsic).drop_last() =~= self.extrinsics@);
        }
        if self.can_add_extrinsic(extrinsic.weight()) {
            self.extrinsics.push(extrinsic);
            self.header.block_weight = self.header.block_weight + extrinsic.weight();
            Ok(())
        } else {
            Err(weight_exceeded(MaxBlockWeight::get(), self.header.block_weight, extrinsic.weight()))
        }
    }
}

} // verus!
