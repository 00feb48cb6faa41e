use crate::types::StorageError;
use vstd::prelude::*;
use vstd::seq_lib::seq_to_set_is_finite;

verus! {

/// The hexadecimal digit that stands for `n`, for `n` below sixteen.
pub open spec fn hex_digit(n: int) -> char {
    seq!['0', '1', '2', '3', '4', '5', '6', '7', '8', '9', 'a', 'b', 'c', 'd', 'e', 'f'][n]
}

/// The bytes of `bytes` in hexadecimal, two lower-case digits for each.
pub open spec fn hex(bytes: Seq<u8>) -> Seq<char>
    decreases bytes.len(),
{
    if bytes.len() == 0 {
        Seq::empty()
    } else {
        hex(bytes.drop_last()).push(hex_digit(bytes.last() as int / 16)).push(
            hex_digit(bytes.last() as int % 16),
        )
    }
}

/// `hex::encode`: each byte as two lower-case hexadecimal digits, the high one first.
#[verifier::external_body]
fn hex_encode(bytes: &[u8]) -> (text: String)
    ensures
        text@ == hex(bytes@),
{
    hex::encode(bytes)
}

/// Whether two byte strings hold the same bytes.
pub(crate) fn same_bytes(a: &[u8], b: &[u8]) -> (same: bool)
    ensures
        same == (a@ == b@),
{
    if a.len() != b.len() {
        return false;
    }
    let mut i: usize = 0;
    while i < a.len()
        invariant
            i <= a.len(),
            a.len() == b.len(),
            a@.take(i as int) == b@.take(i as int),
        decreases a.len() - i,
    {
        if a[i] != b[i] {
            assert(a@[i as int] != b@[i as int]);
            return false;
        }
        assert(a@.take(i + 1) =~= a@.take(i as int).push(a@[i as int]));
        assert(b@.take(i + 1) =~= b@.take(i as int).push(b@[i as int]));
        i = i + 1;
    }
    assert(a@.take(i as int) =~= a@);
    assert(b@.take(i as int) =~= b@);
    true
}

/// One record of the store.
struct Entry {
    key: Vec<u8>,
    value: Vec<u8>,
}

/// The store: a finite mapping from byte strings to byte strings, held in memory.
pub struct State {
    entries: Vec<Entry>,
}

/// The position of `key` among `entries`, where it is there.
spec fn position(entries: Seq<Entry>, key: Seq<u8>) -> int {
    choose|i: int| 0 <= i < entries.len() && entries[i].key@ == key
}

/// Whether `key` is among `entries`.
spec fn holds(entries: Seq<Entry>, key: Seq<u8>) -> bool {
    exists|i: int| 0 <= i < entries.len() && entries[i].key@ == key
}

/// No key is the key of two of the entries.
spec fn distinct_keys(entries: Seq<Entry>) -> bool {
    forall|i: int, j: int|
        0 <= i < entries.len() && 0 <= j < entries.len() && entries[i].key@ == entries[j].key@
            ==> i == j
}

impl View for State {
    type V = Map<Seq<u8>, Seq<u8>>;

    /// What the store holds: the value of each key that was ever inserted, as it was
    /// inserted last.
    closed spec fn view(&self) -> Map<Seq<u8>, Seq<u8>> {
        Map::new(
            |key: Seq<u8>| holds(self.entries@, key),
            |key: Seq<u8>| self.entries@[position(self.entries@, key)].value@,
        )
    }
}

impl State {
    #[verifier::type_invariant]
    spec fn no_key_twice(self) -> bool {
        distinct_keys(self.entries@)
    }

    /// The keys of the store in the order in which they were first inserted.
    pub closed spec fn keys(&self) -> Seq<Seq<u8>> {
        Seq::new(self.entries@.len(), |i: int| self.entries@[i].key@)
    }

    /// The keys of a store are the keys under which it holds a value.
    pub proof fn lemma_keys(&self)
        ensures
            forall|key: Seq<u8>| self.keys().contains(key) <==> self@.contains_key(key),
    {
        let keys = self.keys();
        assert forall|key: Seq<u8>| keys.contains(key) <==> self@.contains_key(key) by {
            if keys.contains(key) {
                let i = choose|i: int| 0 <= i < keys.len() && keys[i] == key;
                assert(self.entries@[i].key@ == key);
            }
            if self@.contains_key(key) {
                let i = position(self.entries@, key);
                assert(keys[i] == key);
            }
        }
    }

    /// A store holds a value under finitely many keys.
    pub proof fn lemma_finite(&self)
        ensures
            self@.dom().finite(),
    {
        self.lemma_keys();
        seq_to_set_is_finite(self.keys());
        assert(self@.dom() =~= self.keys().to_set());
    }

    /// The index of the entry that holds `key`, if there is one.
    fn find(&self, key: &[u8]) -> (found: Option<usize>)
        ensures
            match found {
                Some(i) => i < self.entries@.len() && self.entries@[i as int].key@ == key@,
                None => !holds(self.entries@, key@),
            },
    {
        let mut i: usize = 0;
        while i < self.entries.len()
            invariant
                i <= self.entries.len(),
                forall|j: int| 0 <= j < i ==> self.entries@[j].key@ != key@,
            decreases self.entries.len() - i,
        {
            if same_bytes(self.entries[i].key.as_slice(), key) {
                return Some(i);
            }
            i = i + 1;
        }
        None
    }

    /// The value stored under `key`, if there is one.
    pub fn get(&self, key: Vec<u8>) -> (value: Option<&Vec<u8>>)
        ensures
            match value {
                Some(v) => self@.contains_key(key@) && v@ == self@[key@],
                None => !self@.contains_key(key@),
            },
    {
        proof {
            use_type_invariant(self);
        }
        match self.find(key.as_slice()) {
            Some(i) => {
                assert(holds(self.entries@, key@));
                assert(position(self.entries@, key@) == i);
                Some(&self.entries[i].value)
            },
            None => None,
        }
    }

    /// Stores `value` under `key`, in place of what was stored under it before. This
    /// always succeeds.
    pub fn insert(&mut self, key: Vec<u8>, value: Vec<u8>) -> (r: Result<(), StorageError>)
        ensures
            r is Ok,
            final(self)@ == old(self)@.insert(key@, value@),
    {
        proof {
            use_type_invariant(&*self);
        }
        let ghost before = self.entries@;
        let ghost k = key@;
        let ghost v = value@;
        let found = self.find(key.as_slice());
        let mut entries: Vec<Entry> = Vec::new();
        core::mem::swap(&mut self.entries, &mut entries);
        match found {
            Some(i) => {
                entries.set(i, Entry { key, value });
                core::mem::swap(&mut self.entries, &mut entries);
                proof {
                    let after = self.entries@;
                    assert forall|x: Seq<u8>| holds(after, x) <==> holds(before, x) || x == k by {
                        if holds(after, x) {
                            let j = position(after, x);
                            assert(before[j].key@ == x);
                        }
                        if holds(before, x) {
                            let j = position(before, x);
                            assert(after[j].key@ == x);
                        }
                        if x == k {
                            assert(after[i as int].key@ == x);
                        }
                    }
                    assert forall|x: Seq<u8>| holds(after, x) implies after[position(
                        after,
                        x,
                    )].value@ == (if x == k {
                        v
                    } else {
                        before[position(before, x)].value@
                    }) by {
                        let j = position(after, x);
                        if x == k {
                            assert(j == i);
                        } else {
                            assert(before[j].key@ == x);
                            assert(position(before, x) == j);
                        }
                    }
                    assert(self@ =~= old(self)@.insert(k, v));
                }
            },
            None => {
                entries.push(Entry { key, value });
                core::mem::swap(&mut self.entries, &mut entries);
                proof {
                    let after = self.entries@;
                    let n = before.len() as int;
                    assert forall|x: Seq<u8>| holds(after, x) <==> holds(before, x) || x == k by {
                        if holds(after, x) {
                            let j = position(after, x);
                            if j < n {
                                assert(before[j].key@ == x);
                            }
                        }
                        if holds(before, x) {
                            let j = position(before, x);
                            assert(after[j].key@ == x);
                        }
                        if x == k {
                            assert(after[n].key@ == x);
                        }
                    }
                    assert forall|x: Seq<u8>| holds(after, x) implies after[position(
                        after,
                        x,
                    )].value@ == (if x == k {
                        v
                    } else {
                        before[position(before, x)].value@
                    }) by {
                        let j = position(after, x);
                        if x == k {
                            assert(j == n);
                        } else {
                            assert(before[j].key@ == x);
                            assert(position(before, x) == j);
                        }
                    }
                    assert(self@ =~= old(self)@.insert(k, v));
                }
            },
        }
        Ok(())
    }

    /// A store that holds nothing.
    pub fn new() -> (state: Self)
        ensures
            state@ == Map::<Seq<u8>, Seq<u8>>::empty(),
    {
        let state = State { entries: Vec::new() };
        assert(state@ =~= Map::<Seq<u8>, Seq<u8>>::empty());
        state
    }

    /// The number of keys under which the store holds a value.
    pub fn len(&self) -> (n: usize)
        ensures
            n == self.keys().len(),
    {
        self.entries.len()
    }

    /// Every record of the store as a pair of texts, the key and the value in
    /// hexadecimal, in the order of `keys`.
    pub fn hex_entries(&self) -> (lines: Vec<(String, String)>)
        ensures
            lines@.len() == self.keys().len(),
            self.keys().no_duplicates(),
            forall|i: int|
                0 <= i < lines@.len() ==> self@.contains_key(self.keys()[i]) && (#[trigger] lines@[i]).0@
                    == hex(self.keys()[i]) && lines@[i].1@ == hex(self@[self.keys()[i]]),
    {
        proof {
            use_type_invariant(self);
        }
        let mut lines: Vec<(String, String)> = Vec::new();
        let mut i: usize = 0;
        while i < self.entries.len()
            invariant
                i <= self.entries.len(),
                lines@.len() == i,
                distinct_keys(self.entries@),
                forall|j: int|
                    0 <= j < i ==> (#[trigger] lines@[j]).0@ == hex(self.entries@[j].key@)
                        && lines@[j].1@ == hex(self.entries@[j].value@),
            decreases self.entries.len() - i,
        {
            let key = hex_encode(self.entries[i].key.as_slice());
            let value = hex_encode(self.entries[i].value.as_slice());
            lines.push((key, value));
            i = i + 1;
        }
        proof {
            assert forall|j: int| 0 <= j < lines@.len() implies self@.contains_key(
                self.keys()[j],
            ) && self@[self.keys()[j]] == self.entries@[j].value@ by {
                assert(holds(self.entries@, self.entries@[j].key@));
                assert(position(self.entries@, self.entries@[j].key@) == j);
            }
        }
        lines
    }
}

} // verus!
