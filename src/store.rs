//! The in-process Capability Store: a mapping from byte keys to byte values.
use vstd::prelude::*;
use vstd::slice::slice_to_vec;

verus! {

/// What `get` yields for `key` under the convention that a missing key reads
/// as the empty byte sequence.
pub open spec fn lookup(m: Map<Seq<u8>, Seq<u8>>, key: Seq<u8>) -> Seq<u8> {
    if m.contains_key(key) {
        m[key]
    } else {
        Seq::empty()
    }
}

/// The store after each `(key, value)` of `writes` is put, in order.
pub open spec fn apply_writes(m: Map<Seq<u8>, Seq<u8>>, writes: Seq<(Seq<u8>, Seq<u8>)>) -> Map<
    Seq<u8>,
    Seq<u8>,
>
    decreases writes.len(),
{
    if writes.len() == 0 {
        m
    } else {
        apply_writes(m, writes.drop_last()).insert(writes.last().0, writes.last().1)
    }
}

/// Byte-for-byte equality of two byte sequences.
pub fn bytes_equal(a: &[u8], b: &[u8]) -> (r: bool)
    ensures
        r == (a@ == b@),
{
    if a.len() != b.len() {
        return false;
    }
    let mut i: usize = 0;
    while i < a.len()
        invariant
            a@.len() == b@.len(),
            0 <= i <= a@.len(),
            forall|j: int| 0 <= j < i ==> a@[j] == b@[j],
        decreases a@.len() - i,
    {
        if a[i] != b[i] {
            return false;
        }
        i = i + 1;
    }
    assert(a@ =~= b@);
    true
}

/// An ephemeral key-value store held in process memory; it lives as long as
/// the request that created it.
pub struct MemoryStore {
    entries: Vec<(Vec<u8>, Vec<u8>)>,
    contents: Ghost<Map<Seq<u8>, Seq<u8>>>,
}

impl View for MemoryStore {
    type V = Map<Seq<u8>, Seq<u8>>;

    closed spec fn view(&self) -> Map<Seq<u8>, Seq<u8>> {
        self.contents@
    }
}

impl MemoryStore {
    /// The entries hold each key once, and hold exactly the mapping of the view.
    #[verifier::type_invariant]
    spec fn wf(&self) -> bool {
        entries_match(self.entries@, self.contents@)
    }

    /// An empty store.
    pub fn new() -> (s: MemoryStore)
        ensures
            s@ == Map::<Seq<u8>, Seq<u8>>::empty(),
    {
        MemoryStore { entries: Vec::new(), contents: Ghost(Map::empty()) }
    }

    /// The value under `key`, or `None` where no value was put.
    pub fn get_item(&self, key: &[u8]) -> (r: Option<Vec<u8>>)
        ensures
            r is Some <==> self@.contains_key(key@),
            r matches Some(v) ==> v@ == self@[key@],
    {
        proof {
            use_type_invariant(self);
        }
        match position(&self.entries, Ghost(self.contents@), key) {
            Some(i) => {
                assert(self.contents@.contains_key(self.entries@[i as int].0@));
                Some(slice_to_vec(self.entries[i].1.as_slice()))
            },
            None => None,
        }
    }

    /// The value under `key`, the empty sequence where no value was put.
    pub fn get_or_empty(&self, key: &[u8]) -> (r: Vec<u8>)
        ensures
            r@ == lookup(self@, key@),
    {
        match self.get_item(key) {
            Some(v) => v,
            None => Vec::new(),
        }
    }

    /// Puts `value` under `key`, replacing what was there.
    pub fn put_item(&mut self, key: Vec<u8>, value: Vec<u8>)
        ensures
            final(self)@ == old(self)@.insert(key@, value@),
    {
        let mut taken = MemoryStore::new();
        std::mem::swap(self, &mut taken);
        proof {
            use_type_invariant(&taken);
        }
        let MemoryStore { mut entries, contents } = taken;
        let ghost old_entries = entries@;
        let ghost new_contents = contents@.insert(key@, value@);
        let ghost k0 = key@;
        match position(&entries, Ghost(contents@), key.as_slice()) {
            Some(i) => {
                entries.set(i, (key, value));
                assert forall|k: Seq<u8>| #[trigger] new_contents.contains_key(k) implies exists|
                    j: int,
                | 0 <= j < entries@.len() && #[trigger] entries@[j].0@ == k by {
                    if k != k0 {
                        let j = choose|j: int|
                            0 <= j < old_entries.len() && #[trigger] old_entries[j].0@ == k;
                        assert(entries@[j].0@ == k);
                    } else {
                        assert(entries@[i as int].0@ == k);
                    }
                }
            },
            None => {
                entries.push((key, value));
                let ghost n = old_entries.len() as int;
                assert(entries@[n].0@ == k0);
                assert forall|k: Seq<u8>| #[trigger] new_contents.contains_key(k) implies exists|
                    j: int,
                | 0 <= j < entries@.len() && #[trigger] entries@[j].0@ == k by {
                    if k != k0 {
                        let j = choose|j: int|
                            0 <= j < old_entries.len() && #[trigger] old_entries[j].0@ == k;
                        assert(entries@[j].0@ == k);
                    } else {
                        assert(entries@[n].0@ == k);
                    }
                }
            },
        }
        *self = MemoryStore { entries, contents: Ghost(new_contents) };
    }
}

/// `entries` hold each key once, and hold exactly the mapping `contents`.
spec fn entries_match(entries: Seq<(Vec<u8>, Vec<u8>)>, contents: Map<Seq<u8>, Seq<u8>>) -> bool {
    &&& forall|i: int, j: int| 0 <= i < j < entries.len() ==> entries[i].0@ != entries[j].0@
    &&& forall|i: int|
        0 <= i < entries.len() ==> {
            &&& #[trigger] contents.contains_key(entries[i].0@)
            &&& contents[entries[i].0@] == entries[i].1@
        }
    &&& forall|k: Seq<u8>|
        #[trigger] contents.contains_key(k) ==> exists|i: int|
            0 <= i < entries.len() && #[trigger] entries[i].0@ == k
}

/// The position of `key` among `entries`, if it is there.
fn position(
    entries: &Vec<(Vec<u8>, Vec<u8>)>,
    contents: Ghost<Map<Seq<u8>, Seq<u8>>>,
    key: &[u8],
) -> (r: Option<usize>)
    requires
        entries_match(entries@, contents@),
    ensures
        r matches Some(i) ==> i < entries@.len() && entries@[i as int].0@ == key@,
        r is None ==> !contents@.contains_key(key@),
{
    let mut i: usize = 0;
    while i < entries.len()
        invariant
            entries_match(entries@, contents@),
            0 <= i <= entries@.len(),
            forall|j: int| 0 <= j < i ==> entries@[j].0@ != key@,
        decreases entries@.len() - i,
    {
        if bytes_equal(entries[i].0.as_slice(), key) {
            return Some(i);
        }
        i = i + 1;
    }
    None
}

/// A `get` after a `put` of the same key yields the value put.
pub proof fn lemma_put_then_get(m: Map<Seq<u8>, Seq<u8>>, key: Seq<u8>, value: Seq<u8>)
    ensures
        lookup(m.insert(key, value), key) == value,
{
}

/// A key that no write of a fresh store touched reads as the empty sequence.
pub proof fn lemma_unwritten_key_reads_empty(writes: Seq<(Seq<u8>, Seq<u8>)>, key: Seq<u8>)
    requires
        forall|i: int| 0 <= i < writes.len() ==> #[trigger] writes[i].0 != key,
    ensures
        lookup(apply_writes(Map::empty(), writes), key) == Seq::<u8>::empty(),
    decreases writes.len(),
{
    if writes.len() > 0 {
        let rest = writes.drop_last();
        assert forall|i: int| 0 <= i < rest.len() implies #[trigger] rest[i].0 != key by {
            assert(rest[i] == writes[i]);
        }
        lemma_unwritten_key_reads_empty(rest, key);
        assert(writes.last() == writes[writes.len() - 1]);
    }
}

} // verus!
