//! Content addressing: bodies stored under their BLAKE3 hash, so that a
//! payload can carry a 32-byte reference in place of a repeated body.
use vstd::prelude::*;

verus! {

/// The 32-byte BLAKE3 hash of these bytes, as `blake3::hash` computes it.
pub uninterp spec fn spec_blake3(data: Seq<u8>) -> Seq<u8>;

/// Calls `blake3::hash` on `data` and returns its 32 bytes. The contract
/// names the result; the hash function itself is not restated.
#[verifier::external_body]
pub(crate) fn blake3_hash(data: &[u8]) -> (h: [u8; 32])
    ensures
        h@ == spec_blake3(data@),
{
    *blake3::hash(data).as_bytes()
}

/// Whether two hashes hold the same bytes.
pub fn same_hash(a: &[u8; 32], b: &[u8; 32]) -> (r: bool)
    ensures
        r == (a@ == b@),
{
    let mut i: usize = 0;
    while i < 32
        invariant
            i <= 32,
            a@.len() == 32,
            b@.len() == 32,
            forall|j: int| 0 <= j < i ==> a@[j] == b@[j],
        decreases 32 - i,
    {
        if a[i] != b[i] {
            assert(a@[i as int] != b@[i as int]);
            return false;
        }
        i = i + 1;
    }
    assert(a@ =~= b@);
    true
}

/// A store of bodies keyed by their BLAKE3 hash.
///
/// `stored` is the map from hash bytes to body bytes that the store holds.
pub trait ContentStore {
    /// The bodies this store holds, by hash.
    spec fn stored(&self) -> Map<Seq<u8>, Seq<u8>>;

    /// The body stored under `hash`, if any.
    fn get(&self, hash: &[u8; 32]) -> (r: Option<Vec<u8>>)
        ensures
            r matches Some(v) ==> self.stored().contains_key(hash@) && v@ == self.stored()[hash@],
            r is None ==> !self.stored().contains_key(hash@),
    ;

    /// Store `content` under its hash and return the hash. A hash already
    /// present keeps the body it has.
    fn put(&mut self, content: &[u8]) -> (h: [u8; 32])
        ensures
            h@ == spec_blake3(content@),
            old(self).stored().contains_key(h@) ==> final(self).stored() == old(self).stored(),
            !old(self).stored().contains_key(h@) ==> final(self).stored() == old(
                self,
            ).stored().insert(h@, content@),
    ;

    /// Whether a body is stored under `hash`.
    fn contains(&self, hash: &[u8; 32]) -> (r: bool)
        ensures
            r == self.stored().contains_key(hash@),
    ;
}

/// The map held by a list of hash and body pairs.
pub open spec fn spec_entries_map(es: Seq<([u8; 32], Vec<u8>)>) -> Map<Seq<u8>, Seq<u8>>
    decreases es.len(),
{
    if es.len() == 0 {
        Map::empty()
    } else {
        spec_entries_map(es.drop_last()).insert(es.last().0@, es.last().1@)
    }
}

/// The total length of the bodies of a list of pairs.
pub open spec fn spec_entries_bytes(es: Seq<([u8; 32], Vec<u8>)>) -> nat
    decreases es.len(),
{
    if es.len() == 0 {
        0
    } else {
        spec_entries_bytes(es.drop_last()) + es.last().1@.len()
    }
}

/// An in-memory [`ContentStore`]. Each body is kept once, under its hash.
pub struct MemoryContentStore {
    entries: Vec<([u8; 32], Vec<u8>)>,
}

impl MemoryContentStore {
    /// No hash occurs twice, and each key is the hash of its body.
    #[verifier::type_invariant]
    spec fn inv(self) -> bool {
        &&& forall|i: int, j: int|
            0 <= i < j < self.entries@.len() ==> #[trigger] self.entries@[i].0@
                != #[trigger] self.entries@[j].0@
        &&& forall|i: int|
            0 <= i < self.entries@.len() ==> #[trigger] self.entries@[i].0@ == spec_blake3(
                self.entries@[i].1@,
            )
    }

    /// The total length of the stored bodies.
    pub closed spec fn spec_total_bytes(&self) -> nat {
        spec_entries_bytes(self.entries@)
    }

    /// An empty store.
    pub fn new() -> (s: Self)
        ensures
            s.stored() == Map::<Seq<u8>, Seq<u8>>::empty(),
            s.spec_total_bytes() == 0,
    {
        MemoryContentStore { entries: Vec::new() }
    }

    /// The number of stored bodies.
    pub fn len(&self) -> (n: usize)
        ensures
            n == self.stored().len(),
    {
        proof {
            use_type_invariant(self);
            lemma_map_len(self.entries@);
        }
        self.entries.len()
    }

    /// Whether the store is empty.
    pub fn is_empty(&self) -> (b: bool)
        ensures
            b == (self.stored().len() == 0),
    {
        self.len() == 0
    }

    /// The total length of the stored bodies, saturating at `usize::MAX`.
    pub fn total_bytes(&self) -> (n: usize)
        ensures
            n == if self.spec_total_bytes() <= usize::MAX {
                self.spec_total_bytes()
            } else {
                usize::MAX as nat
            },
    {
        let mut total: usize = 0;
        let mut i: usize = 0;
        let ghost es = self.entries@;
        while i < self.entries.len()
            invariant
                i <= es.len(),
                es == self.entries@,
                total == if spec_entries_bytes(es.take(i as int)) <= usize::MAX {
                    spec_entries_bytes(es.take(i as int))
                } else {
                    usize::MAX as nat
                },
            decreases es.len() - i,
        {
            proof {
                assert(es.take(i + 1).drop_last() =~= es.take(i as int));
            }
            total = total.saturating_add(self.entries[i].1.len());
            i = i + 1;
        }
        assert(es.take(i as int) =~= es);
        total
    }

    /// The position of `hash` among the entries.
    fn find(&self, hash: &[u8; 32]) -> (r: Option<usize>)
        ensures
            r matches Some(i) ==> i < self.entries@.len() && self.entries@[i as int].0@ == hash@,
            r is None ==> forall|i: int|
                0 <= i < self.entries@.len() ==> #[trigger] self.entries@[i].0@ != hash@,
    {
        let mut i: usize = 0;
        while i < self.entries.len()
            invariant
                i <= self.entries@.len(),
                forall|j: int| 0 <= j < i ==> #[trigger] self.entries@[j].0@ != hash@,
            decreases self.entries@.len() - i,
        {
            if same_hash(&self.entries[i].0, hash) {
                return Some(i);
            }
            i = i + 1;
        }
        None
    }
}

/// The map of a list of pairs holds a key exactly when some pair has it,
/// with the body of the last such pair.
proof fn lemma_map_lookup(es: Seq<([u8; 32], Vec<u8>)>, i: int)
    requires
        0 <= i < es.len(),
        forall|a: int, b: int| 0 <= a < b < es.len() ==> #[trigger] es[a].0@ != #[trigger] es[b].0@,
    ensures
        spec_entries_map(es).contains_key(es[i].0@),
        spec_entries_map(es)[es[i].0@] == es[i].1@,
    decreases es.len(),
{
    if i < es.len() - 1 {
        lemma_map_lookup(es.drop_last(), i);
        assert(es.drop_last()[i] == es[i]);
        assert(es[i].0@ != es[es.len() - 1].0@);
    }
}

proof fn lemma_map_absent(es: Seq<([u8; 32], Vec<u8>)>, k: Seq<u8>)
    requires
        forall|i: int| 0 <= i < es.len() ==> #[trigger] es[i].0@ != k,
    ensures
        !spec_entries_map(es).contains_key(k),
    decreases es.len(),
{
    if es.len() > 0 {
        assert forall|i: int| 0 <= i < es.drop_last().len() implies #[trigger] es.drop_last()[i].0@
            != k by {
            assert(es.drop_last()[i] == es[i]);
        }
        lemma_map_absent(es.drop_last(), k);
        assert(es.last() == es[es.len() - 1]);
    }
}

proof fn lemma_map_len(es: Seq<([u8; 32], Vec<u8>)>)
    requires
        forall|a: int, b: int| 0 <= a < b < es.len() ==> #[trigger] es[a].0@ != #[trigger] es[b].0@,
    ensures
        spec_entries_map(es).dom().finite(),
        spec_entries_map(es).len() == es.len(),
    decreases es.len(),
{
    if es.len() > 0 {
        let p = es.drop_last();
        assert forall|a: int, b: int| 0 <= a < b < p.len() implies #[trigger] p[a].0@ != #[trigger] p[b].0@ by {
            assert(p[a] == es[a] && p[b] == es[b]);
        }
        lemma_map_len(p);
        assert forall|i: int| 0 <= i < p.len() implies #[trigger] p[i].0@ != es.last().0@ by {
            assert(p[i] == es[i]);
            assert(es.last() == es[es.len() - 1]);
        }
        lemma_map_absent(p, es.last().0@);
    }
}

impl ContentStore for MemoryContentStore {
    closed spec fn stored(&self) -> Map<Seq<u8>, Seq<u8>> {
        spec_entries_map(self.entries@)
    }

    fn get(&self, hash: &[u8; 32]) -> (r: Option<Vec<u8>>) {
        proof {
            use_type_invariant(self);
        }
        match self.find(hash) {
            Some(i) => {
                proof {
                    lemma_map_lookup(self.entries@, i as int);
                }
                Some(self.entries[i].1.clone())
            },
            None => {
                proof {
                    lemma_map_absent(self.entries@, hash@);
                }
                None
            },
        }
    }

    /// Besides the stored map, the count and the total length change only
    /// when the hash is new: by one body and by the length of `content`.
    fn put(&mut self, content: &[u8]) -> (h: [u8; 32])
        ensures
            old(self).stored().contains_key(h@) ==> final(self).spec_total_bytes() == old(
                self,
            ).spec_total_bytes() && final(self).stored().len() == old(self).stored().len(),
            !old(self).stored().contains_key(h@) ==> final(self).spec_total_bytes() == old(
                self,
            ).spec_total_bytes() + content@.len() && final(self).stored().len() == old(
                self,
            ).stored().len() + 1,
    {
        proof {
            use_type_invariant(&*self);
            lemma_map_len(self.entries@);
        }
        let hash = blake3_hash(content);
        match self.find(&hash) {
            Some(i) => {
                proof {
                    lemma_map_lookup(self.entries@, i as int);
                }
            },
            None => {
                proof {
                    lemma_map_absent(self.entries@, hash@);
                }
                let ghost before = self.entries@;
                let mut es: Vec<([u8; 32], Vec<u8>)> = Vec::new();
                std::mem::swap(&mut es, &mut self.entries);
                es.push((hash, vstd::slice::slice_to_vec(content)));
                proof {
                    assert(es@.drop_last() =~= before);
                    assert(forall|i: int| 0 <= i < before.len() ==> #[trigger] es@[i] == before[i]);
                }
                self.entries = es;
                proof {
                    use_type_invariant(&*self);
                    lemma_map_len(self.entries@);
                }
            },
        }
        hash
    }

    fn contains(&self, hash: &[u8; 32]) -> (r: bool) {
        proof {
            use_type_invariant(self);
        }
        match self.find(hash) {
            Some(i) => {
                proof {
                    lemma_map_lookup(self.entries@, i as int);
                }
                true
            },
            None => {
                proof {
                    lemma_map_absent(self.entries@, hash@);
                }
                false
            },
        }
    }
}

} // verus!
