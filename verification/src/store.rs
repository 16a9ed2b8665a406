//! The content-addressed chunk store of the blocks protocol.
//!
//! A store maps a 32-byte content digest to the chunk bytes stored under it.
//! One store lives for the duration of one command invocation; it may be
//! pre-seeded by the caller for testing or replay.

use vstd::prelude::*;

verus! {

use vstd::std_specs::cmp::PartialEqSpec;

/// Compare two byte vectors.
pub fn bytes_eq(a: &Vec<u8>, b: &Vec<u8>) -> (r: bool)
    ensures
        r == (a@ == b@),
{
    let r = a == b;
    proof {
        if r {
            assert(a@ =~= b@);
        } else {
            if a@ == b@ {
                assert(a.eq_spec(b));
            }
        }
    }
    r
}

/// The mapping an entry list denotes: a later entry overrides an earlier one
/// with the same key.
pub open spec fn map_of(entries: Seq<(Seq<u8>, Seq<u8>)>) -> Map<Seq<u8>, Seq<u8>>
    decreases entries.len(),
{
    if entries.len() == 0 {
        Map::empty()
    } else {
        map_of(entries.drop_last()).insert(entries.last().0, entries.last().1)
    }
}

/// A key is in the denoted mapping exactly when some entry carries it.
pub proof fn lemma_map_of_contains(entries: Seq<(Seq<u8>, Seq<u8>)>, k: Seq<u8>)
    ensures
        map_of(entries).contains_key(k) <==> (exists|i: int|
            0 <= i < entries.len() && entries[i].0 == k),
    decreases entries.len(),
{
    if entries.len() > 0 {
        lemma_map_of_contains(entries.drop_last(), k);
        if entries.last().0 == k {
            assert(entries[entries.len() - 1].0 == k);
        } else {
            if map_of(entries.drop_last()).contains_key(k) {
                let i = choose|i: int|
                    0 <= i < entries.drop_last().len() && entries.drop_last()[i].0 == k;
                assert(entries[i].0 == k);
            }
            if exists|i: int| 0 <= i < entries.len() && entries[i].0 == k {
                let i = choose|i: int| 0 <= i < entries.len() && entries[i].0 == k;
                assert(entries.drop_last()[i].0 == k);
            }
        }
    }
}

/// The denoted mapping yields the value of the last entry that carries the
/// key.
pub proof fn lemma_map_of_get(entries: Seq<(Seq<u8>, Seq<u8>)>, k: Seq<u8>, i: int)
    requires
        0 <= i < entries.len(),
        entries[i].0 == k,
        forall|j: int| i < j < entries.len() ==> entries[j].0 != k,
    ensures
        map_of(entries).contains_key(k),
        map_of(entries)[k] == entries[i].1,
    decreases entries.len(),
{
    if i == entries.len() - 1 {
    } else {
        assert(entries.last().0 != k);
        assert(entries.drop_last()[i] == entries[i]);
        assert(forall|j: int| i < j < entries.drop_last().len() ==> entries.drop_last()[j].0 != k);
        lemma_map_of_get(entries.drop_last(), k, i);
    }
}

/// A content-addressed store: digest bytes to chunk bytes.
pub struct ChunkStore {
    entries: Vec<(Vec<u8>, Vec<u8>)>,
}

impl View for ChunkStore {
    type V = Map<Seq<u8>, Seq<u8>>;

    closed spec fn view(&self) -> Map<Seq<u8>, Seq<u8>> {
        map_of(self.entries@.map(|i: int, e: (Vec<u8>, Vec<u8>)| (e.0@, e.1@)))
    }
}

impl ChunkStore {
    /// An empty store.
    pub fn new() -> (r: ChunkStore)
        ensures
            r@ == Map::<Seq<u8>, Seq<u8>>::empty(),
    {
        let r = ChunkStore { entries: Vec::new() };
        proof {
            assert(r.entries@.map(|i: int, e: (Vec<u8>, Vec<u8>)| (e.0@, e.1@)) =~= Seq::<(
                Seq<u8>,
                Seq<u8>,
            )>::empty());
        }
        r
    }

    /// Store `value` under `key`, replacing whatever was there.
    pub fn insert(&mut self, key: Vec<u8>, value: Vec<u8>)
        ensures
            final(self)@ == old(self)@.insert(key@, value@),
    {
        let ghost pre = self.entries@.map(|i: int, e: (Vec<u8>, Vec<u8>)| (e.0@, e.1@));
        let ghost kv = (key@, value@);
        self.entries.push((key, value));
        proof {
            let post = self.entries@.map(|i: int, e: (Vec<u8>, Vec<u8>)| (e.0@, e.1@));
            assert(post.drop_last() =~= pre);
            assert(post.last() == kv);
        }
    }

    /// Look up the chunk stored under `key`.
    pub fn get(&self, key: &Vec<u8>) -> (r: Option<&Vec<u8>>)
        ensures
            match r {
                Some(v) => self@.contains_key(key@) && self@[key@] == v@,
                None => !self@.contains_key(key@),
            },
    {
        let ghost es = self.entries@.map(|i: int, e: (Vec<u8>, Vec<u8>)| (e.0@, e.1@));
        proof {
            lemma_map_of_contains(es, key@);
        }
        let mut i: usize = self.entries.len();
        while i > 0
            invariant
                i <= self.entries@.len(),
                es == self.entries@.map(|i: int, e: (Vec<u8>, Vec<u8>)| (e.0@, e.1@)),
                forall|j: int| i <= j < es.len() ==> es[j].0 != key@,
            decreases i,
        {
            i = i - 1;
            let e = &self.entries[i];
            if bytes_eq(&e.0, key) {
                proof {
                    assert(es[i as int].0 == key@);
                    lemma_map_of_get(es, key@, i as int);
                }
                return Some(&e.1);
            }
            proof {
                assert(es[i as int].0 != key@);
            }
        }
        None
    }
}

} // verus!
