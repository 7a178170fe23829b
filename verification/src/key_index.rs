//! Key indexes over reference collections.
//!
//! A [`KeyIndex`] maps the key of each record of a reference collection to
//! the record. It is built in one pass and never fails. Keys are not checked
//! for uniqueness: where several records carry the same key, the index
//! resolves the key to the last of them.

use vstd::prelude::*;
use vstd::hash_map::StringHashMap;

verus! {

/// A record that carries one designated key field, by which it is joined.
pub trait Keyed {
    /// The key of the record.
    spec fn spec_key(&self) -> Seq<char>;

    /// The key of the record.
    fn key(&self) -> (key: &String)
        ensures
            key@ == self.spec_key(),
    ;
}

/// The keys of a record collection, in the order of the records.
pub open spec fn keys_of<R: Keyed>(records: Seq<R>) -> Seq<Seq<char>> {
    Seq::new(records.len(), |i: int| records[i].spec_key())
}

/// The position of the last of `keys` that equals `key`, if there is one.
pub open spec fn last_position(keys: Seq<Seq<char>>, key: Seq<char>) -> Option<int>
    decreases keys.len(),
{
    if keys.len() == 0 {
        None
    } else if keys.last() == key {
        Some(keys.len() - 1)
    } else {
        last_position(keys.drop_last(), key)
    }
}

/// The mapping from key to record that an index over `records` holds: each
/// key that occurs is mapped to the last record that carries it.
pub open spec fn key_map<R: Keyed>(records: Seq<R>) -> Map<Seq<char>, R> {
    Map::new(
        |key: Seq<char>| last_position(keys_of(records), key) is Some,
        |key: Seq<char>| records[last_position(keys_of(records), key)->0],
    )
}

/// Whether `positions` maps exactly the keys that occur in `keys`, each to the
/// last position that holds it.
spec fn positions_cover(positions: Map<Seq<char>, usize>, keys: Seq<Seq<char>>) -> bool {
    forall|key: Seq<char>|
        #![trigger positions.contains_key(key)]
        #![trigger last_position(keys, key)]
        match last_position(keys, key) {
            Some(i) => positions.contains_key(key) && positions[key] == i,
            None => !positions.contains_key(key),
        }
}

/// An index from key to record over one reference collection.
pub struct KeyIndex<'a, R: Keyed> {
    records: &'a [R],
    positions: StringHashMap<usize>,
}

impl<'a, R: Keyed> View for KeyIndex<'a, R> {
    type V = Map<Seq<char>, R>;

    closed spec fn view(&self) -> Map<Seq<char>, R> {
        key_map(self.records@)
    }
}

impl<'a, R: Keyed> KeyIndex<'a, R> {
    #[verifier::type_invariant]
    spec fn well_formed(self) -> bool {
        positions_cover(self.positions@, keys_of(self.records@))
    }

    /// Builds the index over `records` in a single pass.
    pub fn build(records: &'a [R]) -> (index: Self)
        ensures
            index@ == key_map(records@),
    {
        let mut positions: StringHashMap<usize> = StringHashMap::new();
        let ghost keys = keys_of(records@);
        let mut i: usize = 0;
        while i < records.len()
            invariant
                i <= records.len(),
                keys == keys_of(records@),
                positions_cover(positions@, keys.take(i as int)),
            decreases records.len() - i,
        {
            let key = records[i].key().clone();
            proof {
                assert(keys.take(i + 1).drop_last() == keys.take(i as int));
                assert(keys.take(i + 1).last() == key@);
            }
            positions.insert(key, i);
            i += 1;
        }
        proof {
            assert(keys.take(i as int) == keys);
        }
        KeyIndex { records, positions }
    }

    /// The record that `key` resolves to, if any record carries the key.
    pub fn lookup(&self, key: &str) -> (found: Option<&'a R>)
        ensures
            found == (if self@.contains_key(key@) {
                Some(&self@[key@])
            } else {
                None
            }),
    {
        proof {
            use_type_invariant(self);
            lemma_last_position(keys_of(self.records@), key@);
        }
        match self.positions.get(key) {
            Some(position) => Some(&self.records[*position]),
            None => None,
        }
    }
}

/// `last_position` finds a key exactly when it occurs, and then names the
/// greatest position that holds it.
pub proof fn lemma_last_position(keys: Seq<Seq<char>>, key: Seq<char>)
    ensures
        match last_position(keys, key) {
            Some(i) => {
                &&& 0 <= i < keys.len()
                &&& keys[i] == key
                &&& forall|j: int| i < j < keys.len() ==> keys[j] != key
            },
            None => forall|j: int| 0 <= j < keys.len() ==> keys[j] != key,
        },
    decreases keys.len(),
{
    if keys.len() > 0 && keys.last() != key {
        let front = keys.drop_last();
        lemma_last_position(front, key);
        match last_position(front, key) {
            Some(i) => {
                assert(keys[i] == front[i]);
                assert forall|j: int| i < j < keys.len() implies keys[j] != key by {
                    if j < front.len() {
                        assert(front[j] != key);
                    }
                }
            },
            None => {
                assert forall|j: int| 0 <= j < keys.len() implies keys[j] != key by {
                    if j < front.len() {
                        assert(front[j] != key);
                    }
                }
            },
        }
    }
}

/// A key is in the mapping of a collection exactly when some record of the
/// collection carries it.
pub proof fn lemma_key_map_holds_the_keys<R: Keyed>(records: Seq<R>, key: Seq<char>)
    ensures
        key_map(records).contains_key(key) <==> exists|i: int|
            0 <= i < records.len() && (#[trigger] records[i]).spec_key() == key,
{
    let keys = keys_of(records);
    lemma_last_position(keys, key);
    match last_position(keys, key) {
        Some(i) => {
            assert(records[i].spec_key() == keys[i]);
        },
        None => {
            assert forall|i: int| 0 <= i < records.len() implies (#[trigger] records[i]).spec_key()
                != key by {
                assert(keys[i] != key);
            }
        },
    }
}

/// The last record wins: the mapping of a collection resolves the key of a
/// record to that record where no later record carries the same key.
pub proof fn lemma_key_map_last_write_wins<R: Keyed>(records: Seq<R>, i: int)
    requires
        0 <= i < records.len(),
        forall|j: int|
            i < j < records.len() ==> (#[trigger] records[j]).spec_key() != records[i].spec_key(),
    ensures
        key_map(records).contains_key(records[i].spec_key()),
        key_map(records)[records[i].spec_key()] == records[i],
{
    let keys = keys_of(records);
    let key = records[i].spec_key();
    lemma_last_position(keys, key);
    assert(keys[i] == key);
    let last = last_position(keys, key)->0;
    if last < i {
    } else if last > i {
        assert(records[last].spec_key() == keys[last]);
    }
}

} // verus!
