//! Sets of key pairs over reference collections.
//!
//! A [`PairSet`] holds the key pairs of the records of one reference
//! collection, such as each role together with a system it may use, and
//! answers whether a given pair is among them. Two pairs are the same when
//! both components are equal, character for character.

use vstd::prelude::*;
use vstd::hash_map::StringHashMap;
use vstd::hash_set::StringHashSet;

verus! {

/// A record that is identified by a pair of key fields.
pub trait PairKeyed {
    /// The key pair of the record.
    spec fn spec_pair(&self) -> (Seq<char>, Seq<char>);

    /// The key pair of the record.
    fn pair(&self) -> (pair: (&String, &String))
        ensures
            (pair.0@, pair.1@) == self.spec_pair(),
    ;
}

/// The key pairs that occur among `records`.
pub open spec fn pairs_of<R: PairKeyed>(records: Seq<R>) -> Set<(Seq<char>, Seq<char>)> {
    Set::new(
        |pair: (Seq<char>, Seq<char>)|
            exists|i: int| 0 <= i < records.len() && (#[trigger] records[i]).spec_pair() == pair,
    )
}

/// The set of key pairs of one reference collection.
pub struct PairSet {
    /// For each first component that occurs, the slot of `seconds` that
    /// collects the second components paired with it.
    slots: StringHashMap<usize>,
    seconds: Vec<StringHashSet>,
}

/// Whether every slot that `slots` names exists, and no two first components
/// share one.
spec fn slots_distinct(slots: Map<Seq<char>, usize>, seconds: Seq<StringHashSet>) -> bool {
    &&& forall|first: Seq<char>| #[trigger]
        slots.contains_key(first) ==> slots[first] < seconds.len()
    &&& forall|a: Seq<char>, b: Seq<char>|
        slots.contains_key(a) && slots.contains_key(b) && #[trigger] slots[a] == #[trigger] slots[b]
            ==> a == b
}

/// Whether the two-level structure holds `pair`.
spec fn holds(
    slots: Map<Seq<char>, usize>,
    seconds: Seq<StringHashSet>,
    pair: (Seq<char>, Seq<char>),
) -> bool {
    slots.contains_key(pair.0) && seconds[slots[pair.0] as int]@.contains(pair.1)
}

impl View for PairSet {
    type V = Set<(Seq<char>, Seq<char>)>;

    closed spec fn view(&self) -> Set<(Seq<char>, Seq<char>)> {
        Set::new(|pair: (Seq<char>, Seq<char>)| holds(self.slots@, self.seconds@, pair))
    }
}

impl PairSet {
    #[verifier::type_invariant]
    spec fn well_formed(self) -> bool {
        slots_distinct(self.slots@, self.seconds@)
    }

    /// Collects the key pairs of `records` in a single pass.
    pub fn build<R: PairKeyed>(records: &[R]) -> (set: Self)
        ensures
            set@ == pairs_of(records@),
    {
        let mut slots: StringHashMap<usize> = StringHashMap::new();
        let mut seconds: Vec<StringHashSet> = Vec::new();
        let mut i: usize = 0;
        while i < records.len()
            invariant
                i <= records.len(),
                slots_distinct(slots@, seconds@),
                forall|pair: (Seq<char>, Seq<char>)|
                    holds(slots@, seconds@, pair) <==> pairs_of(records@.take(i as int)).contains(
                        pair,
                    ),
            decreases records.len() - i,
        {
            let (first, second) = records[i].pair();
            let ghost before_slots = slots@;
            let ghost before_seconds = seconds@;
            let slot = match slots.get(first.as_str()) {
                Some(slot) => *slot,
                None => {
                    let slot = seconds.len();
                    seconds.push(StringHashSet::new());
                    slots.insert(first.clone(), slot);
                    slot
                },
            };
            seconds[slot].insert(second.clone());
            proof {
                let added = (first@, second@);
                let earlier = records@.take(i as int);
                let now = records@.take(i + 1);
                assert(now[i as int].spec_pair() == added);
                assert forall|pair: (Seq<char>, Seq<char>)|
                    holds(slots@, seconds@, pair) <==> pairs_of(now).contains(pair) by {
                    if pair == added {
                    } else if holds(before_slots, before_seconds, pair) {
                        let j = choose|j: int|
                            0 <= j < earlier.len() && (#[trigger] earlier[j]).spec_pair() == pair;
                        assert(now[j] == earlier[j]);
                    } else if pairs_of(now).contains(pair) {
                        let j = choose|j: int|
                            0 <= j < now.len() && (#[trigger] now[j]).spec_pair() == pair;
                        assert(j < i);
                        assert(earlier[j] == now[j]);
                    }
                }
            }
            i += 1;
        }
        proof {
            assert(records@.take(i as int) == records@);
        }
        let set = PairSet { slots, seconds };
        assert(set@ =~= pairs_of(records@));
        set
    }

    /// Whether the pair `(first, second)` is in the set.
    pub fn contains(&self, first: &str, second: &str) -> (found: bool)
        ensures
            found == self@.contains((first@, second@)),
    {
        proof {
            use_type_invariant(self);
        }
        match self.slots.get(first) {
            Some(slot) => self.seconds[*slot].contains(second),
            None => false,
        }
    }
}

} // verus!
