//! Rule chains.
//!
//! A chain is an ordered list of rules, each a predicate on records together
//! with the outcome it gives. The rules are tried from the first to the last;
//! the first rule that matches a record decides its outcome, and the rules
//! after it are not tried. Where no rule matches, a default outcome applies.

use vstd::prelude::*;

verus! {

/// A rule of a chain: a predicate on records, and the outcome of the records
/// that it matches.
pub trait Rule<Record, Outcome> {
    /// Whether the rule matches the record.
    spec fn spec_matches(&self, record: &Record) -> bool;

    /// The outcome that the rule gives.
    spec fn spec_outcome(&self) -> Outcome;

    /// Whether the rule matches the record.
    fn matches(&self, record: &Record) -> (matched: bool)
        ensures
            matched == self.spec_matches(record),
    ;

    /// The outcome that the rule gives.
    fn outcome(&self) -> (outcome: Outcome)
        ensures
            outcome == self.spec_outcome(),
    ;
}

/// The outcome of `record` under `chain`: that of the first rule that matches
/// it, or `default` where none does.
pub open spec fn decide<Record, Outcome, R: Rule<Record, Outcome>>(
    chain: Seq<R>,
    record: &Record,
    default: Outcome,
) -> Outcome
    decreases chain.len(),
{
    if chain.len() == 0 {
        default
    } else if chain[0].spec_matches(record) {
        chain[0].spec_outcome()
    } else {
        decide(chain.drop_first(), record, default)
    }
}

/// The outcome is that of the rule at position `i` where that rule matches
/// and none before it does, and the default where no rule matches at all.
pub proof fn lemma_first_match_wins<Record, Outcome, R: Rule<Record, Outcome>>(
    chain: Seq<R>,
    record: &Record,
    default: Outcome,
)
    ensures
        forall|i: int|
            0 <= i < chain.len() && (#[trigger] chain[i]).spec_matches(record) && (forall|j: int|
                0 <= j < i ==> !(#[trigger] chain[j]).spec_matches(record)) ==> decide(
                chain,
                record,
                default,
            ) == chain[i].spec_outcome(),
        (forall|j: int| 0 <= j < chain.len() ==> !(#[trigger] chain[j]).spec_matches(record))
            ==> decide(chain, record, default) == default,
    decreases chain.len(),
{
    if chain.len() > 0 && !chain[0].spec_matches(record) {
        let rest = chain.drop_first();
        lemma_first_match_wins(rest, record, default);
        assert forall|i: int|
            0 <= i < chain.len() && (#[trigger] chain[i]).spec_matches(record) && (forall|j: int|
                0 <= j < i ==> !(#[trigger] chain[j]).spec_matches(record)) implies decide(
            chain,
            record,
            default,
        ) == chain[i].spec_outcome() by {
            assert(rest[i - 1] == chain[i]);
            assert forall|j: int| 0 <= j < i - 1 implies !(#[trigger] rest[j]).spec_matches(
                record,
            ) by {
                assert(rest[j] == chain[j + 1]);
            }
        }
        if forall|j: int| 0 <= j < chain.len() ==> !(#[trigger] chain[j]).spec_matches(record) {
            assert forall|j: int| 0 <= j < rest.len() implies !(#[trigger] rest[j]).spec_matches(
                record,
            ) by {
                assert(rest[j] == chain[j + 1]);
            }
        }
    }
}

/// Evaluates a chain on a record: tries the rules in order and stops at the
/// first that matches.
pub fn evaluate<Record, Outcome, R: Rule<Record, Outcome>>(
    chain: &[R],
    record: &Record,
    default: Outcome,
) -> (outcome: Outcome)
    ensures
        outcome == decide(chain@, record, default),
{
    let mut i: usize = 0;
    proof {
        assert(chain@.skip(0) == chain@);
    }
    while i < chain.len()
        invariant
            i <= chain.len(),
            decide(chain@, record, default) == decide(chain@.skip(i as int), record, default),
        decreases chain.len() - i,
    {
        if chain[i].matches(record) {
            return chain[i].outcome();
        }
        proof {
            assert(chain@.skip(i as int).drop_first() == chain@.skip(i + 1));
        }
        i += 1;
    }
    default
}

} // verus!
