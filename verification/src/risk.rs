//! The transaction risk kernel.
//!
//! The transactions are first screened: a transaction whose identifier was
//! seen earlier in the batch is dropped, and so is one whose amount is
//! negative. Each transaction that remains is classified by a chain of rules,
//! of which the first that matches decides, and the kernel counts the
//! transactions of high and of medium risk.

use vstd::prelude::*;
use vstd::arithmetic::power2::{lemma2_to64_rest, lemma_pow2_adds, pow2};
use vstd::hash_set::StringHashSet;
use crate::amount::{lemma_lt_orders_finite_values, Amount};
use crate::rule_chain::{decide, evaluate, Rule};

verus! {

/// The bit pattern of the binary64 number 100000. A transaction is of high
/// risk where its amount is greater than this; an amount equal to it is not.
pub const HIGH_RISK_THRESHOLD_BITS: u64 = 0x40F8_6A00_0000_0000;

/// A record of the transaction collection, the primary collection of the risk
/// kernel.
#[derive(Clone, Debug, PartialEq, Eq)]
pub struct Transaction {
    pub transaction_id: String,
    pub customer_id: Option<String>,
    pub amount: Amount,
}

/// A record of the customer master.
#[derive(Clone, Debug, PartialEq, Eq)]
pub struct MasterRecord {
    pub customer_id: String,
}

/// The risk classes.
#[derive(Clone, Copy, Debug, PartialEq, Eq, Structural)]
pub enum RiskLevel {
    Low,
    Medium,
    High,
}

/// The rules of the risk chain.
#[derive(Clone, Copy, Debug, PartialEq, Eq, Structural)]
pub enum RiskRule {
    /// The amount is greater than the threshold: high risk.
    AmountAboveThreshold,
    /// The transaction names no customer: medium risk.
    CustomerMissing,
}

/// A transaction that passed the screening, with its risk class.
#[derive(Clone, Debug, PartialEq, Eq)]
pub struct CleanTransaction {
    pub transaction_id: String,
    pub customer_id: String,
    pub amount: Amount,
    pub risk_level: RiskLevel,
}

/// The mathematical content of a [`CleanTransaction`].
pub struct CleanTransactionView {
    pub transaction_id: Seq<char>,
    pub customer_id: Seq<char>,
    pub amount: Amount,
    pub risk_level: RiskLevel,
}

/// The number of cleaned transactions of one risk class.
#[derive(Clone, Copy, Debug, PartialEq, Eq, Structural)]
pub struct RiskCount {
    pub risk_type: RiskLevel,
    pub count: usize,
}

/// The result of the risk kernel.
#[derive(Clone, Debug, PartialEq, Eq)]
pub struct RiskOutput {
    pub cleaned_transactions: Vec<CleanTransaction>,
    pub risk_summary: Vec<RiskCount>,
}

/// The mathematical content of a [`RiskCount`].
pub struct RiskCountView {
    pub risk_type: RiskLevel,
    pub count: nat,
}

/// The mathematical content of a [`RiskOutput`].
pub struct RiskOutputView {
    pub cleaned_transactions: Seq<CleanTransactionView>,
    pub risk_summary: Seq<RiskCountView>,
}

impl View for CleanTransaction {
    type V = CleanTransactionView;

    open spec fn view(&self) -> CleanTransactionView {
        CleanTransactionView {
            transaction_id: self.transaction_id@,
            customer_id: self.customer_id@,
            amount: self.amount,
            risk_level: self.risk_level,
        }
    }
}

impl View for RiskCount {
    type V = RiskCountView;

    open spec fn view(&self) -> RiskCountView {
        RiskCountView { risk_type: self.risk_type, count: self.count as nat }
    }
}

impl View for RiskOutput {
    type V = RiskOutputView;

    open spec fn view(&self) -> RiskOutputView {
        RiskOutputView {
            cleaned_transactions: clean_views(self.cleaned_transactions@),
            risk_summary: self.risk_summary@.map_values(|count: RiskCount| count@),
        }
    }
}

/// The contents of a sequence of cleaned transactions.
pub open spec fn clean_views(cleaned: Seq<CleanTransaction>) -> Seq<CleanTransactionView> {
    cleaned.map_values(|transaction: CleanTransaction| transaction@)
}

impl RiskLevel {
    /// The label of the risk class.
    pub open spec fn spec_label(self) -> Seq<char> {
        match self {
            RiskLevel::Low => "Low Risk"@,
            RiskLevel::Medium => "Medium Risk"@,
            RiskLevel::High => "High Risk"@,
        }
    }

    /// The label of the risk class.
    pub fn label(&self) -> (label: &'static str)
        ensures
            label@ == self.spec_label(),
    {
        match self {
            RiskLevel::Low => "Low Risk",
            RiskLevel::Medium => "Medium Risk",
            RiskLevel::High => "High Risk",
        }
    }
}

/// The identifier that stands in for the customer of a transaction that names
/// none.
pub open spec fn unknown_customer() -> Seq<char> {
    "UNKNOWN"@
}

/// The amount above which a transaction is of high risk.
pub open spec fn high_risk_threshold() -> Amount {
    Amount { bits: HIGH_RISK_THRESHOLD_BITS }
}

impl Rule<Transaction, RiskLevel> for RiskRule {
    open spec fn spec_matches(&self, record: &Transaction) -> bool {
        match self {
            RiskRule::AmountAboveThreshold => record.amount.spec_gt(high_risk_threshold()),
            RiskRule::CustomerMissing => record.customer_id is None,
        }
    }

    open spec fn spec_outcome(&self) -> RiskLevel {
        match self {
            RiskRule::AmountAboveThreshold => RiskLevel::High,
            RiskRule::CustomerMissing => RiskLevel::Medium,
        }
    }

    fn matches(&self, record: &Transaction) -> (matched: bool) {
        match self {
            RiskRule::AmountAboveThreshold => record.amount.gt(
                &Amount::from_bits(HIGH_RISK_THRESHOLD_BITS),
            ),
            RiskRule::CustomerMissing => record.customer_id.is_none(),
        }
    }

    fn outcome(&self) -> (outcome: RiskLevel) {
        match self {
            RiskRule::AmountAboveThreshold => RiskLevel::High,
            RiskRule::CustomerMissing => RiskLevel::Medium,
        }
    }
}

/// The risk chain: the rules in the order in which they are tried. A
/// transaction that no rule matches is of low risk.
pub open spec fn risk_chain() -> Seq<RiskRule> {
    seq![RiskRule::AmountAboveThreshold, RiskRule::CustomerMissing]
}

impl Transaction {
    /// The risk class of the transaction. The rules are tried in order: an
    /// amount above the threshold makes it high; else a missing customer
    /// makes it medium; else it is low.
    pub open spec fn risk(self) -> RiskLevel {
        if self.amount.spec_gt(high_risk_threshold()) {
            RiskLevel::High
        } else if self.customer_id is None {
            RiskLevel::Medium
        } else {
            RiskLevel::Low
        }
    }

    /// The cleaned form of the transaction.
    pub open spec fn cleaned(self) -> CleanTransactionView {
        CleanTransactionView {
            transaction_id: self.transaction_id@,
            customer_id: match self.customer_id {
                Some(customer_id) => customer_id@,
                None => unknown_customer(),
            },
            amount: self.amount,
            risk_level: self.risk(),
        }
    }

    /// Classifies the transaction by the risk chain.
    pub fn classify(&self) -> (level: RiskLevel)
        ensures
            level == self.risk(),
            level == decide(risk_chain(), self, RiskLevel::Low),
    {
        let chain = [RiskRule::AmountAboveThreshold, RiskRule::CustomerMissing];
        proof {
            assert(chain@ == risk_chain());
            lemma_risk_chain_decides(*self);
        }
        evaluate(chain.as_slice(), self, RiskLevel::Low)
    }

    /// The cleaned form of the transaction: its risk class is attached, and a
    /// missing customer is replaced by the identifier `UNKNOWN`.
    pub fn clean(&self) -> (clean: CleanTransaction)
        ensures
            clean@ == self.cleaned(),
    {
        let customer_id = match &self.customer_id {
            Some(customer_id) => customer_id.clone(),
            None => "UNKNOWN".to_owned(),
        };
        CleanTransaction {
            transaction_id: self.transaction_id.clone(),
            customer_id,
            amount: self.amount,
            risk_level: self.classify(),
        }
    }
}

/// Whether no transaction before position `i` carries the identifier of the
/// transaction at `i`.
pub open spec fn is_first_occurrence(transactions: Seq<Transaction>, i: int) -> bool {
    forall|j: int|
        0 <= j < i ==> (#[trigger] transactions[j]).transaction_id@
            != transactions[i].transaction_id@
}

/// Whether the transaction at position `i` passes the screening: it is the
/// first with its identifier, and its amount is not negative.
pub open spec fn is_kept(transactions: Seq<Transaction>, i: int) -> bool {
    is_first_occurrence(transactions, i) && !transactions[i].amount.spec_lt(Amount { bits: 0 })
}

/// The screening of a batch, as a predicate on positions.
pub open spec fn screening(transactions: Seq<Transaction>) -> spec_fn(int) -> bool {
    |i: int| is_kept(transactions, i)
}

/// The positions among the first `n` transactions that pass the screening, in
/// increasing order.
pub open spec fn kept_positions(transactions: Seq<Transaction>, n: int) -> Seq<int> {
    Seq::new(n as nat, |i: int| i).filter(screening(transactions))
}

/// The cleaned forms of the transactions at the given positions.
pub open spec fn cleaned_at(transactions: Seq<Transaction>, positions: Seq<int>) -> Seq<
    CleanTransactionView,
> {
    positions.map_values(|i: int| transactions[i].cleaned())
}

/// The cleaned transactions of a batch: those that pass the screening, in the
/// order of the batch.
pub open spec fn cleaned_transactions(transactions: Seq<Transaction>) -> Seq<
    CleanTransactionView,
> {
    cleaned_at(transactions, kept_positions(transactions, transactions.len() as int))
}

/// The predicate that holds of the cleaned transactions of the class `level`.
pub open spec fn of_level(level: RiskLevel) -> spec_fn(CleanTransactionView) -> bool {
    |transaction: CleanTransactionView| transaction.risk_level == level
}

/// The number of cleaned transactions of the class `level`.
pub open spec fn count_risk(cleaned: Seq<CleanTransactionView>, level: RiskLevel) -> nat {
    cleaned.filter(of_level(level)).len()
}

/// The result of the risk kernel on a batch.
pub open spec fn risk_analysis(transactions: Seq<Transaction>) -> RiskOutputView {
    let cleaned = cleaned_transactions(transactions);
    RiskOutputView {
        cleaned_transactions: cleaned,
        risk_summary: seq![
            RiskCountView {
                risk_type: RiskLevel::High,
                count: count_risk(cleaned, RiskLevel::High),
            },
            RiskCountView {
                risk_type: RiskLevel::Medium,
                count: count_risk(cleaned, RiskLevel::Medium),
            },
        ],
    }
}

/// What a vector of positions holds, as mathematical integers.
pub open spec fn positions(kept: Seq<usize>) -> Seq<int> {
    kept.map_values(|position: usize| position as int)
}

/// Screens a batch: returns the positions of the transactions that are kept,
/// in increasing order. A transaction is dropped where an earlier one of the
/// batch, kept or not, carries its identifier, and where its amount is
/// negative.
pub fn screen(transactions: &[Transaction]) -> (kept: Vec<usize>)
    ensures
        positions(kept@) == kept_positions(transactions@, transactions@.len() as int),
{
    let mut seen: StringHashSet = StringHashSet::new();
    let mut kept: Vec<usize> = Vec::new();
    let mut i: usize = 0;
    while i < transactions.len()
        invariant
            i <= transactions.len(),
            forall|id: Seq<char>|
                seen@.contains(id) <==> exists|j: int|
                    0 <= j < i && (#[trigger] transactions@[j]).transaction_id@ == id,
            positions(kept@) == kept_positions(transactions@, i as int),
        decreases transactions.len() - i,
    {
        let transaction = &transactions[i];
        let fresh = seen.insert(transaction.transaction_id.clone());
        proof {
            let range = Seq::new(i as nat, |k: int| k);
            assert(Seq::new((i + 1) as nat, |k: int| k) == range.push(i as int));
            range.lemma_filter_push(i as int, screening(transactions@));
            assert(fresh == is_first_occurrence(transactions@, i as int));
            assert(positions(kept@.push(i)) == positions(kept@).push(i as int));
        }
        if fresh && !transaction.amount.lt(&Amount::zero()) {
            kept.push(i);
        }
        i += 1;
    }
    kept
}

/// Screens and classifies a batch of transactions.
///
/// The cleaned transactions keep the order of the batch. The summary holds
/// the count of the high-risk transactions and then that of the medium-risk
/// ones, whatever the counts are. The customer master takes no part in the
/// result: a transaction of a customer that the master does not list is
/// treated like any other.
pub fn process_risk_analysis(
    transactions: &[Transaction],
    master: &[MasterRecord],
) -> (output: RiskOutput)
    ensures
        output@ == risk_analysis(transactions@),
        output.risk_summary@.len() == 2,
        output.risk_summary@[0].risk_type == RiskLevel::High,
        output.risk_summary@[0].count == count_risk(output@.cleaned_transactions, RiskLevel::High),
        output.risk_summary@[1].risk_type == RiskLevel::Medium,
        output.risk_summary@[1].count == count_risk(
            output@.cleaned_transactions,
            RiskLevel::Medium,
        ),
{
    let kept = screen(transactions);
    let mut cleaned: Vec<CleanTransaction> = Vec::new();
    let mut high_risk: usize = 0;
    let mut medium_risk: usize = 0;
    let mut k: usize = 0;
    proof {
        lemma_kept_positions(transactions@, transactions@.len() as int);
    }
    while k < kept.len()
        invariant
            k <= kept.len(),
            forall|n: int|
                0 <= n < kept@.len() ==> 0 <= #[trigger] positions(kept@)[n] < transactions@.len(),
            clean_views(cleaned@) == cleaned_at(transactions@, positions(kept@).take(k as int)),
            cleaned@.len() == k,
            high_risk == count_risk(clean_views(cleaned@), RiskLevel::High),
            medium_risk == count_risk(clean_views(cleaned@), RiskLevel::Medium),
        decreases kept.len() - k,
    {
        let ghost before = clean_views(cleaned@);
        assert(positions(kept@)[k as int] == kept@[k as int]);
        let clean = transactions[kept[k]].clean();
        proof {
            before.lemma_filter_push(clean@, of_level(RiskLevel::High));
            before.lemma_filter_push(clean@, of_level(RiskLevel::Medium));
            before.lemma_filter_len(of_level(RiskLevel::High));
            before.lemma_filter_len(of_level(RiskLevel::Medium));
            assert(clean_views(cleaned@.push(clean)) == before.push(clean@));
            assert(positions(kept@).take(k + 1) == positions(kept@).take(k as int).push(
                kept@[k as int] as int,
            ));
            assert(cleaned_at(transactions@, positions(kept@).take(k + 1)) == before.push(clean@));
        }
        match clean.risk_level {
            RiskLevel::High => {
                high_risk += 1;
            },
            RiskLevel::Medium => {
                medium_risk += 1;
            },
            RiskLevel::Low => {},
        }
        cleaned.push(clean);
        k += 1;
    }
    proof {
        assert(positions(kept@).take(k as int) == positions(kept@));
    }
    let mut risk_summary: Vec<RiskCount> = Vec::new();
    risk_summary.push(RiskCount { risk_type: RiskLevel::High, count: high_risk });
    risk_summary.push(RiskCount { risk_type: RiskLevel::Medium, count: medium_risk });
    let output = RiskOutput { cleaned_transactions: cleaned, risk_summary };
    assert(output@.risk_summary == risk_analysis(transactions@).risk_summary);
    output
}

/// The risk class of a transaction is what the risk chain decides for it.
pub proof fn lemma_risk_chain_decides(transaction: Transaction)
    ensures
        transaction.risk() == decide(risk_chain(), &transaction, RiskLevel::Low),
{
    reveal_with_fuel(decide, 3);
}

/// The threshold of the high-risk rule is the number 100000.
pub proof fn lemma_high_risk_threshold_is_100000()
    ensures
        high_risk_threshold().is_finite(),
        high_risk_threshold().scaled_value() == 100000 * pow2(1074),
{
    lemma2_to64_rest();
    lemma_pow2_adds(36, 1038);
    let unit = pow2(1038) as int;
    assert(0x18_6A00_0000_0000 * unit == 100000 * (0x10_0000_0000 * unit)) by (nonlinear_arith);
}

/// A transaction with a finite amount is of high risk exactly when the
/// amount is greater than 100000, and it is screened out as negative exactly
/// when the amount is less than zero.
pub proof fn lemma_rules_compare_values(transaction: Transaction)
    requires
        transaction.amount.is_finite(),
    ensures
        transaction.risk() == RiskLevel::High <==> transaction.amount.scaled_value() > 100000
            * pow2(1074),
        transaction.amount.spec_lt(Amount { bits: 0 }) <==> transaction.amount.scaled_value() < 0,
{
    lemma_high_risk_threshold_is_100000();
    lemma_lt_orders_finite_values(transaction.amount, high_risk_threshold());
    lemma_lt_orders_finite_values(transaction.amount, Amount { bits: 0 });
}

/// The kept positions among the first `n` transactions are exactly the
/// positions below `n` that pass the screening, each once and in increasing
/// order.
pub proof fn lemma_kept_positions(transactions: Seq<Transaction>, n: int)
    requires
        0 <= n <= transactions.len(),
    ensures
        forall|k: int|
            0 <= k < kept_positions(transactions, n).len() ==> {
                &&& 0 <= #[trigger] kept_positions(transactions, n)[k] < n
                &&& is_kept(transactions, kept_positions(transactions, n)[k])
            },
        forall|k1: int, k2: int|
            0 <= k1 < k2 < kept_positions(transactions, n).len() ==> kept_positions(
                transactions,
                n,
            )[k1] < kept_positions(transactions, n)[k2],
        forall|i: int|
            0 <= i < n && is_kept(transactions, i) ==> kept_positions(transactions, n).contains(i),
    decreases n,
{
    let now = kept_positions(transactions, n);
    if n > 0 {
        let before = kept_positions(transactions, n - 1);
        lemma_kept_positions(transactions, n - 1);
        let range = Seq::new((n - 1) as nat, |k: int| k);
        assert(Seq::new(n as nat, |k: int| k) == range.push(n - 1));
        range.lemma_filter_push(n - 1, screening(transactions));
        assert forall|i: int| 0 <= i < n && is_kept(transactions, i) implies now.contains(i) by {
            if i < n - 1 {
                let k = choose|k: int| 0 <= k < before.len() && before[k] == i;
                assert(now[k] == i);
            } else {
                assert(now[before.len() as int] == i);
            }
        }
    } else {
        Seq::new(0, |k: int| k).lemma_filter_len(screening(transactions));
    }
}

/// Of the transactions that carry one identifier, only the first can be among
/// the cleaned transactions: the position of a later one is never kept.
pub proof fn lemma_later_occurrence_is_dropped(transactions: Seq<Transaction>, i: int, j: int)
    requires
        0 <= i < j < transactions.len(),
        transactions[i].transaction_id@ == transactions[j].transaction_id@,
    ensures
        !kept_positions(transactions, transactions.len() as int).contains(j),
{
    lemma_kept_positions(transactions, transactions.len() as int);
}

/// Each cleaned transaction is the cleaned form of the first transaction of
/// the batch with its identifier, and no identifier occurs twice among the
/// cleaned transactions.
pub proof fn lemma_cleaned_are_first_occurrences(transactions: Seq<Transaction>)
    ensures
        cleaned_transactions(transactions).len() == kept_positions(
            transactions,
            transactions.len() as int,
        ).len(),
        forall|k: int|
            0 <= k < cleaned_transactions(transactions).len() ==> {
                let i = kept_positions(transactions, transactions.len() as int)[k];
                &&& 0 <= i < transactions.len()
                &&& is_first_occurrence(transactions, i)
                &&& #[trigger] cleaned_transactions(transactions)[k] == transactions[i].cleaned()
            },
        forall|k1: int, k2: int|
            #![trigger
                cleaned_transactions(transactions)[k1],
                cleaned_transactions(transactions)[k2]
            ]
            0 <= k1 < k2 < cleaned_transactions(transactions).len() ==> cleaned_transactions(
                transactions,
            )[k1].transaction_id != cleaned_transactions(transactions)[k2].transaction_id,
{
    let kept = kept_positions(transactions, transactions.len() as int);
    let cleaned = cleaned_transactions(transactions);
    lemma_kept_positions(transactions, transactions.len() as int);
    assert forall|k1: int, k2: int| 0 <= k1 < k2 < cleaned.len() implies cleaned[k1].transaction_id
        != cleaned[k2].transaction_id by {
        assert(kept[k1] < kept[k2]);
        assert(is_first_occurrence(transactions, kept[k2]));
    }
}

} // verus!
