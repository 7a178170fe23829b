//! Batch reconciliation kernels: payroll computation, transaction risk
//! scoring and access-compliance checking.
//!
//! Each kernel joins a primary record collection against one or more
//! reference collections by key, classifies every joined record with a fixed
//! chain of rules in which the first matching rule wins, and returns the
//! per-record results in input order together with the summary counts.
//!
//! The kernels work on decoded records and return structured results. A call
//! keeps no state: its indexes, sets and counters are built for the call and
//! dropped at its end.

pub mod amount;
pub mod key_index;
pub mod pair_set;
pub mod rule_chain;
pub mod payroll;
pub mod risk;
pub mod compliance;

pub use compliance::process_compliance;
pub use payroll::process_payroll;
pub use risk::process_risk_analysis;
