//! A rule engine that explains why a machine misbehaves: it compiles rule
//! triggers into typed conditions, evaluates them against one snapshot of
//! system metrics, ranks and deduplicates the findings, and gates the
//! remediation commands that a finding may offer.

pub mod condition;
pub mod correlate;
pub mod evaluate;
pub mod metrics;
pub mod number;
pub mod pattern;
pub mod report;
pub mod rules;
pub mod safety;
pub mod text;
pub mod trigger;
pub mod watch;
