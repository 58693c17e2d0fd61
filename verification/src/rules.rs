//! Rules as they are loaded, rules as they are compiled, and the findings
//! that the engine reports.

use crate::condition::Condition;
use vstd::prelude::*;

verus! {

/// The lowest severity that a rule may have.
pub const MIN_SEVERITY: u8 = 1;

/// The highest severity that a rule may have.
pub const MAX_SEVERITY: u8 = 10;

/// One rule of a rule source.
#[derive(Clone, Debug, PartialEq, Eq)]
pub struct Rule {
    pub name: String,
    pub trigger: String,
    pub message: String,
    pub solution: String,
    pub severity: u8,
    pub auto_fix: Option<String>,
}

/// A rule with the conditions that its trigger compiled to. The conditions
/// are joined by "and": the rule fires when all of them hold, and a rule
/// without conditions always fires.
#[derive(Clone, Debug)]
pub struct CompiledRule {
    pub conditions: Vec<Condition>,
    pub rule: Rule,
}

/// What the engine reports for a rule that fired.
#[derive(Clone, Debug, PartialEq, Eq)]
pub struct Finding {
    /// The severity as it is shown: a glyph for its tier, then the number.
    pub severity: String,
    pub severity_value: u8,
    pub message: String,
    pub solution: String,
    pub auto_fix: Option<String>,
    /// The name of the rule that fired; findings are told apart by it.
    pub rule_name: String,
}

/// The text that an optional string holds, if any.
pub open spec fn text_of(s: Option<String>) -> Option<Seq<char>> {
    match s {
        Some(inner) => Some(inner@),
        None => None,
    }
}

/// A finding as a value: its texts and its severity.
pub struct FindingModel {
    pub severity: Seq<char>,
    pub severity_value: u8,
    pub message: Seq<char>,
    pub solution: Seq<char>,
    pub auto_fix: Option<Seq<char>>,
    pub rule_name: Seq<char>,
}

impl View for Finding {
    type V = FindingModel;

    open spec fn view(&self) -> FindingModel {
        FindingModel {
            severity: self.severity@,
            severity_value: self.severity_value,
            message: self.message@,
            solution: self.solution@,
            auto_fix: text_of(self.auto_fix),
            rule_name: self.rule_name@,
        }
    }
}

/// The values of a list of findings, in order.
pub open spec fn views(v: Seq<Finding>) -> Seq<FindingModel> {
    Seq::new(v.len(), |i: int| v[i]@)
}

/// A copy of an optional string.
pub fn copy_of(s: &Option<String>) -> (r: Option<String>)
    ensures
        r == *s,
{
    match s {
        Some(inner) => Some(inner.clone()),
        None => None,
    }
}

impl Rule {
    /// Whether the severity is one that a rule may have: from 1 to 10.
    pub open spec fn spec_has_valid_severity(self) -> bool {
        MIN_SEVERITY <= self.severity <= MAX_SEVERITY
    }

    /// Whether the severity is one that a rule may have.
    pub fn has_valid_severity(&self) -> (r: bool)
        ensures
            r == self.spec_has_valid_severity(),
    {
        MIN_SEVERITY <= self.severity && self.severity <= MAX_SEVERITY
    }
}

} // verus!
