//! The pluggable naming rules of the pass, with their default policies.
//!
//! The configuration carries one rule for variant names and one for generic
//! names; a caller may supply any implementation, and each implementation
//! states what it computes through its `rule_spec`.

use vstd::prelude::*;
use crate::ast::strs_view;
use crate::names::pascal_of;
use crate::names::to_pascal;

verus! {

/// A conversion from a source variant name to the emitted variant name.
pub trait VariantNameRule: Sized {
    /// What the rule computes, stated over character sequences.
    spec fn rule_spec(&self, s: Seq<char>) -> Seq<char>;

    /// Applies the rule to one variant name.
    fn apply(&self, s: &str) -> (r: String)
        ensures
            r@ == self.rule_spec(s@),
    ;
}

/// A conversion from a context-bound dotted path to the generic parameter
/// name that replaces it.
pub trait GenericNameRule: Sized {
    /// What the rule computes, stated over the path's segments.
    spec fn rule_spec(&self, segments: Seq<Seq<char>>) -> Seq<char>;

    /// Applies the rule to one dotted path, given as its segments.
    fn apply(&self, segments: &Vec<String>) -> (r: String)
        ensures
            r@ == self.rule_spec(strs_view(segments@)),
    ;
}

/// The default variant-name rule: convert the source name to PascalCase.
pub struct PascalCaseRule;

impl VariantNameRule for PascalCaseRule {
    open spec fn rule_spec(&self, s: Seq<char>) -> Seq<char> {
        pascal_of(s)
    }

    fn apply(&self, s: &str) -> (r: String) {
        to_pascal(s)
    }
}

/// A variant-name rule that keeps the source name unchanged.
pub struct IdentityRule;

impl VariantNameRule for IdentityRule {
    open spec fn rule_spec(&self, s: Seq<char>) -> Seq<char> {
        s
    }

    fn apply(&self, s: &str) -> (r: String) {
        s.to_owned()
    }
}

/// The default generic-name rule: the last segment of the dotted path,
/// so `T::Balance` becomes `Balance`.
pub struct LastSegmentRule;

impl GenericNameRule for LastSegmentRule {
    open spec fn rule_spec(&self, segments: Seq<Seq<char>>) -> Seq<char> {
        if segments.len() == 0 {
            Seq::empty()
        } else {
            segments.last()
        }
    }

    fn apply(&self, segments: &Vec<String>) -> (r: String) {
        if segments.len() == 0 {
            String::new()
        } else {
            segments[segments.len() - 1].clone()
        }
    }
}

} // verus!
