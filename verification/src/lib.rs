//! Content blocking rules: loading a rule list and deciding, request by
//! request, which reactions apply.
//!
//! A rule list is loaded once, from JSON text, into an ordered list of rules.
//! Each request is then evaluated against that list: the rules are visited in
//! order, and every rule whose trigger fires applies its action to the
//! reactions accumulated so far.

pub mod address;
pub mod equality;
pub mod json;
pub mod laws;
pub mod parse;
pub mod pattern;
pub mod repr;
pub mod text;

pub use crate::parse::Error;
pub use crate::repr::{
    Action, DomainConstraint, DomainExemption, DomainMatcher, LoadType, Reaction, Request,
    ResourceType, ResourceTypeList, Rule, Trigger,
};

use crate::json::json_document;
use crate::parse::{loaded, parse_list_impl, result_view};
use crate::repr::{evaluate, process_rules_for_request_impl, reaction_views, rule_views};
use vstd::prelude::*;

verus! {

/// Attempt to match the given request against the provided rules. Returns a list
/// of actions to take in response; an empty list means that the request should
/// continue unmodified.
pub fn process_rules_for_request(rules: &[Rule], request: &Request) -> (reactions: Vec<Reaction>)
    ensures
        reaction_views(reactions@) == evaluate(rule_views(rules@), request@),
{
    process_rules_for_request_impl(rules, request)
}

/// Parse a string containing a JSON representation of a content blocker list.
/// Returns a vector of parsed rules, or an error representing the nature of
/// the invalid input. Any rules missing required fields will be silently ignored.
pub fn parse_list(body: &str) -> (r: Result<Vec<Rule>, Error>)
    ensures
        result_view(r) == loaded(json_document(body@)),
{
    parse_list_impl(body)
}

} // verus!
