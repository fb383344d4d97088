//! Equality of triggers and rules.
//!
//! A compiled pattern cannot be compared as such. Two triggers are equal
//! where their patterns were compiled from the same text and their filters
//! and domain constraints are the same.

use crate::pattern::regex_source;
use crate::repr::{
    texts, DomainConstraint, DomainMatcher, LoadType, ResourceTypeList, ResourceTypeListView,
    Trigger,
};
use crate::text::str_eq;
use vstd::prelude::*;

verus! {

/// Whether two lists of strings hold the same texts in the same order.
fn same_strings(a: &Vec<String>, b: &Vec<String>) -> (r: bool)
    ensures
        r == (texts(a@) == texts(b@)),
{
    if a.len() != b.len() {
        assert(texts(a@).len() != texts(b@).len());
        return false;
    }
    let mut i: usize = 0;
    while i < a.len()
        invariant
            a.len() == b.len(),
            i <= a.len(),
            forall|k: int| 0 <= k < i ==> a@[k]@ == b@[k]@,
        decreases a.len() - i,
    {
        if !str_eq(a[i].as_str(), b[i].as_str()) {
            assert(texts(a@)[i as int] != texts(b@)[i as int]);
            return false;
        }
        i += 1;
    }
    assert(texts(a@) =~= texts(b@));
    true
}

/// Whether two domain sets hold the same entries in the same order.
fn same_matcher(a: &DomainMatcher, b: &DomainMatcher) -> (r: bool)
    ensures
        r == (a@ == b@),
{
    same_strings(&a.exact, &b.exact) && same_strings(&a.subdomain, &b.subdomain)
}

/// Whether two optional domain constraints are the same.
fn same_constraint(a: &Option<DomainConstraint>, b: &Option<DomainConstraint>) -> (r: bool)
    ensures
        r == (a.is_some() == b.is_some() && (a.is_some() ==> a.unwrap()@ == b.unwrap()@)),
{
    match (a, b) {
        (None, None) => true,
        (Some(DomainConstraint::If(x)), Some(DomainConstraint::If(y))) => same_matcher(x, y),
        (Some(DomainConstraint::Unless(x)), Some(DomainConstraint::Unless(y))) => same_matcher(
            x,
            y,
        ),
        _ => false,
    }
}

/// Whether two resource-type filters are the same.
fn same_resource_types(a: &ResourceTypeList, b: &ResourceTypeList) -> (r: bool)
    ensures
        r == (a@ == b@),
{
    match (a, b) {
        (ResourceTypeList::All, ResourceTypeList::All) => true,
        (ResourceTypeList::List(x), ResourceTypeList::List(y)) => {
            if x.len() != y.len() {
                assert(x@.len() != y@.len());
                return false;
            }
            let mut i: usize = 0;
            while i < x.len()
                invariant
                    a@ == ResourceTypeListView::List(x@),
                    b@ == ResourceTypeListView::List(y@),
                    x.len() == y.len(),
                    i <= x.len(),
                    forall|k: int| 0 <= k < i ==> x@[k] == y@[k],
                decreases x.len() - i,
            {
                if x[i] != y[i] {
                    assert(x@[i as int] != y@[i as int]);
                    return false;
                }
                i += 1;
            }
            assert(x@ =~= y@);
            true
        },
        _ => false,
    }
}

/// Whether two optional load types are the same.
fn same_load_type(a: Option<LoadType>, b: Option<LoadType>) -> (r: bool)
    ensures
        r == (a == b),
{
    match (a, b) {
        (None, None) => true,
        (Some(x), Some(y)) => x == y,
        _ => false,
    }
}

impl PartialEq for Trigger {
    fn eq(&self, other: &Trigger) -> (r: bool) {
        str_eq(self.url_filter.as_str(), other.url_filter.as_str()) && same_resource_types(
            &self.resource_type,
            &other.resource_type,
        ) && same_load_type(self.load_type, other.load_type) && same_constraint(
            &self.domain_constraint,
            &other.domain_constraint,
        )
    }
}

impl vstd::std_specs::cmp::PartialEqSpecImpl for Trigger {
    open spec fn obeys_eq_spec() -> bool {
        true
    }

    open spec fn eq_spec(&self, other: &Trigger) -> bool {
        &&& regex_source(self.url_filter) == regex_source(other.url_filter)
        &&& self.resource_type@ == other.resource_type@
        &&& self.load_type == other.load_type
        &&& self@.domain_constraint == other@.domain_constraint
    }
}

} // verus!
