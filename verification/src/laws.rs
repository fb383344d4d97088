//! Laws of loading and evaluation, proved from the definitions that the
//! contracts of the library use.

use crate::json::{json_array, json_member};
use crate::parse::{
    array_field, domain_entry, domain_set, first_load_type,
    has_conflicting_domains, load_type_of, loaded, recognized_resource_types, resource_type_filter,
    resource_type_of, result_view, rule_of, rules_of, text_field, trigger_of, url_pattern, Error,
};
use crate::parse_list;
use crate::pattern::{caseless_prefix, compiled, regex_matches};
use crate::process_rules_for_request;
use crate::repr::{
    evaluate, reaction_views, ActionView, DomainConstraintView, DomainExemptionView, DomainSet,
    LoadType, Reaction, ReactionView, Request, RequestView, ResourceType, ResourceTypeListView,
    Rule, RuleView, TriggerView,
};
use crate::text::{is_strict_subdomain, is_within_domain, label_separator};
use serde_json::Value;
use vstd::prelude::*;

verus! {

/// A text that is not JSON loads to the error `JSON`. A JSON value that is
/// not a list loads to the error `NotAList`. A list always loads to rules,
/// whatever its elements are.
pub proof fn law_fatal_errors(document: Option<Value>)
    ensures
        match document {
            None => loaded(document) == Err::<Seq<RuleView>, Error>(Error::JSON),
            Some(root) => match json_array(root) {
                None => loaded(document) == Err::<Seq<RuleView>, Error>(Error::NotAList),
                Some(elements) => loaded(document) == Ok::<Seq<RuleView>, Error>(
                    rules_of(elements),
                ),
            },
        },
{
}

/// An empty list loads to no rules.
pub proof fn law_empty_list(root: Value)
    requires
        json_array(root) == Some(Seq::<Value>::empty()),
    ensures
        loaded(Some(root)) == Ok::<Seq<RuleView>, Error>(Seq::empty()),
{
}

/// Loading is a function of the text: whatever two loads of the same text
/// return, it is the same error, or the same rules in the same order.
pub proof fn law_loading_deterministic(
    body: &str,
    first: Result<Vec<Rule>, Error>,
    second: Result<Vec<Rule>, Error>,
)
    requires
        call_ensures(parse_list, (body,), first),
        call_ensures(parse_list, (body,), second),
    ensures
        result_view(first) == result_view(second),
{
}

/// Loading goes element by element: the rules of two lists joined are the
/// rules of the first followed by the rules of the second.
pub proof fn law_rules_of_concat(first: Seq<Value>, second: Seq<Value>)
    ensures
        rules_of(first + second) == rules_of(first) + rules_of(second),
    decreases second.len(),
{
    if second.len() == 0 {
        assert(first + second =~= first);
        assert(rules_of(first) + rules_of(second) =~= rules_of(first));
    } else {
        assert((first + second).drop_last() =~= first + second.drop_last());
        assert((first + second).last() == second.last());
        law_rules_of_concat(first, second.drop_last());
        assert(rules_of(first + second) =~= rules_of(first) + rules_of(second));
    }
}

/// An element that describes no rule leaves no trace: the list loads as it
/// would without that element. An element that describes a rule adds
/// exactly that rule, in its place.
pub proof fn law_element_contributes(before: Seq<Value>, element: Value, after: Seq<Value>)
    ensures
        rule_of(element) is None ==> rules_of(before.push(element) + after) == rules_of(
            before + after,
        ),
        rule_of(element) matches Some(rule) ==> rules_of(before.push(element) + after) == rules_of(
            before,
        ).push(rule) + rules_of(after),
{
    law_rules_of_concat(before.push(element), after);
    law_rules_of_concat(before, after);
    assert(before.push(element).drop_last() =~= before);
}

/// An element without a `trigger` member, or without an `action` member,
/// describes no rule.
pub proof fn law_incomplete_element_dropped(element: Value)
    requires
        json_member(element, "trigger"@) is None || json_member(element, "action"@) is None,
    ensures
        rule_of(element) is None,
{
}

/// A trigger object that carries both `if-domain` and `unless-domain`
/// describes no trigger, so an element with such a trigger describes no
/// rule.
pub proof fn law_conflicting_domains_dropped(element: Value, trigger: Value)
    requires
        json_member(element, "trigger"@) == Some(trigger),
        has_conflicting_domains(trigger),
    ensures
        trigger_of(trigger) is None,
        rule_of(element) is None,
{
}

/// Without a `url-filter-is-case-sensitive` member the pattern is compiled
/// behind the case-insensitivity prefix.
pub proof fn law_default_case_insensitive(trigger: Value, filter: Seq<char>)
    requires
        text_field(trigger, "url-filter"@) == Some(filter),
        json_member(trigger, "url-filter-is-case-sensitive"@) is None,
    ensures
        url_pattern(trigger) == Some(caseless_prefix() + filter),
{
}

/// A trigger object that holds an empty `url-filter` and none of the other
/// members describes the default trigger: the case-insensitivity prefix
/// alone as the pattern, every resource type, either load type, no domain
/// constraint.
pub proof fn law_bare_trigger(source: Value)
    requires
        text_field(source, "url-filter"@) == Some(Seq::<char>::empty()),
        json_member(source, "url-filter-is-case-sensitive"@) is None,
        json_member(source, "resource-type"@) is None,
        json_member(source, "load-type"@) is None,
        json_member(source, "if-domain"@) is None,
        json_member(source, "unless-domain"@) is None,
    ensures
        trigger_of(source) == match compiled(caseless_prefix()) {
            Some(url_filter) => Some(
                TriggerView {
                    url_filter,
                    resource_type: ResourceTypeListView::All,
                    load_type: None,
                    domain_constraint: None,
                },
            ),
            None => None,
        },
{
    assert(caseless_prefix() + Seq::<char>::empty() =~= caseless_prefix());
}

/// A trigger loaded from an object without a `resource-type` member fires
/// whatever the resource type of the request is.
pub proof fn law_absent_resource_type(
    source: Value,
    trigger: TriggerView,
    request: RequestView,
    resource_type: ResourceType,
)
    requires
        trigger_of(source) == Some(trigger),
        json_member(source, "resource-type"@) is None,
    ensures
        trigger.matches(request) == trigger.matches(RequestView { resource_type, ..request }),
{
}

/// A trigger loaded from an object without a `load-type` member fires
/// whatever the load type of the request is.
pub proof fn law_absent_load_type(
    source: Value,
    trigger: TriggerView,
    request: RequestView,
    load_type: LoadType,
)
    requires
        trigger_of(source) == Some(trigger),
        json_member(source, "load-type"@) is None,
    ensures
        trigger.matches(request) == trigger.matches(RequestView { load_type, ..request }),
{
}

/// The recognized resource types of an array are exactly the types that
/// its elements name.
pub proof fn law_recognized_resource_types(items: Seq<Value>, resource_type: ResourceType)
    ensures
        recognized_resource_types(items).contains(resource_type) <==> exists|i: int|
            0 <= i < items.len() && resource_type_of(#[trigger] items[i]) == Some(resource_type),
    decreases items.len(),
{
    if items.len() > 0 {
        let earlier = items.drop_last();
        let n = items.len() - 1;
        law_recognized_resource_types(earlier, resource_type);
        let types = recognized_resource_types(items);
        let earlier_types = recognized_resource_types(earlier);
        if types.contains(resource_type) {
            let k = choose|k: int| 0 <= k < types.len() && types[k] == resource_type;
            if k < earlier_types.len() {
                assert(earlier_types[k] == resource_type);
                let i = choose|i: int|
                    0 <= i < earlier.len() && resource_type_of(#[trigger] earlier[i]) == Some(
                        resource_type,
                    );
                assert(resource_type_of(items[i]) == Some(resource_type));
            } else {
                assert(resource_type_of(items[n]) == Some(resource_type));
            }
        }
        if exists|i: int|
            0 <= i < items.len() && resource_type_of(#[trigger] items[i]) == Some(resource_type) {
            let i = choose|i: int|
                0 <= i < items.len() && resource_type_of(#[trigger] items[i]) == Some(
                    resource_type,
                );
            if i < n {
                assert(resource_type_of(earlier[i]) == Some(resource_type));
                let k = choose|k: int|
                    0 <= k < earlier_types.len() && earlier_types[k] == resource_type;
                assert(types[k] == resource_type);
            } else {
                assert(types[types.len() - 1] == resource_type);
            }
        }
    }
}

/// An array without an element that names a resource type has no
/// recognized resource types, and the other way round.
pub proof fn law_no_recognized_resource_type(items: Seq<Value>)
    ensures
        recognized_resource_types(items).len() == 0 <==> forall|i: int|
            0 <= i < items.len() ==> resource_type_of(#[trigger] items[i]) is None,
    decreases items.len(),
{
    if items.len() > 0 {
        let earlier = items.drop_last();
        law_no_recognized_resource_type(earlier);
        if recognized_resource_types(items).len() == 0 {
            assert forall|i: int| 0 <= i < items.len() implies resource_type_of(
                #[trigger] items[i],
            ) is None by {
                if i < items.len() - 1 {
                    assert(earlier[i] == items[i]);
                }
            }
        }
        if forall|i: int| 0 <= i < items.len() ==> resource_type_of(#[trigger] items[i]) is None {
            assert forall|i: int| 0 <= i < earlier.len() implies resource_type_of(
                #[trigger] earlier[i],
            ) is None by {
                assert(earlier[i] == items[i]);
            }
            assert(resource_type_of(items[items.len() - 1]) is None);
        }
    }
}

/// The resource-type filter of a trigger object lets a resource type
/// through exactly if the object has no `resource-type` array, or no element
/// of that array names a resource type, or one of them names this type.
pub proof fn law_resource_type_filter(trigger: Value, resource_type: ResourceType)
    ensures
        resource_type_filter(trigger).admits(resource_type) <==> match array_field(
            trigger,
            "resource-type"@,
        ) {
            Some(items) => {
                ||| forall|i: int|
                    0 <= i < items.len() ==> resource_type_of(#[trigger] items[i]) is None
                ||| exists|i: int|
                    0 <= i < items.len() && resource_type_of(#[trigger] items[i]) == Some(
                        resource_type,
                    )
            },
            None => true,
        },
{
    match array_field(trigger, "resource-type"@) {
        Some(items) => {
            law_recognized_resource_types(items, resource_type);
            law_no_recognized_resource_type(items);
        },
        None => {},
    }
}

/// The load type read from an array is the one named by the first element
/// that names any; there is none exactly if no element names one.
pub proof fn law_first_load_type(items: Seq<Value>)
    ensures
        match first_load_type(items) {
            Some(load_type) => exists|i: int|
                0 <= i < items.len() && load_type_of(#[trigger] items[i]) == Some(load_type)
                    && forall|j: int| 0 <= j < i ==> load_type_of(#[trigger] items[j]) is None,
            None => forall|j: int| 0 <= j < items.len() ==> load_type_of(#[trigger] items[j]) is None,
        },
    decreases items.len(),
{
    if items.len() > 0 {
        let rest = items.drop_first();
        law_first_load_type(rest);
        match load_type_of(items[0]) {
            Some(load_type) => {
                assert(load_type_of(items[0]) == Some(load_type) && forall|j: int|
                    0 <= j < 0 ==> load_type_of(#[trigger] items[j]) is None);
            },
            None => {
                match first_load_type(rest) {
                    Some(load_type) => {
                        let i = choose|i: int|
                            0 <= i < rest.len() && load_type_of(#[trigger] rest[i]) == Some(
                                load_type,
                            ) && forall|j: int|
                                0 <= j < i ==> load_type_of(#[trigger] rest[j]) is None;
                        assert forall|j: int| 0 <= j < i + 1 implies load_type_of(
                            #[trigger] items[j],
                        ) is None by {
                            if j > 0 {
                                assert(rest[j - 1] == items[j]);
                            }
                        }
                        assert(load_type_of(items[i + 1]) == Some(load_type));
                    },
                    None => {
                        assert forall|j: int| 0 <= j < items.len() implies load_type_of(
                            #[trigger] items[j],
                        ) is None by {
                            if j > 0 {
                                assert(rest[j - 1] == items[j]);
                            }
                        }
                    },
                }
            },
        }
    }
}

/// A domain set built from raw strings covers a host exactly if the entry of
/// one of the strings covers it.
pub proof fn law_domain_set_covers(raw: Seq<Seq<char>>, host: Seq<char>)
    ensures
        domain_set(raw).covers(host) <==> exists|i: int|
            0 <= i < raw.len() && (#[trigger] domain_entry(raw[i])).covers(host),
    decreases raw.len(),
{
    if raw.len() > 0 {
        let earlier = raw.drop_last();
        let set = domain_set(raw);
        let earlier_set = domain_set(earlier);
        law_domain_set_covers(earlier, host);
        let n = raw.len() - 1;
        if set.covers(host) {
            if earlier_set.covers(host) {
                let i = choose|i: int|
                    0 <= i < earlier.len() && (#[trigger] domain_entry(earlier[i])).covers(host);
                assert(domain_entry(raw[i]).covers(host));
            } else {
                if set.exact.contains(host) {
                    let k = choose|k: int| 0 <= k < set.exact.len() && set.exact[k] == host;
                    if k < earlier_set.exact.len() {
                        assert(earlier_set.exact[k] == host);
                    }
                } else {
                    let k = choose|k: int|
                        0 <= k < set.subdomain.len() && is_within_domain(
                            host,
                            #[trigger] set.subdomain[k],
                        );
                    if k < earlier_set.subdomain.len() {
                        assert(earlier_set.subdomain[k] == set.subdomain[k]);
                    }
                }
                assert(domain_entry(raw[n]).covers(host));
            }
        }
        if exists|i: int| 0 <= i < raw.len() && (#[trigger] domain_entry(raw[i])).covers(host) {
            let i = choose|i: int|
                0 <= i < raw.len() && (#[trigger] domain_entry(raw[i])).covers(host);
            if i < n {
                assert(domain_entry(earlier[i]).covers(host));
                assert(earlier_set.covers(host));
                if earlier_set.exact.contains(host) {
                    let k = choose|k: int|
                        0 <= k < earlier_set.exact.len() && earlier_set.exact[k] == host;
                    assert(set.exact[k] == host);
                } else {
                    let k = choose|k: int|
                        0 <= k < earlier_set.subdomain.len() && is_within_domain(
                            host,
                            #[trigger] earlier_set.subdomain[k],
                        );
                    assert(set.subdomain[k] == earlier_set.subdomain[k]);
                }
            } else {
                match domain_entry(raw[n]) {
                    DomainExemptionView::SubdomainMatch(domain) => {
                        assert(set.subdomain[set.subdomain.len() - 1] == domain);
                    },
                    DomainExemptionView::DomainMatch(domain) => {
                        assert(set.exact[set.exact.len() - 1] == domain);
                    },
                }
            }
        }
    }
}

/// The name that lies below `entry` at the end of `prefix`: the prefix, the
/// label separator, the entry.
pub open spec fn name_below(prefix: Seq<char>, entry: Seq<char>) -> Seq<char> {
    prefix + seq![label_separator()] + entry
}

/// A host lies strictly below an entry exactly if it is some text, then the
/// label separator, then the entry.
pub proof fn law_strict_subdomain_shape(host: Seq<char>, entry: Seq<char>)
    ensures
        is_strict_subdomain(host, entry) <==> exists|prefix: Seq<char>|
            host == #[trigger] name_below(prefix, entry),
{
    if is_strict_subdomain(host, entry) {
        let prefix = host.subrange(0, host.len() - entry.len() - 1);
        assert(host =~= name_below(prefix, entry));
    }
    if exists|prefix: Seq<char>| host == #[trigger] name_below(prefix, entry) {
        let prefix = choose|prefix: Seq<char>| host == #[trigger] name_below(prefix, entry);
        assert(host.len() == prefix.len() + 1 + entry.len());
        assert(host[host.len() - entry.len() - 1] == label_separator());
        assert(host.subrange(host.len() - entry.len(), host.len() as int) =~= entry);
    }
}

/// `If` and `Unless` over the same set are opposites: whatever host one
/// lets through, the other refuses.
pub proof fn law_constraint_duality(set: DomainSet, host: Option<Seq<char>>)
    ensures
        DomainConstraintView::If(set).allows(host) == !DomainConstraintView::Unless(set).allows(
            host,
        ),
{
}

/// A request without a host passes every `Unless` constraint and no `If`
/// constraint.
pub proof fn law_no_host(set: DomainSet)
    ensures
        !DomainConstraintView::If(set).allows(None),
        DomainConstraintView::Unless(set).allows(None),
{
}

/// The URL pattern gates the trigger: where it does not match the URL, the
/// trigger does not fire, whatever the domain constraint says of the host.
pub proof fn law_pattern_gates_trigger(trigger: TriggerView, request: RequestView)
    requires
        !regex_matches(trigger.url_filter, request.url),
    ensures
        !trigger.matches(request),
{
}

/// One more rule at the end of a list applies its action to what the list
/// yields, if it fires, and changes nothing if it does not.
pub proof fn law_evaluate_push(rules: Seq<RuleView>, rule: RuleView, request: RequestView)
    ensures
        evaluate(rules.push(rule), request) == if rule.trigger.matches(request) {
            rule.action.apply(evaluate(rules, request))
        } else {
            evaluate(rules, request)
        },
{
    assert(rules.push(rule).drop_last() =~= rules);
}

/// A rule that does not fire leaves no trace: the list evaluates as it would
/// without that rule.
pub proof fn law_silent_rule(
    before: Seq<RuleView>,
    rule: RuleView,
    after: Seq<RuleView>,
    request: RequestView,
)
    requires
        !rule.trigger.matches(request),
    ensures
        evaluate(before.push(rule) + after, request) == evaluate(before + after, request),
    decreases after.len(),
{
    let head = before.push(rule);
    if after.len() == 0 {
        assert(head + after =~= head);
        assert(before + after =~= before);
        assert(head.drop_last() =~= before);
    } else {
        assert((head + after).drop_last() =~= head + after.drop_last());
        assert((before + after).drop_last() =~= before + after.drop_last());
        assert((head + after).last() == after.last());
        assert((before + after).last() == after.last());
        law_silent_rule(before, rule, after.drop_last(), request);
    }
}

/// Where no rule fires, there is no reaction.
pub proof fn law_no_match_no_reaction(rules: Seq<RuleView>, request: RequestView)
    requires
        forall|i: int| 0 <= i < rules.len() ==> !(#[trigger] rules[i]).trigger.matches(request),
    ensures
        evaluate(rules, request) == Seq::<ReactionView>::empty(),
    decreases rules.len(),
{
    if rules.len() > 0 {
        assert(rules.last() == rules[rules.len() - 1]);
        assert forall|i: int| 0 <= i < rules.drop_last().len() implies !(
        #[trigger] rules.drop_last()[i]).trigger.matches(request) by {
            assert(rules.drop_last()[i] == rules[i]);
        }
        law_no_match_no_reaction(rules.drop_last(), request);
    }
}

/// Where every rule fires and none ignores previous rules, each rule
/// contributes its reaction, in the order of the rules.
pub proof fn law_each_firing_rule_reacts(rules: Seq<RuleView>, request: RequestView)
    requires
        forall|i: int| 0 <= i < rules.len() ==> (#[trigger] rules[i]).trigger.matches(request),
        forall|i: int| 0 <= i < rules.len() ==> (#[trigger] rules[i]).action.reaction() is Some,
    ensures
        evaluate(rules, request).len() == rules.len(),
        forall|i: int|
            0 <= i < rules.len() ==> (#[trigger] rules[i]).action.reaction() == Some(
                evaluate(rules, request)[i],
            ),
    decreases rules.len(),
{
    if rules.len() > 0 {
        let earlier = rules.drop_last();
        assert forall|i: int| 0 <= i < earlier.len() implies (#[trigger] earlier[i]).trigger.matches(
            request,
        ) && earlier[i].action.reaction() is Some by {
            assert(earlier[i] == rules[i]);
        }
        law_each_firing_rule_reacts(earlier, request);
        assert(rules.last() == rules[rules.len() - 1]);
        assert forall|i: int| 0 <= i < rules.len() implies (#[trigger] rules[i]).action.reaction()
            == Some(evaluate(rules, request)[i]) by {
            if i < rules.len() - 1 {
                assert(earlier[i] == rules[i]);
            }
        }
    }
}

/// Rule order alone decides precedence: a firing rule that ignores previous
/// rules wipes out whatever the rules before it produced, so the list
/// evaluates as the rules after it would alone.
pub proof fn law_reset_discards_earlier(
    before: Seq<RuleView>,
    reset: RuleView,
    after: Seq<RuleView>,
    request: RequestView,
)
    requires
        reset.action == ActionView::IgnorePreviousRules,
        reset.trigger.matches(request),
    ensures
        evaluate(before.push(reset) + after, request) == evaluate(after, request),
    decreases after.len(),
{
    let head = before.push(reset);
    if after.len() == 0 {
        assert(head + after =~= head);
        assert(head.drop_last() =~= before);
    } else {
        assert((head + after).drop_last() =~= head + after.drop_last());
        assert((head + after).last() == after.last());
        law_reset_discards_earlier(before, reset, after.drop_last(), request);
    }
}

/// Evaluation is a function of the rules and the request: whatever two
/// evaluations of the same rules against the same request return, it is the
/// same reactions in the same order.
pub proof fn law_evaluation_deterministic(
    rules: &[Rule],
    request: &Request,
    first: Vec<Reaction>,
    second: Vec<Reaction>,
)
    requires
        call_ensures(process_rules_for_request, (rules, request), first),
        call_ensures(process_rules_for_request, (rules, request), second),
    ensures
        reaction_views(first@) == reaction_views(second@),
{
}

} // verus!
