//! The loader: from the JSON text of a rule list to the rules.
//!
//! A text that is not JSON, or whose root is not a list, fails as a whole.
//! Everything else is decided element by element: an element that does not
//! describe a usable rule is left out, and loading goes on with the next.

use crate::json::{
    json_array, json_document, json_flag, json_member, json_text, member, parse_value,
};
use crate::pattern::{caseless_prefix, compile, compiled};
use crate::repr::{
    rule_views, texts, Action, ActionView, DomainConstraint, DomainConstraintView, DomainExemption,
    DomainExemptionView, DomainMatcher, DomainSet, LoadType, ResourceType, ResourceTypeList,
    ResourceTypeListView, Rule, RuleView, Trigger, TriggerView,
};
use crate::text::str_eq;
use regex::Regex;
use serde_json::Value;
use vstd::prelude::*;
use vstd::string::*;

verus! {

/// Errors returned when parsing a JSON representation of a list of rules.
#[derive(Copy, Clone, Debug, PartialEq, Eq, Structural)]
pub enum Error {
    /// The text is malformed: it is not valid JSON.
    JSON,
    /// The root JSON value was not a list.
    NotAList,
}

/// The resource type that a tag names, if it names one.
pub open spec fn resource_type_named(tag: Seq<char>) -> Option<ResourceType> {
    if tag == "document"@ {
        Some(ResourceType::Document)
    } else if tag == "image"@ {
        Some(ResourceType::Image)
    } else if tag == "style-sheet"@ {
        Some(ResourceType::StyleSheet)
    } else if tag == "script"@ {
        Some(ResourceType::Script)
    } else if tag == "font"@ {
        Some(ResourceType::Font)
    } else if tag == "raw"@ {
        Some(ResourceType::Raw)
    } else if tag == "svg-document"@ {
        Some(ResourceType::SVGDocument)
    } else if tag == "media"@ {
        Some(ResourceType::Media)
    } else if tag == "popup"@ {
        Some(ResourceType::Popup)
    } else {
        None
    }
}

/// The load type that a tag names, if it names one.
pub open spec fn load_type_named(tag: Seq<char>) -> Option<LoadType> {
    if tag == "first-party"@ {
        Some(LoadType::FirstParty)
    } else if tag == "third-party"@ {
        Some(LoadType::ThirdParty)
    } else {
        None
    }
}

/// The marker that, at the start of a domain string, makes a subdomain entry
/// of it.
pub open spec fn wildcard_marker() -> char {
    '*'
}

/// The entry that a raw domain string stands for: a subdomain entry, without
/// the marker, where the string begins with the wildcard marker; an exact
/// entry otherwise.
pub open spec fn domain_entry(raw: Seq<char>) -> DomainExemptionView {
    if raw.len() > 0 && raw[0] == wildcard_marker() {
        DomainExemptionView::SubdomainMatch(raw.subrange(1, raw.len() as int))
    } else {
        DomainExemptionView::DomainMatch(raw)
    }
}

/// The domain set built from raw domain strings: each string goes, as its
/// entry says, to the exact or to the subdomain collection, and within each
/// the order of the strings is kept.
pub open spec fn domain_set(raw: Seq<Seq<char>>) -> DomainSet
    decreases raw.len(),
{
    if raw.len() == 0 {
        DomainSet { exact: Seq::empty(), subdomain: Seq::empty() }
    } else {
        let earlier = domain_set(raw.drop_last());
        match domain_entry(raw.last()) {
            DomainExemptionView::SubdomainMatch(domain) => DomainSet {
                exact: earlier.exact,
                subdomain: earlier.subdomain.push(domain),
            },
            DomainExemptionView::DomainMatch(domain) => DomainSet {
                exact: earlier.exact.push(domain),
                subdomain: earlier.subdomain,
            },
        }
    }
}

/// The texts of a sequence of string slices.
pub open spec fn slice_texts(strings: Seq<&str>) -> Seq<Seq<char>> {
    strings.map_values(|s: &str| s@)
}

impl ResourceType {
    /// The resource type that the tag names.
    pub fn from_str(s: &str) -> (r: Option<ResourceType>)
        ensures
            r == resource_type_named(s@),
    {
        if str_eq(s, "document") {
            Some(ResourceType::Document)
        } else if str_eq(s, "image") {
            Some(ResourceType::Image)
        } else if str_eq(s, "style-sheet") {
            Some(ResourceType::StyleSheet)
        } else if str_eq(s, "script") {
            Some(ResourceType::Script)
        } else if str_eq(s, "font") {
            Some(ResourceType::Font)
        } else if str_eq(s, "raw") {
            Some(ResourceType::Raw)
        } else if str_eq(s, "svg-document") {
            Some(ResourceType::SVGDocument)
        } else if str_eq(s, "media") {
            Some(ResourceType::Media)
        } else if str_eq(s, "popup") {
            Some(ResourceType::Popup)
        } else {
            None
        }
    }
}

impl LoadType {
    /// The load type that the tag names.
    pub fn from_str(s: &str) -> (r: Option<LoadType>)
        ensures
            r == load_type_named(s@),
    {
        if str_eq(s, "first-party") {
            Some(LoadType::FirstParty)
        } else if str_eq(s, "third-party") {
            Some(LoadType::ThirdParty)
        } else {
            None
        }
    }
}

impl DomainExemption {
    /// The entry that a raw domain string stands for.
    pub fn from_str(s: &str) -> (r: DomainExemption)
        ensures
            r@ == domain_entry(s@),
    {
        let n = s.unicode_len();
        if n > 0 && s.get_char(0) == '*' {
            DomainExemption::SubdomainMatch(s.substring_char(1, n).to_owned())
        } else {
            DomainExemption::DomainMatch(s.to_owned())
        }
    }
}

impl DomainMatcher {
    /// The domain set built from raw domain strings.
    pub fn new(domains: &[&str]) -> (r: DomainMatcher)
        ensures
            r@ == domain_set(slice_texts(domains@)),
    {
        let mut exact: Vec<String> = Vec::new();
        let mut subdomain: Vec<String> = Vec::new();
        let mut i: usize = 0;
        while i < domains.len()
            invariant
                i <= domains.len(),
                texts(exact@) == domain_set(slice_texts(domains@.subrange(0, i as int))).exact,
                texts(subdomain@) == domain_set(
                    slice_texts(domains@.subrange(0, i as int)),
                ).subdomain,
            decreases domains.len() - i,
        {
            proof {
                let before = slice_texts(domains@.subrange(0, i as int));
                let after = slice_texts(domains@.subrange(0, i + 1));
                assert(after.drop_last() =~= before);
                assert(after.last() == domains@[i as int]@);
            }
            let ghost old_exact = exact@;
            let ghost old_subdomain = subdomain@;
            match DomainExemption::from_str(domains[i]) {
                DomainExemption::SubdomainMatch(domain) => {
                    subdomain.push(domain);
                    assert(texts(subdomain@) =~= texts(old_subdomain).push(domain@));
                },
                DomainExemption::DomainMatch(domain) => {
                    exact.push(domain);
                    assert(texts(exact@) =~= texts(old_exact).push(domain@));
                },
            }
            i += 1;
        }
        assert(domains@.subrange(0, i as int) =~= domains@);
        DomainMatcher { exact, subdomain }
    }
}

/// The text of the member of an object under a key, where the object has
/// that member and it is a string.
pub open spec fn text_field(object: Value, key: Seq<char>) -> Option<Seq<char>> {
    match json_member(object, key) {
        Some(value) => json_text(value),
        None => None,
    }
}

/// The elements of the member of an object under a key, where the object has
/// that member and it is an array.
pub open spec fn array_field(object: Value, key: Seq<char>) -> Option<Seq<Value>> {
    match json_member(object, key) {
        Some(value) => json_array(value),
        None => None,
    }
}

/// The resource type that a JSON value names: it is a string, and the string
/// is a known tag.
pub open spec fn resource_type_of(item: Value) -> Option<ResourceType> {
    match json_text(item) {
        Some(tag) => resource_type_named(tag),
        None => None,
    }
}

/// The resource types that the elements of an array name, in their order;
/// elements that name none are passed over.
pub open spec fn recognized_resource_types(items: Seq<Value>) -> Seq<ResourceType>
    decreases items.len(),
{
    if items.len() == 0 {
        Seq::empty()
    } else {
        let earlier = recognized_resource_types(items.drop_last());
        match resource_type_of(items.last()) {
            Some(resource_type) => earlier.push(resource_type),
            None => earlier,
        }
    }
}

/// The resource-type filter of a trigger object: the recognized tags of its
/// `resource-type` array, and every type where there is no such array or no
/// recognized tag in it.
pub open spec fn resource_type_filter(trigger: Value) -> ResourceTypeListView {
    match array_field(trigger, "resource-type"@) {
        Some(items) => {
            if recognized_resource_types(items).len() == 0 {
                ResourceTypeListView::All
            } else {
                ResourceTypeListView::List(recognized_resource_types(items))
            }
        },
        None => ResourceTypeListView::All,
    }
}

/// The load type that a JSON value names: it is a string, and the string is
/// a known tag.
pub open spec fn load_type_of(item: Value) -> Option<LoadType> {
    match json_text(item) {
        Some(tag) => load_type_named(tag),
        None => None,
    }
}

/// The load type named by the first element of an array that names one.
pub open spec fn first_load_type(items: Seq<Value>) -> Option<LoadType>
    decreases items.len(),
{
    if items.len() == 0 {
        None
    } else {
        match load_type_of(items[0]) {
            Some(load_type) => Some(load_type),
            None => first_load_type(items.drop_first()),
        }
    }
}

/// The load-type filter of a trigger object: the first recognized tag of its
/// `load-type` array, and no filter where there is no such array or no
/// recognized tag in it.
pub open spec fn load_type_filter(trigger: Value) -> Option<LoadType> {
    match array_field(trigger, "load-type"@) {
        Some(items) => first_load_type(items),
        None => None,
    }
}

/// The texts of the elements of an array that are strings, in their order.
pub open spec fn string_elements(items: Seq<Value>) -> Seq<Seq<char>>
    decreases items.len(),
{
    if items.len() == 0 {
        Seq::empty()
    } else {
        let earlier = string_elements(items.drop_last());
        match json_text(items.last()) {
            Some(text) => earlier.push(text),
            None => earlier,
        }
    }
}

/// The domain set that the member of a trigger object under a key lists,
/// where that member is an array.
pub open spec fn domain_list(trigger: Value, key: Seq<char>) -> Option<DomainSet> {
    match array_field(trigger, key) {
        Some(items) => Some(domain_set(string_elements(items))),
        None => None,
    }
}

/// Whether a trigger object carries both an `if-domain` and an
/// `unless-domain` member, whatever they hold.
pub open spec fn has_conflicting_domains(trigger: Value) -> bool {
    json_member(trigger, "if-domain"@) is Some && json_member(trigger, "unless-domain"@) is Some
}

/// The domain constraint of a trigger object: `If` with its `if-domain`
/// list, else `Unless` with its `unless-domain` list, else none.
pub open spec fn domain_constraint_of(trigger: Value) -> Option<DomainConstraintView> {
    match domain_list(trigger, "if-domain"@) {
        Some(set) => Some(DomainConstraintView::If(set)),
        None => match domain_list(trigger, "unless-domain"@) {
            Some(set) => Some(DomainConstraintView::Unless(set)),
            None => None,
        },
    }
}

/// Whether a trigger object asks for case-sensitive matching: its
/// `url-filter-is-case-sensitive` member is the boolean `true`.
pub open spec fn is_case_sensitive(trigger: Value) -> bool {
    match json_member(trigger, "url-filter-is-case-sensitive"@) {
        Some(value) => json_flag(value) == Some(true),
        None => false,
    }
}

/// The pattern that is compiled for a trigger object: its `url-filter` text,
/// behind the case-insensitivity prefix unless the trigger asks for
/// case-sensitive matching. `None` where `url-filter` is missing or not a
/// string.
pub open spec fn url_pattern(trigger: Value) -> Option<Seq<char>> {
    match text_field(trigger, "url-filter"@) {
        Some(filter) => Some(
            if is_case_sensitive(trigger) {
                filter
            } else {
                caseless_prefix() + filter
            },
        ),
        None => None,
    }
}

/// The trigger that a trigger object describes. There is none where the
/// pattern is missing or does not compile, and none where the object
/// carries both domain lists.
pub open spec fn trigger_of(trigger: Value) -> Option<TriggerView> {
    match url_pattern(trigger) {
        Some(pattern) => match compiled(pattern) {
            Some(url_filter) => {
                if has_conflicting_domains(trigger) {
                    None
                } else {
                    Some(
                        TriggerView {
                            url_filter,
                            resource_type: resource_type_filter(trigger),
                            load_type: load_type_filter(trigger),
                            domain_constraint: domain_constraint_of(trigger),
                        },
                    )
                }
            },
            None => None,
        },
        None => None,
    }
}

/// The action that an action object describes. There is none where `type`
/// is missing, not a string or not a known action, and none where a
/// `css-display-none` action has no `selector` string.
pub open spec fn action_of(action: Value) -> Option<ActionView> {
    match text_field(action, "type"@) {
        Some(kind) => {
            if kind == "block"@ {
                Some(ActionView::Block)
            } else if kind == "block-cookies"@ {
                Some(ActionView::BlockCookies)
            } else if kind == "ignore-previous-rules"@ {
                Some(ActionView::IgnorePreviousRules)
            } else if kind == "css-display-none"@ {
                match text_field(action, "selector"@) {
                    Some(selector) => Some(ActionView::CssDisplayNone(selector)),
                    None => None,
                }
            } else {
                None
            }
        },
        None => None,
    }
}

/// The rule that an element of the list describes: the trigger of its
/// `trigger` member with the action of its `action` member. There is none
/// where either is missing or describes nothing.
pub open spec fn rule_of(element: Value) -> Option<RuleView> {
    match json_member(element, "trigger"@) {
        Some(trigger_source) => match trigger_of(trigger_source) {
            Some(trigger) => match json_member(element, "action"@) {
                Some(action_source) => match action_of(action_source) {
                    Some(action) => Some(RuleView { trigger, action }),
                    None => None,
                },
                None => None,
            },
            None => None,
        },
        None => None,
    }
}

/// The rules that the elements of the list describe, in their order;
/// elements that describe none are left out.
pub open spec fn rules_of(elements: Seq<Value>) -> Seq<RuleView>
    decreases elements.len(),
{
    if elements.len() == 0 {
        Seq::empty()
    } else {
        let earlier = rules_of(elements.drop_last());
        match rule_of(elements.last()) {
            Some(rule) => earlier.push(rule),
            None => earlier,
        }
    }
}

/// What loading makes of a parsed document, or of the lack of one: the
/// rules of a list, `NotAList` for any other JSON value, and `JSON` where
/// the text was not JSON at all.
pub open spec fn loaded(document: Option<Value>) -> Result<Seq<RuleView>, Error> {
    match document {
        Some(root) => match json_array(root) {
            Some(elements) => Ok(rules_of(elements)),
            None => Err(Error::NotAList),
        },
        None => Err(Error::JSON),
    }
}

/// The value of a loader result: the values of the rules, or the error.
pub open spec fn result_view(result: Result<Vec<Rule>, Error>) -> Result<Seq<RuleView>, Error> {
    match result {
        Ok(rules) => Ok(rule_views(rules@)),
        Err(error) => Err(error),
    }
}

/// The text of the member of an object under a key.
fn get_text<'a>(object: &'a Value, key: &str) -> (r: Option<&'a str>)
    ensures
        match r {
            Some(text) => text_field(*object, key@) == Some(text@),
            None => text_field(*object, key@) is None,
        },
{
    match member(object, key) {
        Some(value) => value.as_str(),
        None => None,
    }
}

/// The elements of the member of an object under a key.
fn get_array<'a>(object: &'a Value, key: &str) -> (r: Option<&'a Vec<Value>>)
    ensures
        match r {
            Some(items) => array_field(*object, key@) == Some(items@),
            None => array_field(*object, key@) is None,
        },
{
    match member(object, key) {
        Some(value) => value.as_array(),
        None => None,
    }
}

/// The resource-type filter of a trigger object.
fn read_resource_types(trigger: &Value) -> (r: ResourceTypeList)
    ensures
        r@ == resource_type_filter(*trigger),
{
    match get_array(trigger, "resource-type") {
        Some(items) => {
            let mut types: Vec<ResourceType> = Vec::new();
            let mut i: usize = 0;
            while i < items.len()
                invariant
                    i <= items.len(),
                    types@ == recognized_resource_types(items@.subrange(0, i as int)),
                decreases items.len() - i,
            {
                proof {
                    assert(items@.subrange(0, i + 1).drop_last() =~= items@.subrange(0, i as int));
                }
                if let Some(tag) = items[i].as_str() {
                    if let Some(resource_type) = ResourceType::from_str(tag) {
                        types.push(resource_type);
                    }
                }
                i += 1;
            }
            assert(items@.subrange(0, i as int) =~= items@);
            if types.len() == 0 {
                ResourceTypeList::All
            } else {
                ResourceTypeList::List(types)
            }
        },
        None => ResourceTypeList::All,
    }
}

/// The load-type filter of a trigger object.
fn read_load_type(trigger: &Value) -> (r: Option<LoadType>)
    ensures
        r == load_type_filter(*trigger),
{
    match get_array(trigger, "load-type") {
        Some(items) => {
            let mut i: usize = 0;
            assert(items@.subrange(0, items.len() as int) =~= items@);
            while i < items.len()
                invariant
                    i <= items.len(),
                    first_load_type(items@) == first_load_type(
                        items@.subrange(i as int, items.len() as int),
                    ),
                    array_field(*trigger, "load-type"@) == Some(items@),
                decreases items.len() - i,
            {
                proof {
                    let rest = items@.subrange(i as int, items.len() as int);
                    assert(rest.drop_first() =~= items@.subrange(i + 1, items.len() as int));
                    assert(rest[0] == items@[i as int]);
                }
                if let Some(tag) = items[i].as_str() {
                    if let Some(load_type) = LoadType::from_str(tag) {
                        return Some(load_type);
                    }
                }
                i += 1;
            }
            None
        },
        None => None,
    }
}

/// The domain set that the member of a trigger object under a key lists.
fn read_domain_list(trigger: &Value, key: &str) -> (r: Option<DomainMatcher>)
    ensures
        match r {
            Some(matcher) => domain_list(*trigger, key@) == Some(matcher@),
            None => domain_list(*trigger, key@) is None,
        },
{
    match get_array(trigger, key) {
        Some(items) => {
            let mut names: Vec<&str> = Vec::new();
            let mut i: usize = 0;
            while i < items.len()
                invariant
                    i <= items.len(),
                    slice_texts(names@) == string_elements(items@.subrange(0, i as int)),
                decreases items.len() - i,
            {
                proof {
                    assert(items@.subrange(0, i + 1).drop_last() =~= items@.subrange(0, i as int));
                }
                if let Some(name) = items[i].as_str() {
                    let ghost before = names@;
                    names.push(name);
                    assert(slice_texts(names@) =~= slice_texts(before).push(name@));
                }
                i += 1;
            }
            assert(items@.subrange(0, i as int) =~= items@);
            Some(DomainMatcher::new(names.as_slice()))
        },
        None => None,
    }
}

/// The domain constraint of a trigger object.
fn read_domain_constraint(trigger: &Value) -> (r: Option<DomainConstraint>)
    ensures
        match r {
            Some(constraint) => domain_constraint_of(*trigger) == Some(constraint@),
            None => domain_constraint_of(*trigger) is None,
        },
{
    match read_domain_list(trigger, "if-domain") {
        Some(matcher) => Some(DomainConstraint::If(matcher)),
        None => match read_domain_list(trigger, "unless-domain") {
            Some(matcher) => Some(DomainConstraint::Unless(matcher)),
            None => None,
        },
    }
}

/// The compiled URL pattern of a trigger object.
fn read_url_filter(trigger: &Value) -> (r: Option<Regex>)
    ensures
        r == match url_pattern(*trigger) {
            Some(pattern) => compiled(pattern),
            None => None,
        },
{
    let case_sensitive = match member(trigger, "url-filter-is-case-sensitive") {
        Some(value) => match value.as_bool() {
            Some(flag) => flag,
            None => false,
        },
        None => false,
    };
    match get_text(trigger, "url-filter") {
        Some(filter) => {
            let pattern = if case_sensitive {
                filter.to_owned()
            } else {
                String::from_str("(?i)").concat(filter)
            };
            compile(pattern.as_str())
        },
        None => None,
    }
}

impl Trigger {
    /// The trigger that a trigger object describes.
    pub fn from_json(v: &Value) -> (r: Option<Trigger>)
        ensures
            match r {
                Some(trigger) => trigger_of(*v) == Some(trigger@),
                None => trigger_of(*v) is None,
            },
    {
        let url_filter = match read_url_filter(v) {
            Some(url_filter) => url_filter,
            None => return None,
        };
        if member(v, "if-domain").is_some() && member(v, "unless-domain").is_some() {
            return None;
        }
        Some(
            Trigger {
                url_filter,
                resource_type: read_resource_types(v),
                load_type: read_load_type(v),
                domain_constraint: read_domain_constraint(v),
            },
        )
    }
}

impl Action {
    /// The action that an action object describes.
    pub fn from_json(v: &Value) -> (r: Option<Action>)
        ensures
            match r {
                Some(action) => action_of(*v) == Some(action@),
                None => action_of(*v) is None,
            },
    {
        match get_text(v, "type") {
            Some(kind) => {
                if str_eq(kind, "block") {
                    Some(Action::Block)
                } else if str_eq(kind, "block-cookies") {
                    Some(Action::BlockCookies)
                } else if str_eq(kind, "ignore-previous-rules") {
                    Some(Action::IgnorePreviousRules)
                } else if str_eq(kind, "css-display-none") {
                    match get_text(v, "selector") {
                        Some(selector) => Some(Action::CssDisplayNone(selector.to_owned())),
                        None => None,
                    }
                } else {
                    None
                }
            },
            None => None,
        }
    }
}

impl Rule {
    /// The rule that an element of the list describes.
    pub fn from_json(v: &Value) -> (r: Option<Rule>)
        ensures
            match r {
                Some(rule) => rule_of(*v) == Some(rule@),
                None => rule_of(*v) is None,
            },
    {
        let trigger = match member(v, "trigger") {
            Some(source) => match Trigger::from_json(source) {
                Some(trigger) => trigger,
                None => return None,
            },
            None => return None,
        };
        let action = match member(v, "action") {
            Some(source) => match Action::from_json(source) {
                Some(action) => action,
                None => return None,
            },
            None => return None,
        };
        Some(Rule { trigger, action })
    }
}

/// The rules of a parsed rule list. A root that is not a list is refused
/// with `NotAList`; an element that describes no rule is left out.
pub fn rules_from_json(document: &Value) -> (r: Result<Vec<Rule>, Error>)
    ensures
        result_view(r) == loaded(Some(*document)),
{
    let elements = match document.as_array() {
        Some(elements) => elements,
        None => return Err(Error::NotAList),
    };
    let mut rules: Vec<Rule> = Vec::new();
    let mut i: usize = 0;
    while i < elements.len()
        invariant
            i <= elements.len(),
            rule_views(rules@) == rules_of(elements@.subrange(0, i as int)),
        decreases elements.len() - i,
    {
        proof {
            assert(elements@.subrange(0, i + 1).drop_last() =~= elements@.subrange(0, i as int));
        }
        if let Some(rule) = Rule::from_json(&elements[i]) {
            let ghost before = rules@;
            rules.push(rule);
            assert(rule_views(rules@) =~= rule_views(before).push(rule@));
        }
        i += 1;
    }
    assert(elements@.subrange(0, i as int) =~= elements@);
    Ok(rules)
}

/// Parse a string containing a JSON representation of a content blocker list.
/// Returns a vector of parsed rules, or an error representing the nature of
/// the invalid input. Any rules missing required fields will be silently ignored.
pub fn parse_list_impl(body: &str) -> (r: Result<Vec<Rule>, Error>)
    ensures
        result_view(r) == loaded(json_document(body@)),
{
    match parse_value(body) {
        Some(document) => rules_from_json(&document),
        None => Err(Error::JSON),
    }
}

} // verus!
