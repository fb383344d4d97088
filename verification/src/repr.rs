//! The rule representation and the engine that evaluates an ordered rule
//! list against a request.

use crate::address::{url_domain, url_text};
use crate::pattern::{caseless_prefix, compile, compiled, regex_matches, regex_source};
use crate::text::{is_within_domain, str_eq, within_domain};
use regex::Regex;
use url::Url;
use vstd::prelude::*;

verus! {

/// The type of resource being requested.
#[derive(Copy, Clone, Debug, PartialEq, Eq, Structural)]
pub enum ResourceType {
    /// A top-level document.
    Document,
    /// An image subresource.
    Image,
    /// A CSS stylesheet subresource.
    StyleSheet,
    /// A JavaScript subresource.
    Script,
    /// A web font.
    Font,
    /// An uncategorized request (eg. XMLHttpRequest).
    Raw,
    /// An SVG document.
    SVGDocument,
    /// A media resource.
    Media,
    /// A popup resource.
    Popup,
}

/// The type of load that is being initiated.
#[derive(Copy, Clone, Debug, PartialEq, Eq, Structural)]
pub enum LoadType {
    /// Same-origin with respect to the originating page.
    FirstParty,
    /// Cross-origin with respect to the originating page.
    ThirdParty,
}

/// A potential list of resource types being requested.
#[derive(Clone, Debug, PartialEq)]
pub enum ResourceTypeList {
    /// All possible types.
    All,
    /// An explicit list of resource types.
    List(Vec<ResourceType>),
}

/// The mathematical value of a `ResourceTypeList`.
pub enum ResourceTypeListView {
    All,
    List(Seq<ResourceType>),
}

impl ResourceTypeListView {
    /// Whether the filter lets a resource type through: every type where it
    /// is `All`, the listed types where it is an explicit list.
    pub open spec fn admits(self, resource_type: ResourceType) -> bool {
        match self {
            ResourceTypeListView::All => true,
            ResourceTypeListView::List(types) => types.contains(resource_type),
        }
    }
}

impl View for ResourceTypeList {
    type V = ResourceTypeListView;

    open spec fn view(&self) -> ResourceTypeListView {
        match self {
            ResourceTypeList::All => ResourceTypeListView::All,
            ResourceTypeList::List(types) => ResourceTypeListView::List(types@),
        }
    }
}

impl ResourceTypeList {
    /// Whether the filter lets a resource type through.
    pub fn admits(&self, resource_type: ResourceType) -> (b: bool)
        ensures
            b == self@.admits(resource_type),
    {
        match self {
            ResourceTypeList::All => true,
            ResourceTypeList::List(types) => {
                let mut i: usize = 0;
                while i < types.len()
                    invariant
                        self@ == ResourceTypeListView::List(types@),
                        i <= types.len(),
                        forall|k: int| 0 <= k < i ==> types@[k] != resource_type,
                    decreases types.len() - i,
                {
                    if types[i] == resource_type {
                        assert(types@[i as int] == resource_type);
                        return true;
                    }
                    i += 1;
                }
                false
            },
        }
    }
}

/// One entry of a domain list.
#[derive(Clone, Debug, PartialEq)]
pub enum DomainExemption {
    /// The named domain and every domain below it.
    SubdomainMatch(String),
    /// The named domain alone.
    DomainMatch(String),
}

/// The mathematical value of a `DomainExemption`.
pub enum DomainExemptionView {
    SubdomainMatch(Seq<char>),
    DomainMatch(Seq<char>),
}

impl DomainExemptionView {
    /// Whether the entry covers a host: an exact entry covers the host equal
    /// to it, a subdomain entry also every host strictly below it.
    pub open spec fn covers(self, host: Seq<char>) -> bool {
        match self {
            DomainExemptionView::SubdomainMatch(domain) => is_within_domain(host, domain),
            DomainExemptionView::DomainMatch(domain) => host == domain,
        }
    }
}

impl View for DomainExemption {
    type V = DomainExemptionView;

    open spec fn view(&self) -> DomainExemptionView {
        match self {
            DomainExemption::SubdomainMatch(domain) => DomainExemptionView::SubdomainMatch(
                domain@,
            ),
            DomainExemption::DomainMatch(domain) => DomainExemptionView::DomainMatch(domain@),
        }
    }
}

impl DomainExemption {
    /// Whether the entry covers the host.
    pub fn matches(&self, host: &str) -> (b: bool)
        ensures
            b == self@.covers(host@),
    {
        match self {
            DomainExemption::SubdomainMatch(domain) => within_domain(host, domain.as_str()),
            DomainExemption::DomainMatch(domain) => str_eq(host, domain.as_str()),
        }
    }
}

/// A set of domains, held as the entries that match exactly and the entries
/// that also match every subdomain.
#[derive(Clone, Debug, PartialEq)]
pub struct DomainMatcher {
    /// Domains that match only themselves.
    pub exact: Vec<String>,
    /// Domains that match themselves and every domain below them.
    pub subdomain: Vec<String>,
}

/// The texts of a sequence of strings.
pub open spec fn texts(strings: Seq<String>) -> Seq<Seq<char>> {
    strings.map_values(|s: String| s@)
}

/// The mathematical value of a `DomainMatcher`.
pub struct DomainSet {
    pub exact: Seq<Seq<char>>,
    pub subdomain: Seq<Seq<char>>,
}

impl DomainSet {
    /// Whether the set covers a host: the host is one of the exact entries,
    /// or it is one of the subdomain entries or lies strictly below one.
    pub open spec fn covers(self, host: Seq<char>) -> bool {
        ||| self.exact.contains(host)
        ||| exists|i: int|
            0 <= i < self.subdomain.len() && is_within_domain(host, #[trigger] self.subdomain[i])
    }

    /// Whether the set covers the host of a request. A request without a
    /// host is covered by no set.
    pub open spec fn covers_host(self, host: Option<Seq<char>>) -> bool {
        match host {
            Some(name) => self.covers(name),
            None => false,
        }
    }
}

impl View for DomainMatcher {
    type V = DomainSet;

    open spec fn view(&self) -> DomainSet {
        DomainSet { exact: texts(self.exact@), subdomain: texts(self.subdomain@) }
    }
}

/// The text of an optional string slice.
pub open spec fn optional_text(text: Option<&str>) -> Option<Seq<char>> {
    match text {
        Some(text) => Some(text@),
        None => None,
    }
}

impl DomainMatcher {
    /// Whether the set covers the domain.
    pub fn matches_domain(&self, domain: &str) -> (b: bool)
        ensures
            b == self@.covers(domain@),
    {
        let mut i: usize = 0;
        while i < self.exact.len()
            invariant
                i <= self.exact.len(),
                forall|k: int| 0 <= k < i ==> self.exact@[k]@ != domain@,
            decreases self.exact.len() - i,
        {
            if str_eq(domain, self.exact[i].as_str()) {
                assert(self@.exact[i as int] == domain@);
                return true;
            }
            i += 1;
        }
        let mut j: usize = 0;
        while j < self.subdomain.len()
            invariant
                j <= self.subdomain.len(),
                forall|k: int| 0 <= k < self.exact.len() ==> self.exact@[k]@ != domain@,
                forall|k: int| 0 <= k < j ==> !is_within_domain(domain@, self.subdomain@[k]@),
            decreases self.subdomain.len() - j,
        {
            if within_domain(domain, self.subdomain[j].as_str()) {
                assert(is_within_domain(domain@, self@.subdomain[j as int]));
                return true;
            }
            j += 1;
        }
        assert(!self@.exact.contains(domain@));
        false
    }

    /// Whether the set covers the host of a request. A request without a
    /// host is covered by no set.
    pub fn matches_host(&self, host: Option<&str>) -> (b: bool)
        ensures
            b == self@.covers_host(optional_text(host)),
    {
        match host {
            Some(domain) => self.matches_domain(domain),
            None => false,
        }
    }

    /// Whether the set covers the host of the URL. A URL whose host is not a
    /// domain name is covered by no set.
    pub fn matches(&self, url: &Url) -> (b: bool)
        ensures
            b == self@.covers_host(url_domain(*url)),
    {
        self.matches_host(url.domain())
    }
}

/// Conditions which restrict the set of matches for a particular trigger.
#[derive(Clone, Debug, PartialEq)]
pub enum DomainConstraint {
    /// Only trigger if the domain matches one of the included strings.
    If(DomainMatcher),
    /// Trigger unless the domain matches one of the included strings.
    Unless(DomainMatcher),
}

/// The mathematical value of a `DomainConstraint`.
pub enum DomainConstraintView {
    If(DomainSet),
    Unless(DomainSet),
}

impl DomainConstraintView {
    /// Whether the constraint lets a request with this host through.
    pub open spec fn allows(self, host: Option<Seq<char>>) -> bool {
        match self {
            DomainConstraintView::If(set) => set.covers_host(host),
            DomainConstraintView::Unless(set) => !set.covers_host(host),
        }
    }
}

impl View for DomainConstraint {
    type V = DomainConstraintView;

    open spec fn view(&self) -> DomainConstraintView {
        match self {
            DomainConstraint::If(matcher) => DomainConstraintView::If(matcher@),
            DomainConstraint::Unless(matcher) => DomainConstraintView::Unless(matcher@),
        }
    }
}

impl DomainConstraint {
    /// Whether the constraint lets a request with this host through.
    pub fn allows_host(&self, host: Option<&str>) -> (b: bool)
        ensures
            b == self@.allows(optional_text(host)),
    {
        match self {
            DomainConstraint::If(matcher) => matcher.matches_host(host),
            DomainConstraint::Unless(matcher) => !matcher.matches_host(host),
        }
    }

    /// Whether the constraint lets a request for this URL through.
    pub fn allows(&self, url: &Url) -> (b: bool)
        ensures
            b == self@.allows(url_domain(*url)),
    {
        self.allows_host(url.domain())
    }
}

/// A request that could be filtered.
pub struct Request<'a> {
    /// The requested URL.
    pub url: &'a Url,
    /// The resource type for which this request was initiated.
    pub resource_type: ResourceType,
    /// The relationship of this request to the originating document.
    pub load_type: LoadType,
}

/// The mathematical value of a `Request`: what evaluation reads of it.
pub struct RequestView {
    /// The full text of the URL.
    pub url: Seq<char>,
    /// The domain name of the URL's host, where it has one.
    pub host: Option<Seq<char>>,
    pub resource_type: ResourceType,
    pub load_type: LoadType,
}

impl<'a> View for Request<'a> {
    type V = RequestView;

    open spec fn view(&self) -> RequestView {
        RequestView {
            url: url_text(*self.url),
            host: url_domain(*self.url),
            resource_type: self.resource_type,
            load_type: self.load_type,
        }
    }
}

/// A set of filters that determine if a given rule's action is performed.
#[derive(Clone, Debug)]
pub struct Trigger {
    /// A simple regex that is matched against the characters in the destination resource's URL.
    pub url_filter: Regex,
    /// The classes of resources for which this trigger matches.
    pub resource_type: ResourceTypeList,
    /// The category of loads for which this trigger matches.
    pub load_type: Option<LoadType>,
    /// Domains which modify the behaviour of this trigger, either specifically including or
    /// excluding from the matches based on string comparison.
    pub domain_constraint: Option<DomainConstraint>,
}

/// The mathematical value of a `Trigger`.
pub struct TriggerView {
    pub url_filter: Regex,
    pub resource_type: ResourceTypeListView,
    pub load_type: Option<LoadType>,
    pub domain_constraint: Option<DomainConstraintView>,
}

impl TriggerView {
    /// Whether the trigger fires for a request: the resource type passes the
    /// filter, the load type is the required one where one is required, the
    /// URL pattern matches the full URL, and the domain constraint, where
    /// there is one, lets the host through.
    pub open spec fn matches(self, request: RequestView) -> bool {
        &&& self.admits(request.resource_type, request.load_type)
        &&& regex_matches(self.url_filter, request.url)
        &&& match self.domain_constraint {
            Some(constraint) => constraint.allows(request.host),
            None => true,
        }
    }

    /// Whether the filters on resource type and load type let a request
    /// through: the resource type passes the resource-type filter, and the
    /// load type is the required one where one is required.
    pub open spec fn admits(self, resource_type: ResourceType, load_type: LoadType) -> bool {
        &&& self.resource_type.admits(resource_type)
        &&& match self.load_type {
            Some(required) => load_type == required,
            None => true,
        }
    }
}

impl View for Trigger {
    type V = TriggerView;

    open spec fn view(&self) -> TriggerView {
        TriggerView {
            url_filter: self.url_filter,
            resource_type: self.resource_type@,
            load_type: self.load_type,
            domain_constraint: match self.domain_constraint {
                Some(constraint) => Some(constraint@),
                None => None,
            },
        }
    }
}

impl Default for Trigger {
    /// The trigger that an empty pattern and nothing else stand for: the
    /// case-insensitivity prefix alone as the pattern, every resource type,
    /// either load type, no domain constraint.
    fn default() -> (r: Trigger)
        ensures
            compiled(caseless_prefix()) == Some(r.url_filter),
            regex_source(r.url_filter) == caseless_prefix(),
            r.resource_type@ == ResourceTypeListView::All,
            r.load_type is None,
            r.domain_constraint is None,
    {
        Trigger {
            url_filter: compile("(?i)").unwrap(),
            resource_type: ResourceTypeList::All,
            load_type: None,
            domain_constraint: None,
        }
    }
}

impl Trigger {
    /// Whether the trigger fires for the request. The filters on resource
    /// type and load type come first, then the URL pattern; the domain
    /// constraint is consulted only once the pattern has matched.
    pub fn matches(&self, request: &Request) -> (b: bool)
        ensures
            b == self@.matches(request@),
    {
        if !self.admits(request.resource_type, request.load_type) {
            return false;
        }
        if self.url_filter.is_match(request.url.as_str()) {
            match &self.domain_constraint {
                Some(constraint) => constraint.allows(request.url),
                None => true,
            }
        } else {
            false
        }
    }

    /// Whether the filters on resource type and load type let a request
    /// through.
    pub fn admits(&self, resource_type: ResourceType, load_type: LoadType) -> (b: bool)
        ensures
            b == self@.admits(resource_type, load_type),
    {
        if !self.resource_type.admits(resource_type) {
            return false;
        }
        match self.load_type {
            Some(required) => load_type == required,
            None => true,
        }
    }
}

/// The action to take for the provided request.
#[derive(Debug, PartialEq)]
pub enum Reaction {
    /// Block the request from starting.
    Block,
    /// Strip the HTTP cookies from the request.
    BlockCookies,
    /// Hide the elements matching the given CSS selector in the originating document.
    HideMatchingElements(String),
}

/// The mathematical value of a `Reaction`.
pub enum ReactionView {
    Block,
    BlockCookies,
    HideMatchingElements(Seq<char>),
}

impl View for Reaction {
    type V = ReactionView;

    open spec fn view(&self) -> ReactionView {
        match self {
            Reaction::Block => ReactionView::Block,
            Reaction::BlockCookies => ReactionView::BlockCookies,
            Reaction::HideMatchingElements(selector) => ReactionView::HideMatchingElements(
                selector@,
            ),
        }
    }
}

/// The values of a sequence of reactions.
pub open spec fn reaction_views(reactions: Seq<Reaction>) -> Seq<ReactionView> {
    reactions.map_values(|r: Reaction| r@)
}

/// An action to take when a rule is triggered.
#[derive(Clone, Debug, PartialEq)]
pub enum Action {
    /// Prevent the network request from starting.
    Block,
    /// Remove any HTTP cookies from the network request before starting it.
    BlockCookies,
    /// Hide elements of the requesting page based on the given CSS selector.
    CssDisplayNone(String),
    /// Any previously triggered rules do not have their actions performed.
    IgnorePreviousRules,
}

/// The mathematical value of an `Action`.
pub enum ActionView {
    Block,
    BlockCookies,
    CssDisplayNone(Seq<char>),
    IgnorePreviousRules,
}

impl ActionView {
    /// The reaction that the action contributes. The action that ignores
    /// previous rules contributes none.
    pub open spec fn reaction(self) -> Option<ReactionView> {
        match self {
            ActionView::Block => Some(ReactionView::Block),
            ActionView::BlockCookies => Some(ReactionView::BlockCookies),
            ActionView::CssDisplayNone(selector) => Some(
                ReactionView::HideMatchingElements(selector),
            ),
            ActionView::IgnorePreviousRules => None,
        }
    }

    /// The reactions after the action has been applied to those accumulated
    /// so far: its reaction is added at the end, or, for the action that
    /// ignores previous rules, nothing is left.
    pub open spec fn apply(self, reactions: Seq<ReactionView>) -> Seq<ReactionView> {
        match self.reaction() {
            Some(reaction) => reactions.push(reaction),
            None => Seq::empty(),
        }
    }
}

impl View for Action {
    type V = ActionView;

    open spec fn view(&self) -> ActionView {
        match self {
            Action::Block => ActionView::Block,
            Action::BlockCookies => ActionView::BlockCookies,
            Action::CssDisplayNone(selector) => ActionView::CssDisplayNone(selector@),
            Action::IgnorePreviousRules => ActionView::IgnorePreviousRules,
        }
    }
}

impl Action {
    /// Applies the action to the reactions accumulated so far.
    pub fn process(&self, reactions: &mut Vec<Reaction>)
        ensures
            reaction_views(final(reactions)@) == self@.apply(reaction_views(old(reactions)@)),
    {
        match self {
            Action::Block => reactions.push(Reaction::Block),
            Action::BlockCookies => reactions.push(Reaction::BlockCookies),
            Action::CssDisplayNone(selector) => reactions.push(
                Reaction::HideMatchingElements(selector.clone()),
            ),
            Action::IgnorePreviousRules => reactions.clear(),
        }
    }
}

/// A single rule, consisting of a condition to trigger this rule, and an action to take.
#[derive(Clone, Debug, PartialEq)]
pub struct Rule {
    pub trigger: Trigger,
    pub action: Action,
}

/// The mathematical value of a `Rule`.
pub struct RuleView {
    pub trigger: TriggerView,
    pub action: ActionView,
}

impl View for Rule {
    type V = RuleView;

    open spec fn view(&self) -> RuleView {
        RuleView { trigger: self.trigger@, action: self.action@ }
    }
}

/// The values of a sequence of rules.
pub open spec fn rule_views(rules: Seq<Rule>) -> Seq<RuleView> {
    rules.map_values(|r: Rule| r@)
}

/// The reactions that an ordered rule list yields for a request. The rules
/// are visited in order, starting from no reactions; each rule whose trigger
/// fires applies its action to what the rules before it have accumulated.
pub open spec fn evaluate(rules: Seq<RuleView>, request: RequestView) -> Seq<ReactionView>
    decreases rules.len(),
{
    if rules.len() == 0 {
        Seq::empty()
    } else {
        let earlier = evaluate(rules.drop_last(), request);
        if rules.last().trigger.matches(request) {
            rules.last().action.apply(earlier)
        } else {
            earlier
        }
    }
}

/// Attempt to match the given request against the provided rules. Returns a list
/// of actions to take in response; an empty list means that the request should
/// continue unmodified.
pub fn process_rules_for_request_impl(rules: &[Rule], request: &Request) -> (reactions: Vec<
    Reaction,
>)
    ensures
        reaction_views(reactions@) == evaluate(rule_views(rules@), request@),
{
    let mut reactions: Vec<Reaction> = Vec::new();
    let mut i: usize = 0;
    while i < rules.len()
        invariant
            i <= rules.len(),
            reaction_views(reactions@) == evaluate(
                rule_views(rules@.subrange(0, i as int)),
                request@,
            ),
        decreases rules.len() - i,
    {
        let rule = &rules[i];
        proof {
            let before = rule_views(rules@.subrange(0, i as int));
            let after = rule_views(rules@.subrange(0, i + 1));
            assert(after.drop_last() =~= before);
            assert(after.last() == rule@);
        }
        if rule.trigger.matches(request) {
            rule.action.process(&mut reactions);
        }
        i += 1;
    }
    assert(rules@.subrange(0, i as int) =~= rules@);
    reactions
}

} // verus!
