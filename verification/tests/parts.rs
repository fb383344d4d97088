use content_blocker::text::{str_eq, strict_subdomain, within_domain};
use content_blocker::{
    Action, DomainConstraint, DomainExemption, DomainMatcher, LoadType, Reaction, ResourceType,
    ResourceTypeList, Rule, Trigger,
};
use regex::Regex;
use url::Url;

#[test]
fn texts_compare_by_content() {
    assert!(str_eq("", ""));
    assert!(str_eq("block", "block"));
    assert!(!str_eq("block", "block-cookies"));
    assert!(!str_eq("block", "blocK"));
    assert!(!str_eq("", "a"));
    assert!(str_eq("b\u{fc}cher.example", "b\u{fc}cher.example"));
    assert!(!str_eq("b\u{fc}cher.example", "bucher.example"));
}

#[test]
fn strict_subdomain_needs_a_label_boundary() {
    assert!(strict_subdomain("a.example.org", "example.org"));
    assert!(strict_subdomain("a.b.example.org", "example.org"));
    assert!(!strict_subdomain("example.org", "example.org"));
    assert!(!strict_subdomain("notexample.org", "example.org"));
    assert!(!strict_subdomain("evil.com", "notevil.com"));
    assert!(!strict_subdomain("notevil.com", "evil.com"));
    assert!(!strict_subdomain("org", "example.org"));
    assert!(!strict_subdomain("", ""));
    assert!(!strict_subdomain("", "a"));
    assert!(strict_subdomain(".", ""));
    assert!(strict_subdomain("example.org.", ""));
    assert!(!strict_subdomain("example.org", ""));
    assert!(strict_subdomain(".example.org", "example.org"));
    assert!(!strict_subdomain("a.example.org", "Example.org"));
}

#[test]
fn strict_subdomain_of_names_beyond_ascii() {
    assert!(strict_subdomain("www.b\u{fc}cher.example", "b\u{fc}cher.example"));
    assert!(strict_subdomain("\u{65e5}\u{672c}.example", "example"));
    assert!(!strict_subdomain("\u{65e5}\u{672c}example", "example"));
    // U+012E ends in the byte 0x2e in no encoding of its own: its UTF-8 form is c4 ae.
    assert!(!strict_subdomain("\u{12e}example", "example"));
    assert!(!strict_subdomain("a.\u{fc}b", "b"));
}

#[test]
fn within_domain_is_the_domain_or_below() {
    assert!(within_domain("example.org", "example.org"));
    assert!(within_domain("a.example.org", "example.org"));
    assert!(!within_domain("notexample.org", "example.org"));
    assert!(!within_domain("example.com", "example.org"));
    assert!(within_domain("", ""));
}

#[test]
fn resource_type_tags() {
    assert_eq!(ResourceType::from_str("document"), Some(ResourceType::Document));
    assert_eq!(ResourceType::from_str("image"), Some(ResourceType::Image));
    assert_eq!(ResourceType::from_str("style-sheet"), Some(ResourceType::StyleSheet));
    assert_eq!(ResourceType::from_str("script"), Some(ResourceType::Script));
    assert_eq!(ResourceType::from_str("font"), Some(ResourceType::Font));
    assert_eq!(ResourceType::from_str("raw"), Some(ResourceType::Raw));
    assert_eq!(ResourceType::from_str("svg-document"), Some(ResourceType::SVGDocument));
    assert_eq!(ResourceType::from_str("media"), Some(ResourceType::Media));
    assert_eq!(ResourceType::from_str("popup"), Some(ResourceType::Popup));
    assert_eq!(ResourceType::from_str("Document"), None);
    assert_eq!(ResourceType::from_str("stylesheet"), None);
    assert_eq!(ResourceType::from_str(""), None);
    assert_eq!(ResourceType::from_str("first-party"), None);
}

#[test]
fn load_type_tags() {
    assert_eq!(LoadType::from_str("first-party"), Some(LoadType::FirstParty));
    assert_eq!(LoadType::from_str("third-party"), Some(LoadType::ThirdParty));
    assert_eq!(LoadType::from_str("second-party"), None);
    assert_eq!(LoadType::from_str("First-Party"), None);
    assert_eq!(LoadType::from_str(""), None);
}

#[test]
fn domain_entry_from_raw_string() {
    assert_eq!(
        DomainExemption::from_str("example.org"),
        DomainExemption::DomainMatch("example.org".to_owned())
    );
    assert_eq!(
        DomainExemption::from_str("*example.org"),
        DomainExemption::SubdomainMatch("example.org".to_owned())
    );
    assert_eq!(
        DomainExemption::from_str("**example.org"),
        DomainExemption::SubdomainMatch("*example.org".to_owned())
    );
    assert_eq!(DomainExemption::from_str("*"), DomainExemption::SubdomainMatch("".to_owned()));
    assert_eq!(DomainExemption::from_str(""), DomainExemption::DomainMatch("".to_owned()));
    assert_eq!(
        DomainExemption::from_str("example*.org"),
        DomainExemption::DomainMatch("example*.org".to_owned())
    );
    assert_eq!(
        DomainExemption::from_str("*\u{fc}ber.example"),
        DomainExemption::SubdomainMatch("\u{fc}ber.example".to_owned())
    );
    assert_eq!(
        DomainExemption::from_str("\u{fc}*ber.example"),
        DomainExemption::DomainMatch("\u{fc}*ber.example".to_owned())
    );
}

#[test]
fn domain_entry_covers_hosts() {
    let exact = DomainExemption::DomainMatch("bad.org".to_owned());
    assert!(exact.matches("bad.org"));
    assert!(!exact.matches("ok.bad.org"));
    assert!(!exact.matches("bad.org."));
    let below = DomainExemption::SubdomainMatch("verybad.org".to_owned());
    assert!(below.matches("verybad.org"));
    assert!(below.matches("notok.verybad.org"));
    assert!(!below.matches("notverybad.org"));
    assert!(!below.matches("verybad.org.uk"));
}

#[test]
fn domain_matcher_sorts_entries() {
    let matcher = DomainMatcher::new(&["bad.org", "*verybad.org", "*a.b", "c.d", "*"]);
    assert_eq!(
        matcher,
        DomainMatcher {
            exact: vec!["bad.org".to_owned(), "c.d".to_owned()],
            subdomain: vec!["verybad.org".to_owned(), "a.b".to_owned(), "".to_owned()],
        }
    );
    assert_eq!(DomainMatcher::new(&[]), DomainMatcher { exact: vec![], subdomain: vec![] });
}

#[test]
fn domain_matcher_covers_domains() {
    let matcher = DomainMatcher::new(&["bad.org", "*verybad.org"]);
    assert!(matcher.matches_domain("bad.org"));
    assert!(!matcher.matches_domain("ok.bad.org"));
    assert!(matcher.matches_domain("verybad.org"));
    assert!(matcher.matches_domain("notok.verybad.org"));
    assert!(!matcher.matches_domain("notverybad.org"));
    assert!(!matcher.matches_domain("good.org"));
    assert!(!matcher.matches_domain(""));
    assert!(!DomainMatcher::new(&[]).matches_domain("bad.org"));
}

#[test]
fn domain_matcher_agrees_with_its_entries() {
    let raw = ["bad.org", "*verybad.org", "*org", "a.b.c"];
    let matcher = DomainMatcher::new(&raw);
    for host in &["bad.org", "ok.bad.org", "verybad.org", "x.verybad.org", "org", "borg", "a.b.c", "b.c", "x.a.b.c", ""] {
        let by_entries = raw.iter().any(|r| DomainExemption::from_str(r).matches(host));
        assert_eq!(matcher.matches_domain(host), by_entries);
    }
}

#[test]
fn domain_matcher_reads_the_host_of_a_url() {
    let matcher = DomainMatcher::new(&["bad.org", "*verybad.org"]);
    assert!(matcher.matches(&Url::parse("http://bad.org/ad.html").unwrap()));
    assert!(matcher.matches(&Url::parse("https://BAD.org:8080/").unwrap()));
    assert!(!matcher.matches(&Url::parse("http://good.org/bad.org").unwrap()));
    assert!(matcher.matches(&Url::parse("http://notok.verybad.org/").unwrap()));
    assert!(!matcher.matches(&Url::parse("http://10.0.0.1/").unwrap()));
    assert!(!matcher.matches(&Url::parse("about:blank").unwrap()));
}

#[test]
fn domain_constraint_allows_or_refuses() {
    let inside = Url::parse("http://bad.org/").unwrap();
    let outside = Url::parse("http://good.org/").unwrap();
    let nowhere = Url::parse("data:,x").unwrap();
    let only_if = DomainConstraint::If(DomainMatcher::new(&["bad.org"]));
    let unless = DomainConstraint::Unless(DomainMatcher::new(&["bad.org"]));
    assert!(only_if.allows(&inside));
    assert!(!only_if.allows(&outside));
    assert!(!only_if.allows(&nowhere));
    assert!(!unless.allows(&inside));
    assert!(unless.allows(&outside));
    assert!(unless.allows(&nowhere));
}

#[test]
fn resource_type_list_admits() {
    assert!(ResourceTypeList::All.admits(ResourceType::Font));
    let list = ResourceTypeList::List(vec![ResourceType::Media, ResourceType::Raw]);
    assert!(list.admits(ResourceType::Media));
    assert!(list.admits(ResourceType::Raw));
    assert!(!list.admits(ResourceType::Document));
    assert!(!ResourceTypeList::List(vec![]).admits(ResourceType::Document));
}

#[test]
fn actions_accumulate_reactions() {
    let mut reactions = vec![];
    Action::Block.process(&mut reactions);
    assert_eq!(reactions, vec![Reaction::Block]);
    Action::BlockCookies.process(&mut reactions);
    assert_eq!(reactions, vec![Reaction::Block, Reaction::BlockCookies]);
    Action::CssDisplayNone("div > .ad".to_owned()).process(&mut reactions);
    assert_eq!(
        reactions,
        vec![
            Reaction::Block,
            Reaction::BlockCookies,
            Reaction::HideMatchingElements("div > .ad".to_owned())
        ]
    );
    Action::IgnorePreviousRules.process(&mut reactions);
    assert_eq!(reactions, vec![]);
    Action::IgnorePreviousRules.process(&mut reactions);
    assert_eq!(reactions, vec![]);
    Action::Block.process(&mut reactions);
    assert_eq!(reactions, vec![Reaction::Block]);
}

#[test]
fn default_trigger_has_no_condition() {
    let trigger = Trigger::default();
    assert_eq!(trigger.url_filter.as_str(), "(?i)");
    assert_eq!(trigger.resource_type, ResourceTypeList::All);
    assert_eq!(trigger.load_type, None);
    assert_eq!(trigger.domain_constraint, None);
}

#[test]
fn triggers_compare_by_pattern_text_and_filters() {
    let base = Trigger {
        url_filter: Regex::new("a+").unwrap(),
        resource_type: ResourceTypeList::List(vec![ResourceType::Image, ResourceType::Font]),
        load_type: Some(LoadType::ThirdParty),
        domain_constraint: Some(DomainConstraint::If(DomainMatcher::new(&["a.org", "*b.org"]))),
    };
    assert_eq!(base, base.clone());
    assert_eq!(base, Trigger { url_filter: Regex::new("a+").unwrap(), ..base.clone() });
    assert_ne!(base, Trigger { url_filter: Regex::new("aa*").unwrap(), ..base.clone() });
    assert_ne!(base, Trigger { resource_type: ResourceTypeList::All, ..base.clone() });
    assert_ne!(
        base,
        Trigger {
            resource_type: ResourceTypeList::List(vec![ResourceType::Font, ResourceType::Image]),
            ..base.clone()
        }
    );
    assert_ne!(
        base,
        Trigger { resource_type: ResourceTypeList::List(vec![ResourceType::Image]), ..base.clone() }
    );
    assert_ne!(base, Trigger { load_type: None, ..base.clone() });
    assert_ne!(base, Trigger { load_type: Some(LoadType::FirstParty), ..base.clone() });
    assert_ne!(base, Trigger { domain_constraint: None, ..base.clone() });
    assert_ne!(
        base,
        Trigger {
            domain_constraint: Some(DomainConstraint::Unless(DomainMatcher::new(&["a.org", "*b.org"]))),
            ..base.clone()
        }
    );
    assert_ne!(
        base,
        Trigger {
            domain_constraint: Some(DomainConstraint::If(DomainMatcher::new(&["a.org", "b.org"]))),
            ..base.clone()
        }
    );
    assert_ne!(
        base,
        Trigger {
            domain_constraint: Some(DomainConstraint::If(DomainMatcher::new(&["a.org"]))),
            ..base.clone()
        }
    );
    let rule = Rule { trigger: base.clone(), action: Action::Block };
    assert_eq!(rule, rule.clone());
    assert_ne!(rule, Rule { trigger: base.clone(), action: Action::BlockCookies });
}

#[test]
fn trigger_filters_on_resource_and_load_type() {
    let open = Trigger::default();
    assert!(open.admits(ResourceType::Image, LoadType::FirstParty));
    assert!(open.admits(ResourceType::Popup, LoadType::ThirdParty));
    let narrow = Trigger {
        resource_type: ResourceTypeList::List(vec![ResourceType::Image]),
        load_type: Some(LoadType::ThirdParty),
        ..Trigger::default()
    };
    assert!(narrow.admits(ResourceType::Image, LoadType::ThirdParty));
    assert!(!narrow.admits(ResourceType::Image, LoadType::FirstParty));
    assert!(!narrow.admits(ResourceType::Script, LoadType::ThirdParty));
    assert!(!narrow.admits(ResourceType::Script, LoadType::FirstParty));
}

#[test]
fn domain_constraint_on_a_given_host() {
    let only_if = DomainConstraint::If(DomainMatcher::new(&["bad.org", "*verybad.org"]));
    let unless = DomainConstraint::Unless(DomainMatcher::new(&["bad.org", "*verybad.org"]));
    for &(host, inside) in &[
        (Some("bad.org"), true),
        (Some("ok.bad.org"), false),
        (Some("verybad.org"), true),
        (Some("notok.verybad.org"), true),
        (Some("averybad.org"), false),
        (Some(""), false),
        (None, false),
    ] {
        assert_eq!(only_if.allows_host(host), inside);
        assert_eq!(unless.allows_host(host), !inside);
    }
    let matcher = DomainMatcher::new(&["bad.org"]);
    assert!(matcher.matches_host(Some("bad.org")));
    assert!(!matcher.matches_host(Some("good.org")));
    assert!(!matcher.matches_host(None));
}

fn shareable<T: Send + Sync>(_: &T) -> bool {
    true
}

#[test]
fn rules_can_be_shared_between_readers() {
    let rules = vec![Rule { trigger: Trigger::default(), action: Action::Block }];
    assert!(shareable(&rules));
}
