use content_blocker::parse::rules_from_json;
use content_blocker::{
    Action, DomainConstraint, DomainMatcher, Error, LoadType, ResourceType, ResourceTypeList, Rule,
    Trigger,
};
use serde_json::{Number, Value};

fn text(s: &str) -> Value {
    Value::String(s.to_owned())
}

fn object(members: Vec<(&str, Value)>) -> Value {
    let mut map = serde_json::Map::new();
    for (key, value) in members {
        map.insert(key.to_owned(), value);
    }
    Value::Object(map)
}

#[test]
fn action_from_values() {
    assert_eq!(Action::from_json(&object(vec![("type", text("block"))])), Some(Action::Block));
    assert_eq!(
        Action::from_json(&object(vec![("type", text("block-cookies"))])),
        Some(Action::BlockCookies)
    );
    assert_eq!(
        Action::from_json(&object(vec![("type", text("ignore-previous-rules"))])),
        Some(Action::IgnorePreviousRules)
    );
    assert_eq!(
        Action::from_json(&object(vec![("type", text("css-display-none")), ("selector", text("a[href]"))])),
        Some(Action::CssDisplayNone("a[href]".to_owned()))
    );
    // A selector beside another action is not read.
    assert_eq!(
        Action::from_json(&object(vec![("type", text("block")), ("selector", Value::Null)])),
        Some(Action::Block)
    );
    assert_eq!(Action::from_json(&object(vec![("type", text("css-display-none"))])), None);
    assert_eq!(
        Action::from_json(&object(vec![("type", text("css-display-none")), ("selector", Value::Bool(true))])),
        None
    );
    assert_eq!(Action::from_json(&object(vec![("type", text("Block"))])), None);
    assert_eq!(Action::from_json(&object(vec![("type", Value::Null)])), None);
    assert_eq!(Action::from_json(&object(vec![("kind", text("block"))])), None);
    assert_eq!(Action::from_json(&object(vec![])), None);
    assert_eq!(Action::from_json(&text("block")), None);
    assert_eq!(Action::from_json(&Value::Array(vec![text("type"), text("block")])), None);
    assert_eq!(Action::from_json(&Value::Null), None);
}

#[test]
fn trigger_from_values() {
    let trigger = Trigger::from_json(&object(vec![
        ("url-filter", text("ads?/")),
        ("url-filter-is-case-sensitive", Value::Bool(true)),
        ("resource-type", Value::Array(vec![text("script"), text("nonsense"), text("image")])),
        ("load-type", Value::Array(vec![Value::Null, text("first-party"), text("third-party")])),
        ("unless-domain", Value::Array(vec![text("*example.org"), Value::Bool(false), text("example.net")])),
    ]))
    .unwrap();
    assert_eq!(trigger.url_filter.as_str(), "ads?/");
    assert_eq!(
        trigger.resource_type,
        ResourceTypeList::List(vec![ResourceType::Script, ResourceType::Image])
    );
    assert_eq!(trigger.load_type, Some(LoadType::FirstParty));
    assert_eq!(
        trigger.domain_constraint,
        Some(DomainConstraint::Unless(DomainMatcher {
            exact: vec!["example.net".to_owned()],
            subdomain: vec!["example.org".to_owned()],
        }))
    );

    let plain = Trigger::from_json(&object(vec![("url-filter", text("ads?/"))])).unwrap();
    assert_eq!(plain.url_filter.as_str(), "(?i)ads?/");
    assert_eq!(plain.resource_type, ResourceTypeList::All);
    assert_eq!(plain.load_type, None);
    assert_eq!(plain.domain_constraint, None);

    assert!(Trigger::from_json(&object(vec![])).is_none());
    assert!(Trigger::from_json(&object(vec![("url-filter", Value::Number(Number::from(5)))])).is_none());
    assert!(Trigger::from_json(&object(vec![("url-filter", text("["))])).is_none());
    assert!(Trigger::from_json(&text("ads")).is_none());
    assert!(Trigger::from_json(&object(vec![
        ("url-filter", text("ads")),
        ("if-domain", Value::Array(vec![])),
        ("unless-domain", Value::Array(vec![])),
    ]))
    .is_none());
}

#[test]
fn rule_from_values() {
    let trigger = object(vec![("url-filter", text("x"))]);
    let action = object(vec![("type", text("block"))]);
    let rule = Rule::from_json(&object(vec![("trigger", trigger.clone()), ("action", action.clone())]))
        .unwrap();
    assert_eq!(rule.trigger.url_filter.as_str(), "(?i)x");
    assert_eq!(rule.action, Action::Block);
    assert_eq!(Rule::from_json(&object(vec![("trigger", trigger.clone())])), None);
    assert_eq!(Rule::from_json(&object(vec![("action", action.clone())])), None);
    assert_eq!(Rule::from_json(&object(vec![("trigger", action.clone()), ("action", trigger.clone())])), None);
    assert_eq!(Rule::from_json(&Value::Array(vec![trigger, action])), None);
}

#[test]
fn rules_from_values() {
    let rule = object(vec![
        ("trigger", object(vec![("url-filter", text("x"))])),
        ("action", object(vec![("type", text("block-cookies"))])),
    ]);
    let rules = rules_from_json(&Value::Array(vec![Value::Null, rule.clone(), object(vec![]), rule.clone()]))
        .unwrap();
    assert_eq!(rules.len(), 2);
    assert_eq!(rules[0], rules[1]);
    assert_eq!(rules[0].action, Action::BlockCookies);
    assert_eq!(rules_from_json(&Value::Array(vec![])), Ok(vec![]));
    assert_eq!(rules_from_json(&rule), Err(Error::NotAList));
    assert_eq!(rules_from_json(&Value::Null), Err(Error::NotAList));
    assert_eq!(rules_from_json(&text("[]")), Err(Error::NotAList));
}
