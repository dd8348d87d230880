use stream_download::registry::{Matcher, Rule};
use stream_download::registry::{Input, InputType, Registry, Source, Url};

fn s(text: &str) -> Matcher {
    Matcher::String(text.to_string())
}

fn re(pattern: &str) -> Matcher {
    Matcher::Regex(pattern.to_string())
}

fn raw(text: &str) -> InputType {
    InputType::Raw(text.to_string())
}

#[test]
fn single_entry() {
    let cases: Vec<(&str, Vec<Rule>, bool)> = vec![
        ("", vec![], false),
        ("not-a-url", vec![Rule::any_string()], true),
        ("/some/path", vec![Rule::any_string()], true),
        ("file://test", vec![Rule::any_string()], false),
        ("test", vec![Rule::string(s("test"))], true),
        ("test2", vec![Rule::string(s("test"))], false),
        ("not-a-url", vec![Rule::any_string(), Rule::any_url()], true),
        ("http://test", vec![Rule::any_string(), Rule::any_url()], true),
        ("test2", vec![Rule::string(re(r"test"))], true),
        ("http://test", vec![Rule::url_scheme(s("http"))], true),
        ("http://test", vec![Rule::url(s("http"), s("test"))], true),
        ("http://test", vec![Rule::url(s("https"), s("test"))], false),
        ("https://test", vec![Rule::url_scheme(s("http"))], false),
        ("https://test", vec![Rule::any_http()], true),
        ("http://test", vec![Rule::any_http()], true),
        ("http://test", vec![Rule::url_scheme(re(r"^https?$"))], true),
        ("https://test", vec![Rule::url_scheme(re(r"^https?$"))], true),
        ("http://test.com", vec![Rule::url_domain(s("test.com"))], true),
        ("http://test.com", vec![Rule::http_domain(s("test.com"))], true),
        ("http://test.com", vec![Rule::url_domain(re(r"^(www\.)?test\.com$"))], true),
        ("http://www.test.com", vec![Rule::url_domain(re(r"^(www\.)?test\.com$"))], true),
        ("http://www2.test.com", vec![Rule::url_domain(re(r"^(www\.)?test\.com$"))], false),
        ("custom://test", vec![Rule::prefix("custom://".to_string())], true),
        ("custom://http://test", vec![Rule::prefix("custom://".to_string())], true),
        ("http://custom://test", vec![Rule::prefix("custom://".to_string())], false),
    ];
    for (input, rules, found) in cases {
        let registry = Registry::new().entry(1, rules);
        assert_eq!(found, registry.find_match(&raw(input)).is_some(), "input {input:?}");
    }
}

/// The priority of the entry that matched, in a registry holding one entry of
/// priority 1 and one of priority 2 (kept in priority order).
fn matched_priority(registry: &Registry, input: &str) -> Option<u32> {
    registry.find_match(&raw(input)).map(|(idx, _)| idx as u32 + 1)
}

#[test]
fn priority() {
    let cases: Vec<(&str, Vec<Rule>, Vec<Rule>, Option<u32>)> = vec![
        ("", vec![], vec![], None),
        ("str", vec![Rule::any_string()], vec![], Some(1)),
        ("str", vec![], vec![Rule::any_string()], Some(2)),
        ("str", vec![Rule::any_string()], vec![Rule::any_string()], Some(1)),
        ("test", vec![Rule::string(s("test"))], vec![Rule::any_string()], Some(1)),
        ("test", vec![Rule::any_string()], vec![Rule::string(s("test"))], Some(1)),
        ("http://test.com", vec![Rule::url_domain(s("test.com"))], vec![Rule::any_url()], Some(1)),
        ("test.com", vec![Rule::url_domain(s("test.com"))], vec![Rule::any_url()], None),
        (
            "custom://http://test.com",
            vec![Rule::url_domain(s("test.com"))],
            vec![Rule::prefix("custom://".to_string())],
            Some(2),
        ),
    ];
    for (input, matcher1_rules, matcher2_rules, expected) in cases {
        // verify insertion order doesn't matter
        let registry = Registry::new()
            .entry(2, matcher2_rules.clone())
            .entry(1, matcher1_rules.clone());
        assert_eq!(expected, matched_priority(&registry, input), "input {input:?}");

        let registry = Registry::new().entry(1, matcher1_rules).entry(2, matcher2_rules);
        assert_eq!(expected, matched_priority(&registry, input), "input {input:?}");
    }
}

#[test]
fn parse_input() {
    let cases: Vec<(&str, Vec<Rule>, Input)> = vec![
        ("test", vec![Rule::any_string()], Input { prefix: None, source: Source::String("test".to_string()) }),
        (
            "http://test/",
            vec![Rule::any_url()],
            Input { prefix: None, source: Source::Url(Url::parse("http://test").unwrap()) },
        ),
        (
            "custom://test",
            vec![Rule::prefix("custom://".to_string())],
            Input { prefix: Some("custom://".to_string()), source: Source::String("test".to_string()) },
        ),
        (
            "custom://http://test/",
            vec![Rule::prefix("custom://".to_string())],
            Input { prefix: Some("custom://".to_string()), source: Source::Url(Url::parse("http://test").unwrap()) },
        ),
    ];
    for (text, rules, expected) in cases {
        let registry = Registry::new().entry(1, rules);
        let output = registry.find_match(&raw(text)).map(|(_, input)| input);
        assert_eq!(Some(&expected), output.as_ref());
        let output = output.unwrap();
        assert_eq!(text, output.clone().into_raw());
        // Running the rules on the parsed input should yield the same results.
        let again = registry.find_match(&InputType::Parsed(output)).map(|(_, input)| input);
        assert_eq!(Some(expected), again);
    }
}

#[test]
fn entries_stay_in_priority_order() {
    let mut registry = Registry::new();
    assert_eq!(registry.insert_entry(5, vec![Rule::any_string()]), 0);
    assert_eq!(registry.insert_entry(1, vec![Rule::any_url()]), 0);
    // equal priorities go after the ones already there
    assert_eq!(registry.insert_entry(5, vec![]), 2);
    assert_eq!(registry.insert_entry(3, vec![]), 1);
    assert_eq!(registry.len(), 4);
    // the first matching entry in priority order wins
    assert_eq!(registry.find_match(&raw("words")).map(|(i, _)| i), Some(2));
    registry.set_rules(1, vec![Rule::any_string()]);
    assert_eq!(registry.find_match(&raw("words")).map(|(i, _)| i), Some(1));
}

#[test]
fn source_conversions() {
    let url = Source::from_string("https://example.com/a".to_string());
    assert_eq!(url.to_raw_string(), "https://example.com/a");
    let parsed = url.clone().into_url();
    assert_eq!(parsed.scheme(), "https");
    assert_eq!(parsed.domain(), Some("example.com"));
    assert_eq!(parsed.as_str(), "https://example.com/a");
    assert!(url.clone().try_into_string().is_none());
    let text = Source::from_string("plain words".to_string());
    assert_eq!(text.clone().into_string(), "plain words");
    assert!(text.try_into_url().is_none());
    let ip = Url::parse("http://127.0.0.1:8080/x").unwrap();
    assert_eq!(ip.domain(), None);
    assert!(Url::parse("no scheme").is_none());
}

#[test]
fn matchers() {
    assert!(s("abc").is_match("abc"));
    assert!(!s("abc").is_match("abcd"));
    assert!(re("b+c").is_match("abbbcd"));
    assert!(!re("^b").is_match("abc"));
    // an invalid pattern matches nothing
    assert!(!re("(").is_match("("));
}
