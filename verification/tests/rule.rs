use hyprhook::{Rule, RuleSet};

fn rule(class: Option<&str>, title: Option<&str>) -> Rule {
    Rule::new(class, title, vec![], vec![], vec![], vec![]).unwrap()
}

fn rule_with_commands(
    class: Option<&str>,
    title: Option<&str>,
    on_open: Vec<String>,
    on_close: Vec<String>,
    on_focus: Vec<String>,
    on_unfocus: Vec<String>,
) -> Rule {
    Rule::new(class, title, on_open, on_close, on_focus, on_unfocus)
        .unwrap()
}

#[test]
fn class_filter_matches_exact() {
    let rule = rule(Some("^gamescope$"), None);
    assert!(rule.matches("gamescope", "anything"));
    assert!(!rule.matches("other", "anything"));
}

#[test]
fn class_filter_is_a_substring_match_by_default() {
    let rule = rule(Some("scope"), None);
    assert!(rule.matches("gamescope", "anything"));
}

#[test]
fn title_filter_matches_exact() {
    let rule = rule(None, Some("^Counter-Strike 2$"));
    assert!(rule.matches("anything", "Counter-Strike 2"));
    assert!(!rule.matches("anything", "Counter-Strike"));
}

#[test]
fn both_filters_are_anded() {
    let rule = rule(Some("^gamescope$"), Some("^Counter-Strike 2$"));
    assert!(rule.matches("gamescope", "Counter-Strike 2"));
    assert!(!rule.matches("gamescope", "other title"));
    assert!(!rule.matches("other class", "Counter-Strike 2"));
    assert!(!rule.matches("other class", "other title"));
}

#[test]
fn no_filters_matches_any_input() {
    let rule = rule(None, None);
    assert!(rule.matches("anything", "anything"));
    assert!(rule.matches("", ""));
}

#[test]
fn rule_invalid_class_regex_returns_error() {
    let result = Rule::new(Some("[invalid"), None, vec![], vec![], vec![], vec![]);
    assert!(result.is_err());
}

#[test]
fn rule_invalid_title_regex_returns_error() {
    let result = Rule::new(None, Some("[invalid"), vec![], vec![], vec![], vec![]);
    assert!(result.is_err());
}

#[test]
fn matching_returns_only_matched_rules() {
    let rules = vec![rule(Some("^foo$"), None), rule(Some("^bar$"), None)];
    let matched = Rule::matching(&rules, "foo", "title");
    assert_eq!(matched.len(), 1);
    assert!(matched[0].matches("foo", "title"));
}

#[test]
fn matching_returns_multiple_rules_when_several_match() {
    let rules = vec![rule(Some("^foo$"), None), rule(None, None)];
    let matched = Rule::matching(&rules, "foo", "title");
    assert_eq!(matched.len(), 2);
}

#[test]
fn matching_returns_empty_when_nothing_matches() {
    let rules = vec![rule(Some("^foo$"), None)];
    let matched = Rule::matching(&rules, "bar", "title");
    assert!(matched.is_empty());
}

#[test]
fn matching_against_empty_rules_returns_empty() {
    let matched = Rule::matching(&[], "foo", "title");
    assert!(matched.is_empty());
}

#[test]
fn commands_are_stored_and_accessible() {
    let open = vec!["obs-cli".to_owned(), "start-recording".to_owned()];
    let focus = vec!["hyprctl".to_owned(), "dispatch".to_owned()];
    let rule = rule_with_commands(None, None, open.clone(), vec![], focus.clone(), vec![]);
    assert_eq!(rule.on_open(), open.as_slice());
    assert_eq!(rule.on_focus(), focus.as_slice());
    assert!(rule.on_close().is_empty());
    assert!(rule.on_unfocus().is_empty());
}

#[test]
fn class_error_is_reported_before_title_error() {
    let error = match Rule::new(Some("(a"), Some("[b"), vec![], vec![], vec![], vec![]) {
        Err(error) => error,
        Ok(_) => panic!("both patterns are invalid"),
    };
    assert_eq!(error.pattern, "(a");
    assert!(!error.message.is_empty());
    let error = match Rule::new(Some("^ok$"), Some("[b"), vec![], vec![], vec![], vec![]) {
        Err(error) => error,
        Ok(_) => panic!("the title pattern is invalid"),
    };
    assert_eq!(error.pattern, "[b");
}

#[test]
fn oversized_pattern_is_refused() {
    assert!(Rule::new(Some(r"\w{1000}"), None, vec![], vec![], vec![], vec![]).is_err());
    assert!(Rule::new(Some(r"(?-u:\w){1000}"), None, vec![], vec![], vec![], vec![]).is_ok());
}

#[test]
fn matching_keeps_rule_order() {
    let rules = vec![
        rule_with_commands(Some("a"), None, vec!["first".to_owned()], vec![], vec![], vec![]),
        rule_with_commands(Some("^b$"), None, vec!["second".to_owned()], vec![], vec![], vec![]),
        rule_with_commands(None, Some("x"), vec!["third".to_owned()], vec![], vec![], vec![]),
    ];
    let matched = Rule::matching(&rules, "cat", "box");
    assert_eq!(matched.len(), 2);
    assert_eq!(matched[0].on_open(), &["first".to_owned()]);
    assert_eq!(matched[1].on_open(), &["third".to_owned()]);
}

#[test]
fn rule_set_keeps_rules_in_order() {
    let set = match RuleSet::new(vec![
        Rule::new(Some("^a$"), None, vec![], vec![], vec![], vec![]),
        Rule::new(None, None, vec![], vec![], vec![], vec![]),
        Rule::new(Some("^c$"), None, vec![], vec![], vec![], vec![]),
    ]) {
        Ok(set) => set,
        Err(_) => panic!("all patterns are valid"),
    };
    assert_eq!(set.len(), 3);
    assert!(!set.is_empty());
    assert_eq!(set.matching_indices("a", "t"), vec![0, 1]);
    assert_eq!(set.matching_indices("c", "t"), vec![1, 2]);
    assert_eq!(set.matching_indices("z", "t"), vec![1]);
    assert_eq!(set.matching("c", "t").len(), 2);
    assert_eq!(set.as_slice().len(), 3);
}

#[test]
fn rule_set_reports_first_error() {
    let result = RuleSet::new(vec![
        Rule::new(Some("^a$"), None, vec![], vec![], vec![], vec![]),
        Rule::new(Some("(first"), None, vec![], vec![], vec![], vec![]),
        Rule::new(None, Some("(second"), vec![], vec![], vec![], vec![]),
    ]);
    match result {
        Err(error) => assert_eq!(error.pattern, "(first"),
        Ok(_) => panic!("two patterns are invalid"),
    }
}

#[test]
fn empty_rule_set_matches_nothing() {
    let set = match RuleSet::new(vec![]) {
        Ok(set) => set,
        Err(_) => panic!("no rules, no errors"),
    };
    assert!(set.is_empty());
    assert_eq!(set.len(), 0);
    assert!(set.matching("a", "b").is_empty());
    assert!(set.matching_indices("a", "b").is_empty());
}

#[test]
fn error_message_is_the_regex_crate_explanation() {
    let error = match Rule::new(Some("(a"), None, vec![], vec![], vec![], vec![]) {
        Err(error) => error,
        Ok(_) => panic!("the pattern is invalid"),
    };
    assert_eq!(error.message, regex::Regex::new("(a").unwrap_err().to_string());
}

#[test]
fn unfiltered_rules_are_recognised() {
    assert!(rule(None, None).is_unfiltered());
    assert!(!rule(Some("a"), None).is_unfiltered());
    assert!(!rule(None, Some("b")).is_unfiltered());
}
