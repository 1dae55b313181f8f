use hyprhook::{Rule, RuleSet, State, WindowInfo, WindowMap};

fn argv(words: &[&str]) -> Vec<String> {
    words.iter().map(|word| (*word).to_owned()).collect()
}

fn info(class: &str, title: &str) -> WindowInfo {
    WindowInfo::new(class.to_owned(), title.to_owned())
}

fn rules() -> RuleSet {
    RuleSet::new(vec![
        Rule::new(
            Some("^gamescope$"),
            None,
            argv(&["open-game"]),
            argv(&["close-game"]),
            argv(&["focus-game"]),
            argv(&["unfocus-game"]),
        ),
        Rule::new(
            None,
            Some("GitHub"),
            argv(&["open-hub"]),
            argv(&["close-hub"]),
            argv(&["focus-hub"]),
            argv(&["unfocus-hub"]),
        ),
        Rule::new(None, None, argv(&["open-any"]), vec![], vec![], vec![]),
    ])
    .unwrap()
}

#[test]
fn opening_a_window_fires_open_hooks_of_matching_rules() {
    let rules = rules();
    let mut state = State::new(WindowMap::new(), WindowInfo::default());
    let hooks = state.window_opened(&rules, "0x1".to_owned(), info("gamescope", "cs2"));
    assert_eq!(hooks, vec![argv(&["open-game"]), argv(&["open-any"])]);
}

#[test]
fn closing_fires_close_hooks_of_the_window_as_opened() {
    let rules = rules();
    let mut state = State::new(WindowMap::new(), WindowInfo::default());
    state.window_opened(&rules, "0x1".to_owned(), info("firefox", "GitHub - x"));
    let hooks = state.window_closed(&rules, "0x1");
    assert_eq!(hooks, vec![argv(&["close-hub"]), vec![]]);
    assert!(state.window_closed(&rules, "0x1").is_empty());
}

#[test]
fn closing_an_unknown_window_fires_nothing() {
    let rules = rules();
    let mut state = State::new(WindowMap::new(), WindowInfo::default());
    assert!(state.window_closed(&rules, "0xdead").is_empty());
}

#[test]
fn focus_change_fires_unfocus_then_focus_for_changed_rules() {
    let rules = rules();
    let mut state = State::new(WindowMap::new(), info("gamescope", "cs2"));
    let hooks = state.focus_changed(&rules, info("firefox", "GitHub"));
    assert_eq!(hooks, vec![argv(&["unfocus-game"]), argv(&["focus-hub"])]);
    let hooks = state.focus_changed(&rules, info("gamescope", "cs2"));
    assert_eq!(hooks, vec![argv(&["unfocus-hub"]), argv(&["focus-game"])]);
}

#[test]
fn refocusing_the_focused_window_fires_nothing() {
    let rules = rules();
    let mut state = State::new(WindowMap::new(), info("gamescope", "GitHub"));
    assert!(state.focus_changed(&rules, info("gamescope", "GitHub")).is_empty());
}

#[test]
fn rule_matching_both_windows_fires_nothing() {
    let rules = rules();
    let mut state = State::new(WindowMap::new(), info("gamescope", "a"));
    let hooks = state.focus_changed(&rules, info("gamescope", "b"));
    assert!(hooks.is_empty());
}
