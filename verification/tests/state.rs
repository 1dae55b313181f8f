use hyprhook::{State, WindowInfo, WindowMap};

fn empty_state() -> State {
    State::new(WindowMap::new(), WindowInfo::default())
}

fn info(class: &str, title: &str) -> WindowInfo {
    WindowInfo::new(class.to_owned(), title.to_owned())
}

#[test]
fn insert_and_remove_roundtrip() {
    let mut state = empty_state();
    state.insert_open("0x1".to_owned(), info("kitty", "~/"));
    let removed = state.remove_open("0x1").unwrap();
    assert_eq!(removed.class(), "kitty");
    assert_eq!(removed.title(), "~/");
}

#[test]
fn remove_unknown_address_returns_none() {
    let mut state = empty_state();
    assert!(state.remove_open("0xdead").is_none());
}

#[test]
fn remove_is_non_repeatable() {
    let mut state = empty_state();
    state.insert_open("0x1".to_owned(), info("kitty", "~/"));
    state.remove_open("0x1");
    assert!(state.remove_open("0x1").is_none());
}

#[test]
fn update_focus_returns_previous_focused() {
    let mut state = State::new(WindowMap::new(), info("firefox", "GitHub"));
    let previous = state.update_focus(info("kitty", "~/"));
    assert_eq!(previous.class(), "firefox");
    assert_eq!(previous.title(), "GitHub");
}

#[test]
fn update_focus_installs_new_focused() {
    let mut state = empty_state();
    state.update_focus(info("firefox", "GitHub"));
    let previous = state.update_focus(info("kitty", "~/"));
    assert_eq!(previous.class(), "firefox");
}

#[test]
fn initial_state_can_be_seeded_with_open_windows() {
    let mut open = WindowMap::new();
    open.insert("0x1".to_owned(), info("kitty", "~/"));
    open.insert("0x2".to_owned(), info("firefox", "GitHub"));
    let mut state = State::new(open, WindowInfo::default());
    assert!(state.remove_open("0x1").is_some());
    assert!(state.remove_open("0x2").is_some());
    assert!(state.remove_open("0x3").is_none());
}

#[test]
fn reinserting_an_address_replaces_the_window() {
    let mut state = empty_state();
    state.insert_open("0x1".to_owned(), info("kitty", "~/"));
    state.insert_open("0x1".to_owned(), info("kitty", "~/src"));
    let removed = state.remove_open("0x1").unwrap();
    assert_eq!(removed.title(), "~/src");
    assert!(state.remove_open("0x1").is_none());
}

#[test]
fn addresses_do_not_disturb_each_other() {
    let mut map = WindowMap::new();
    map.insert("0x1".to_owned(), info("a", "1"));
    map.insert("0x2".to_owned(), info("b", "2"));
    map.insert("0x3".to_owned(), info("c", "3"));
    assert_eq!(map.remove("0x2").unwrap().class(), "b");
    assert_eq!(map.remove("0x3").unwrap().class(), "c");
    assert_eq!(map.remove("0x1").unwrap().class(), "a");
    assert!(map.remove("0x2").is_none());
}

#[test]
fn focus_update_leaves_open_windows() {
    let mut state = empty_state();
    state.insert_open("0x1".to_owned(), info("kitty", "~/"));
    let previous = state.update_focus(info("kitty", "~/"));
    assert_eq!(previous.class(), "");
    assert_eq!(previous.title(), "");
    assert_eq!(state.remove_open("0x1").unwrap().class(), "kitty");
}

#[test]
fn default_window_has_empty_fields() {
    let window = WindowInfo::default();
    assert_eq!(window.class(), "");
    assert_eq!(window.title(), "");
}
