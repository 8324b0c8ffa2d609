use code_evolution::watch::{WatchRegistry, DEBOUNCE_SECONDS};

#[test]
fn a_new_path_replaces_nothing() {
    let mut table = WatchRegistry::new();
    assert_eq!(table.listener_of("/a"), None);
    assert_eq!(table.register("/a", 1), None);
    assert_eq!(table.listener_of("/a"), Some(1));
}

#[test]
fn registering_a_path_again_hands_the_earlier_listener_back() {
    let mut table = WatchRegistry::new();
    assert_eq!(table.register("/a", 1), None);
    assert_eq!(table.register("/b", 2), None);
    assert_eq!(table.register("/a", 3), Some(1));
    assert_eq!(table.listener_of("/a"), Some(3));
    assert_eq!(table.listener_of("/b"), Some(2));
    assert_eq!(table.register("/a", 4), Some(3));
}

#[test]
fn unregistering_hands_the_listener_back_once() {
    let mut table = WatchRegistry::new();
    table.register("/a", 1);
    table.register("/b", 2);
    table.register("/c", 3);
    assert_eq!(table.unregister("/b"), Some(2));
    assert_eq!(table.unregister("/b"), None);
    assert_eq!(table.listener_of("/a"), Some(1));
    assert_eq!(table.listener_of("/b"), None);
    assert_eq!(table.listener_of("/c"), Some(3));
    assert_eq!(table.register("/b", 9), None);
    assert_eq!(table.unregister("/x"), None);
}

#[test]
fn paths_are_compared_as_texts() {
    let mut table = WatchRegistry::new();
    table.register("/a", 1);
    assert_eq!(table.listener_of("/a/"), None);
    assert_eq!(table.listener_of("/A"), None);
    assert_eq!(table.listener_of(""), None);
}

#[test]
fn changes_are_gathered_for_two_seconds() {
    assert_eq!(DEBOUNCE_SECONDS, 2);
}
