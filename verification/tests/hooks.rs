use rmux::hooks::HookStore;

#[test]
fn add_and_get_hook() {
    let mut store = HookStore::new();
    store.add("after-new-session", vec!["display-message".into(), "hello".into()]);
    let hooks = store.get("after-new-session").unwrap();
    assert_eq!(hooks.len(), 1);
    assert_eq!(hooks[0], vec!["display-message", "hello"]);
}

#[test]
fn add_multiple_commands() {
    let mut store = HookStore::new();
    store.add("after-new-session", vec!["cmd1".into()]);
    store.add("after-new-session", vec!["cmd2".into()]);
    let hooks = store.get("after-new-session").unwrap();
    assert_eq!(hooks.len(), 2);
}

#[test]
fn set_replaces() {
    let mut store = HookStore::new();
    store.add("test-hook", vec!["old".into()]);
    store.add("test-hook", vec!["old2".into()]);
    store.set("test-hook", vec!["new".into()]);
    let hooks = store.get("test-hook").unwrap();
    assert_eq!(hooks.len(), 1);
    assert_eq!(hooks[0], vec!["new"]);
}

#[test]
fn remove_hook() {
    let mut store = HookStore::new();
    store.add("test-hook", vec!["cmd".into()]);
    assert!(store.remove("test-hook"));
    assert!(store.get("test-hook").is_none());
    assert!(!store.remove("nonexistent"));
}

#[test]
fn list_hooks() {
    let mut store = HookStore::new();
    store.add("alpha", vec!["cmd1".into(), "arg1".into()]);
    store.add("beta", vec!["cmd2".into()]);
    let list = store.list();
    assert_eq!(list.len(), 2);
    assert_eq!(list[0], "alpha[0]: cmd1 arg1");
    assert_eq!(list[1], "beta[0]: cmd2");
}

#[test]
fn get_nonexistent() {
    let store = HookStore::new();
    assert!(store.get("nope").is_none());
}
