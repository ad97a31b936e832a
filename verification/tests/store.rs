use typed_key::key::Key;
use typed_key::store::TypeErasedStore;

#[test]
fn insert_then_get_returns_value() {
    let port: Key<u64> = Key::new("port");
    let mut store = TypeErasedStore::new();
    store.insert(port, 8080u64);
    assert_eq!(store.get(port), Some(&8080u64));
}

#[test]
fn insert_then_get_compound_value() {
    let hosts: Key<Vec<String>> = Key::new("hosts");
    let mut store = TypeErasedStore::new();
    let value = vec!["alpha".to_string(), "beta".to_string()];
    store.insert(hosts, value.clone());
    assert_eq!(store.get(hosts), Some(&value));
}

#[test]
fn insert_then_get_text_value() {
    let host: Key<String> = Key::new("host");
    let mut store = TypeErasedStore::new();
    store.insert(host, "hal9000".to_string());
    assert_eq!(store.get(host), Some(&"hal9000".to_string()));
}

#[test]
fn absent_name_returns_no_value() {
    let port: Key<u64> = Key::new("port");
    let host: Key<String> = Key::new("host");
    let mut store = TypeErasedStore::new();
    store.insert(host, "hal9000".to_string());
    assert_eq!(store.get(port), None);
    let empty = TypeErasedStore::new();
    assert_eq!(empty.get(port), None);
}

#[test]
fn overwrite_keeps_most_recent_value() {
    let port: Key<u64> = Key::new("port");
    let mut store = TypeErasedStore::new();
    store.insert(port, 80u64);
    store.insert(port, 8080u64);
    assert_eq!(store.get(port), Some(&8080u64));
}

#[test]
fn names_are_independent_slots() {
    let a: Key<u64> = Key::new("a");
    let b: Key<bool> = Key::new("b");
    let mut store = TypeErasedStore::new();
    store.insert(a, 1u64);
    store.insert(b, true);
    store.insert(a, 2u64);
    assert_eq!(store.get(a), Some(&2u64));
    assert_eq!(store.get(b), Some(&true));
}
