use typed_key::key::Key;

#[test]
fn nightly_key_is_copy() {
    let k: Key<u32> = Key::new("foo.bar");
    let x = k;
    let y = x;
    assert_eq!(x.name(), y.name());
}

#[test]
fn no_std_works_key_is_copy() {
    let k: Key<u32> = Key::new("foo");
    let x = k;
    let y = x;
    assert_eq!(x.name(), y.name());
}

#[test]
fn smoke_key_is_copy() {
    let k: Key<Vec<String>> = Key::new("foo");
    let x = k;
    let y = x;
    assert_eq!(x.name(), y.name());
}

#[test]
fn debug() {
    let foo: Key<u32> = Key::new("foo.bar");
    assert_eq!(foo.debug_string(), r#"Key("foo.bar")"#);
}

#[test]
fn equality_is_by_name() {
    let a: Key<u32> = Key::new("foo");
    let b: Key<u32> = Key::new("foo");
    let c: Key<u32> = Key::new("bar");
    assert!(a == b);
    assert!(a != c);
}

#[test]
fn key_reports_its_name() {
    let k: Key<bool> = Key::new("enabled");
    assert_eq!(k.name(), "enabled");
    let copy = k.clone();
    assert_eq!(copy.name(), "enabled");
}
