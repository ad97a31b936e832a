use typed_key::addr::Ipv4Addr;
use typed_key::config::{ConfigError, StructuredConfigAccessor};
use typed_key::key::Key;

#[test]
fn addr_field_parses_to_ip() {
    let addr: Key<Ipv4Addr> = Key::new("addr");
    let config = StructuredConfigAccessor::from_text(r#"{"addr": "127.0.0.1"}"#).unwrap();
    let ip = config.get(addr).unwrap();
    assert_eq!(ip, Ipv4Addr { a: 127, b: 0, c: 0, d: 1 });
}

#[test]
fn missing_required_field_fails_optional_succeeds() {
    let port: Key<u64> = Key::new("port");
    let config = StructuredConfigAccessor::from_text(r#"{"addr": "127.0.0.1"}"#).unwrap();
    match config.get(port) {
        Err(ConfigError::MissingKeyError(name)) => assert_eq!(name, "port"),
        other => panic!("expected a missing-key failure, got {:?}", other),
    }
    assert_eq!(config.get_opt(port).unwrap(), None);
}

#[test]
fn wrong_shape_is_a_conversion_error_not_a_panic() {
    let port: Key<u64> = Key::new("port");
    let config = StructuredConfigAccessor::from_text(r#"{"port": "eighty"}"#).unwrap();
    match config.get(port) {
        Err(ConfigError::ConversionError(name)) => assert_eq!(name, "port"),
        other => panic!("expected a conversion failure, got {:?}", other),
    }
    match config.get_opt(port) {
        Err(ConfigError::ConversionError(name)) => assert_eq!(name, "port"),
        other => panic!("expected a conversion failure, got {:?}", other),
    }
}

#[test]
fn invalid_text_is_a_parse_error() {
    let result = StructuredConfigAccessor::from_text("{ not valid");
    assert!(matches!(result, Err(ConfigError::ParseError)));
    let result = StructuredConfigAccessor::from_text("");
    assert!(matches!(result, Err(ConfigError::ParseError)));
    let result = StructuredConfigAccessor::from_text(r#"{"a": 1,}"#);
    assert!(matches!(result, Err(ConfigError::ParseError)));
}

#[test]
fn every_leaf_shape_converts() {
    let count: Key<u64> = Key::new("count");
    let on: Key<bool> = Key::new("on");
    let label: Key<String> = Key::new("label");
    let config = StructuredConfigAccessor::from_text(
        r#"{ "count" : 12 , "on" : true , "label" : "hal9000" , "gap" : null }"#,
    )
    .unwrap();
    assert_eq!(config.get(count).unwrap(), 12u64);
    assert_eq!(config.get(on).unwrap(), true);
    assert_eq!(config.get(label).unwrap(), "hal9000".to_string());
}

#[test]
fn null_converts_to_nothing() {
    let gap: Key<bool> = Key::new("gap");
    let config = StructuredConfigAccessor::from_text(r#"{"gap": null}"#).unwrap();
    assert!(matches!(config.get(gap), Err(ConfigError::ConversionError(_))));
}

#[test]
fn empty_document_has_no_fields() {
    let port: Key<u64> = Key::new("port");
    let config = StructuredConfigAccessor::from_text("{}").unwrap();
    assert!(matches!(config.get(port), Err(ConfigError::MissingKeyError(_))));
    let config = StructuredConfigAccessor::from_text("  {  }  ").unwrap();
    assert_eq!(config.get_opt(port).unwrap(), None);
}

#[test]
fn repeated_name_takes_the_later_binding() {
    let a: Key<u64> = Key::new("a");
    let config = StructuredConfigAccessor::from_text(r#"{"a": 1, "a": 2}"#).unwrap();
    assert_eq!(config.get(a).unwrap(), 2u64);
}

#[test]
fn numbers_cover_the_full_unsigned_range() {
    let n: Key<u64> = Key::new("n");
    let config = StructuredConfigAccessor::from_text(r#"{"n": 18446744073709551615}"#).unwrap();
    assert_eq!(config.get(n).unwrap(), u64::MAX);
    let result = StructuredConfigAccessor::from_text(r#"{"n": 18446744073709551616}"#);
    assert!(matches!(result, Err(ConfigError::ParseError)));
}

#[test]
fn false_literal_and_flag_read() {
    let on: Key<bool> = Key::new("on");
    let config = StructuredConfigAccessor::from_text(r#"{"on": false}"#).unwrap();
    assert_eq!(config.get(on).unwrap(), false);
}

#[test]
fn malformed_addresses_are_conversion_errors() {
    let addr: Key<Ipv4Addr> = Key::new("addr");
    for text in [
        r#"{"addr": "256.0.0.1"}"#,
        r#"{"addr": "1.2.3"}"#,
        r#"{"addr": "1.2.3.4.5"}"#,
        r#"{"addr": ""}"#,
        r#"{"addr": "1..2.3"}"#,
    ] {
        let config = StructuredConfigAccessor::from_text(text).unwrap();
        assert!(matches!(config.get(addr), Err(ConfigError::ConversionError(_))));
    }
}
