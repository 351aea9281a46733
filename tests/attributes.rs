use rpccaps::attributes::Attributes;

#[test]
fn set_default_fills_missing_and_empty_keys() {
    let mut attrs = Attributes::new();
    assert_eq!(attrs.get("version"), None);
    assert_eq!(attrs.set_default("version", "1.0"), "1.0");
    assert_eq!(attrs.get("version"), Some(Some("1.0".to_string())));
    assert_eq!(attrs.set_default("version", "2.0"), "1.0");

    assert!(attrs.attrs.insert_new("doc".to_string(), None));
    assert_eq!(attrs.get("doc"), Some(None));
    assert_eq!(attrs.set_default("doc", "none given"), "none given");
    assert_eq!(attrs.get("doc"), Some(Some("none given".to_string())));
}
