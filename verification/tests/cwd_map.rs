use whalenest::cwd_map::CwdMap;

#[test]
fn insert_get_remove_roundtrip() {
    let mut m = CwdMap::new();
    assert!(m.is_empty());
    assert_eq!(m.insert("a".into(), "/1".into()), None);
    assert_eq!(m.insert("b".into(), "/2".into()), None);
    assert_eq!(m.insert("a".into(), "/3".into()).as_deref(), Some("/1"));
    assert_eq!(m.len(), 2);
    assert_eq!(m.get("a").map(|s| s.as_str()), Some("/3"));
    assert_eq!(m.remove("a").as_deref(), Some("/3"));
    assert_eq!(m.remove("a"), None);
    assert!(!m.contains_key("a"));
    assert_eq!(m.to_pairs(), vec![("b".to_string(), "/2".to_string())]);
}
