use tspchat::nickmap::NickMap;

#[test]
fn insert_get_take() {
    let mut m: NickMap<u32> = NickMap::new();
    assert!(!m.contains_key("a"));
    m.insert("a".to_string(), 1);
    m.insert("b".to_string(), 2);
    m.insert("a".to_string(), 3);
    assert_eq!(m.get("a"), Some(&3));
    assert_eq!(m.get("b"), Some(&2));
    assert_eq!(m.get("c"), None);
    assert_eq!(m.values(), vec![&3, &2]);
    assert_eq!(m.take("a"), Some(3));
    assert_eq!(m.take("a"), None);
    assert_eq!(m.values(), vec![&2]);
    m.remove("b");
    assert!(m.values().is_empty());
}

#[test]
fn keys_compare_by_characters() {
    let mut m: NickMap<u8> = NickMap::new();
    m.insert("Олег".to_string(), 1);
    assert!(m.contains_key("Олег"));
    assert!(!m.contains_key("Олега"));
    assert!(!m.contains_key("Оле"));
    assert!(!m.contains_key(""));
}
