use kakplugin::xlookup::build_lookuptable;

fn strings(items: &[&str]) -> Vec<String> {
    items.iter().map(|s| s.to_string()).collect()
}

#[test]
fn test_build_lookuptable() {
    // Must be an even number
    assert!(build_lookuptable(strings(&["1", "b", "c"])).is_err());
    // Duplicate key
    assert!(build_lookuptable(strings(&["1", "b", "2", "c", "2", "d"])).is_err());
    // Valid
    assert!(build_lookuptable(strings(&["1", "b", "2", "c"])).is_ok());

    let lt = build_lookuptable(strings(&["1", "b", "2", "c"])).unwrap();
    assert_eq!(lt.get("1"), Some(&String::from("b")));
    assert_eq!(lt.get("2"), Some(&String::from("c")));
    assert_eq!(lt.get("3"), None);
}
