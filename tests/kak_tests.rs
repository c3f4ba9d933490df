use kakplugin::{AnchorPosition, SelectionDesc};

const SD: SelectionDesc = SelectionDesc {
    left: AnchorPosition { row: 18, col: 9 },
    right: AnchorPosition { row: 10, col: 1 },
};

fn parse(s: &str) -> SelectionDesc {
    SelectionDesc::from_str(s).unwrap()
}

#[test]
fn kak_test_anchor_position() {
    // Check parsing
    assert_eq!(parse("18.9,10.1"), SD);
    // Check if multiple parsed ones match
    assert_eq!(parse("18.9,10.1"), parse("18.9,10.1"));
}

#[test]
fn kak_test_sort() {
    // Check if sorting works
    assert_eq!(SD.sort(), parse("10.1,18.9"));
    assert_eq!(SD.sort(), SD.sort().sort());
}

#[test]
fn kak_test_contains() {
    assert!(SD.contains(&SD));
    assert!(SD.contains(&parse("17.9,10.1")));
    assert!(SD.contains(&parse("18.8,10.1")));
    assert!(SD.contains(&parse("18.9,11.1")));
    assert!(SD.contains(&parse("18.9,10.2")));
    assert!(SD.contains(&parse("10.1,17.9")));
    assert!(SD.contains(&parse("10.1,18.8")));
    assert!(SD.contains(&parse("11.1,18.9")));
    assert!(SD.contains(&parse("10.2,18.9")));
    assert!(!SD.contains(&parse("19.9,10.1")));
    assert!(!SD.contains(&parse("18.10,10.1")));
    assert!(!SD.contains(&parse("18.9,9.1")));
    assert!(!SD.contains(&parse("18.9,10.0")));
    assert!(!SD.contains(&parse("10.1,19.9")));
    assert!(!SD.contains(&parse("10.1,18.10")));
    assert!(!SD.contains(&parse("9.1,18.9")));
    assert!(!SD.contains(&parse("10.0,18.9")));
}
