use kakplugin::{AnchorPosition, MaybeSplit, SelectionDesc};

fn sd(a: usize, b: usize, c: usize, d: usize) -> SelectionDesc {
    SelectionDesc {
        left: AnchorPosition { row: a, col: b },
        right: AnchorPosition { row: c, col: d },
    }
}

fn sdr(a: usize, b: usize, c: usize, d: usize) -> SelectionDesc {
    SelectionDesc {
        left: AnchorPosition { row: c, col: d },
        right: AnchorPosition { row: a, col: b },
    }
}

// A selection on row 1, between two columns.
fn sd1(b: usize, d: usize) -> SelectionDesc {
    sd(1, b, 1, d)
}

// The same selection with its anchor and cursor swapped.
fn sdr1(b: usize, d: usize) -> SelectionDesc {
    sd(1, d, 1, b)
}

const SD: SelectionDesc = SelectionDesc {
    left: AnchorPosition { row: 18, col: 9 },
    right: AnchorPosition { row: 10, col: 1 },
};

// Checks an operation on every orientation of both operands.
fn mixed<T: PartialEq + std::fmt::Debug>(
    left: (usize, usize),
    right: (usize, usize),
    op: fn(&SelectionDesc, &SelectionDesc) -> T,
    expected: T,
) {
    assert_eq!(op(&sd1(left.0, left.1), &sd1(right.0, right.1)), expected);
    assert_eq!(op(&sd1(left.0, left.1), &sdr1(right.0, right.1)), expected);
    assert_eq!(op(&sdr1(left.0, left.1), &sd1(right.0, right.1)), expected);
    assert_eq!(op(&sdr1(left.0, left.1), &sdr1(right.0, right.1)), expected);
}

fn intersect(a: &SelectionDesc, b: &SelectionDesc) -> Option<SelectionDesc> {
    a.intersect(b)
}

fn partial_union(a: &SelectionDesc, b: &SelectionDesc) -> Option<SelectionDesc> {
    a.partial_union(b)
}

fn subtract(a: &SelectionDesc, b: &SelectionDesc) -> MaybeSplit<SelectionDesc> {
    a.subtract(b)
}

#[test]
fn types_test_anchor_position() {
    // Check parsing
    assert_eq!(sd(18, 9, 10, 1), SD);
    // Check if multiple parsed ones match
    assert_eq!(sd(18, 9, 10, 1), sd(18, 9, 10, 1));
}

#[test]
fn types_test_sort() {
    assert_eq!(SD.sort(), sd(10, 1, 18, 9));
    assert_eq!(SD.sort(), SD.sort().sort());
    assert_eq!(sd(10, 1, 18, 9).sort(), sd(10, 1, 18, 9));
    assert_eq!(sdr(10, 1, 18, 9).sort(), sd(10, 1, 18, 9));

    assert!(sd(10, 1, 18, 9).sort().left < sd(10, 1, 18, 9).sort().right);
    assert!(sdr(10, 1, 18, 9).sort().left < sdr(10, 1, 18, 9).sort().right);
    assert!(sd1(0, 1).sort().left < sd1(0, 1).sort().right);
    assert!(sdr1(0, 1).sort().left < sdr1(0, 1).sort().right);
}

#[test]
fn types_test_contains() {
    assert!(SD.contains(&SD));
    assert!(SD.contains(&sd(17, 9, 10, 1)));
    assert!(SD.contains(&sd(18, 8, 10, 1)));
    assert!(SD.contains(&sd(18, 9, 11, 1)));
    assert!(SD.contains(&sd(18, 9, 10, 2)));
    assert!(SD.contains(&sd(10, 1, 17, 9)));
    assert!(SD.contains(&sd(10, 1, 18, 8)));
    assert!(SD.contains(&sd(11, 1, 18, 9)));
    assert!(SD.contains(&sd(10, 2, 18, 9)));
    assert!(!SD.contains(&sd(19, 9, 10, 1)));
    assert!(!SD.contains(&sd(18, 10, 10, 1)));
    assert!(!SD.contains(&sd(18, 9, 9, 1)));
    assert!(!SD.contains(&sd(18, 9, 10, 0)));
    assert!(!SD.contains(&sd(10, 1, 19, 9)));
    assert!(!SD.contains(&sd(10, 1, 18, 10)));
    assert!(!SD.contains(&sd(9, 1, 18, 9)));
    assert!(!SD.contains(&sd(10, 0, 18, 9)));

    assert!(SD.contains(&sdr(17, 9, 10, 1)));
    assert!(SD.contains(&sdr(18, 8, 10, 1)));
    assert!(SD.contains(&sdr(18, 9, 11, 1)));
    assert!(SD.contains(&sdr(18, 9, 10, 2)));
    assert!(SD.contains(&sdr(10, 1, 17, 9)));
    assert!(SD.contains(&sdr(10, 1, 18, 8)));
    assert!(SD.contains(&sdr(11, 1, 18, 9)));
    assert!(SD.contains(&sdr(10, 2, 18, 9)));
    assert!(!SD.contains(&sdr(19, 9, 10, 1)));
    assert!(!SD.contains(&sdr(18, 10, 10, 1)));
    assert!(!SD.contains(&sdr(18, 9, 9, 1)));
    assert!(!SD.contains(&sdr(18, 9, 10, 0)));
    assert!(!SD.contains(&sdr(10, 1, 19, 9)));
    assert!(!SD.contains(&sdr(10, 1, 18, 10)));
    assert!(!SD.contains(&sdr(9, 1, 18, 9)));
    assert!(!SD.contains(&sdr(10, 0, 18, 9)));
}

#[test]
fn test_intersect() {
    mixed((1, 3), (0, 5), intersect, Some(sd1(1, 3)));
    mixed((0, 3), (0, 5), intersect, Some(sd1(0, 3)));
    mixed((1, 5), (1, 5), intersect, Some(sd1(1, 5)));
    mixed((0, 6), (0, 5), intersect, Some(sd1(0, 5)));
    mixed((1, 6), (0, 5), intersect, Some(sd1(1, 5)));
    mixed((0, 5), (1, 6), intersect, Some(sd1(1, 5)));
    mixed((0, 7), (1, 6), intersect, Some(sd1(1, 6)));
    mixed((3, 3), (0, 5), intersect, Some(sd1(3, 3)));
    mixed((0, 0), (0, 5), intersect, Some(sd1(0, 0)));
    mixed((0, 0), (1, 6), intersect, None);
    mixed((5, 5), (0, 5), intersect, Some(sd1(5, 5)));
    mixed((6, 6), (0, 5), intersect, None);
    mixed((7, 7), (0, 5), intersect, None);
    mixed((0, 0), (2, 7), intersect, None);
}

#[test]
fn test_partial_union() {
    mixed((1, 3), (0, 5), partial_union, Some(sd1(0, 5)));
    mixed((0, 3), (0, 5), partial_union, Some(sd1(0, 5)));
    mixed((1, 5), (1, 5), partial_union, Some(sd1(1, 5)));
    mixed((0, 6), (0, 5), partial_union, Some(sd1(0, 6)));
    mixed((1, 6), (0, 5), partial_union, Some(sd1(0, 6)));
    mixed((0, 5), (1, 6), partial_union, Some(sd1(0, 6)));
    mixed((0, 7), (1, 6), partial_union, Some(sd1(0, 7)));
    mixed((3, 3), (0, 5), partial_union, Some(sd1(0, 5)));
    mixed((0, 0), (0, 5), partial_union, Some(sd1(0, 5)));
    mixed((0, 0), (1, 6), partial_union, Some(sd1(0, 6)));
    mixed((5, 5), (0, 5), partial_union, Some(sd1(0, 5)));
    mixed((6, 6), (0, 5), partial_union, Some(sd1(0, 6)));
    mixed((7, 7), (0, 5), partial_union, None);
    mixed((0, 0), (2, 7), partial_union, None);
}

#[test]
fn test_subtract() {
    mixed((1, 3), (0, 5), subtract, MaybeSplit::Nothing);
    mixed((0, 3), (0, 5), subtract, MaybeSplit::Nothing);
    mixed((1, 5), (1, 5), subtract, MaybeSplit::Nothing);
    mixed((0, 6), (0, 5), subtract, MaybeSplit::Just(sd1(6, 6)));
    mixed((1, 6), (0, 5), subtract, MaybeSplit::Just(sd1(6, 6)));
    mixed((0, 5), (1, 6), subtract, MaybeSplit::Just(sd1(0, 0)));
    mixed((0, 7), (1, 6), subtract, MaybeSplit::JustTwo(sd1(0, 0), sd1(7, 7)));
    mixed((3, 3), (0, 5), subtract, MaybeSplit::Nothing);
    mixed((0, 0), (0, 5), subtract, MaybeSplit::Nothing);
    mixed((0, 0), (1, 6), subtract, MaybeSplit::Just(sd1(0, 0)));
    mixed((5, 5), (0, 5), subtract, MaybeSplit::Nothing);
    mixed((6, 6), (0, 5), subtract, MaybeSplit::Just(sd1(6, 6)));
}
