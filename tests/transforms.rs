use kakplugin::pad::pad;
use kakplugin::sort::{compare_chars, compare_keys, sort_order, sorted_contents};
use kakplugin::trim::{rev, trim, trim_message};
use kakplugin::xargs::{frame_records, split_records};
use kakplugin::types::SelectionWithDesc;
use kakplugin::{AnchorPosition, KakError, SelectionDesc};
use std::cmp::Ordering;

fn strings(items: &[&str]) -> Vec<String> {
    items.iter().map(|s| s.to_string()).collect()
}

fn at(row: usize) -> SelectionDesc {
    SelectionDesc {
        left: AnchorPosition { row, col: 0 },
        right: AnchorPosition { row, col: 0 },
    }
}

#[test]
fn sort_orders_numbers_by_value_or_by_characters() {
    let keys = strings(&["b10", "a", "b9"]);
    assert_eq!(sort_order(&keys, true), vec![1, 2, 0]);
    assert_eq!(sort_order(&keys, false), vec![1, 0, 2]);
    assert_eq!(compare_keys("x2", "x10", true), Ordering::Less);
    assert_eq!(compare_keys("x2", "x10", false), Ordering::Greater);
    assert_eq!(compare_chars("ab", "abc"), Ordering::Less);
    assert_eq!(compare_chars("abc", "abc"), Ordering::Equal);
}

#[test]
fn sort_keeps_equal_keys_in_order() {
    let keys = strings(&["b", "a", "b", "a"]);
    assert_eq!(sort_order(&keys, false), vec![1, 3, 0, 2]);
}

#[test]
fn sorted_contents_forward_and_reversed() {
    let sels: Vec<SelectionWithDesc> = ["x", "y", "z"]
        .iter()
        .enumerate()
        .map(|(i, c)| SelectionWithDesc { content: c.to_string(), desc: at(i) })
        .collect();
    assert_eq!(sorted_contents(&sels, &vec![2, 0, 1], false), strings(&["z", "x", "y"]));
    assert_eq!(sorted_contents(&sels, &vec![2, 0, 1], true), strings(&["y", "x", "z"]));
}

#[test]
fn trim_sides_and_newline() {
    assert_eq!(trim("  a \n", false, false, false), ("a\n".to_string(), true));
    assert_eq!(trim("  a \n", true, true, true), ("a".to_string(), true));
    assert_eq!(trim(" a \n", true, false, true), ("a \n".to_string(), true));
    assert_eq!(trim("  a \n", false, true, false), ("  a\n".to_string(), true));
    assert_eq!(trim("a", false, false, false), ("a".to_string(), false));
    assert_eq!(trim_message(3, 1), "Trimmed 3 selections (1 changed)");
}

#[test]
fn pad_to_longest() {
    let (padded, count) = pad(&strings(&["1", "22", "\n333\n"]), "0", false).unwrap();
    assert_eq!(padded, strings(&["001", "022", "\n333\n"]));
    assert_eq!(count, 2);
    let (padded, count) = pad(&strings(&["1", "22", "333"]), "_", true).unwrap();
    assert_eq!(padded, strings(&["1__", "22_", "333"]));
    assert_eq!(count, 2);
    let (padded, count) = pad(&strings(&["é", "ab"]), "0", false).unwrap();
    assert_eq!(padded, strings(&["é", "ab"]));
    assert_eq!(count, 0);
    assert!(matches!(pad(&vec![], "0", false), Err(KakError::CustomStatic(_))));
}

#[test]
fn reverse_selections() {
    assert_eq!(rev(&strings(&["a", "b", "c"])), strings(&["c", "b", "a"]));
    assert_eq!(rev(&vec![]), Vec::<String>::new());
}

#[test]
fn inverted_boolean_flags() {
    assert_eq!(kakplugin::sort::invert_bool("false"), Ok(true));
    assert_eq!(kakplugin::sort::invert_bool("true"), Ok(false));
    assert!(kakplugin::sort::invert_bool("yes").is_err());
}

#[test]
fn null_separated_records() {
    let framed = frame_records(&vec!["a".to_string(), "é\n".to_string()]);
    assert_eq!(framed, b"a\0\xc3\xa9\n\0".to_vec());
    assert_eq!(split_records(&b"a\0b\0".to_vec()), vec![b"a".to_vec(), b"b".to_vec()]);
    assert_eq!(split_records(&b"a\0b".to_vec()), vec![b"a".to_vec(), b"b".to_vec()]);
    assert_eq!(split_records(&b"\0".to_vec()), vec![Vec::<u8>::new()]);
    assert_eq!(split_records(&Vec::new()), Vec::<Vec<u8>>::new());
    assert_eq!(split_records(&framed), vec![b"a".to_vec(), "é\n".as_bytes().to_vec()]);
}
