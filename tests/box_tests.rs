use kakplugin::box_::get_bounding_box;
use kakplugin::{AnchorPosition, SelectionDesc};

fn sd(a: usize, b: usize, c: usize, d: usize) -> SelectionDesc {
    SelectionDesc {
        left: AnchorPosition { row: a, col: b },
        right: AnchorPosition { row: c, col: d },
    }
}

fn sdr(a: usize, b: usize, c: usize, d: usize) -> SelectionDesc {
    sd(c, d, a, b)
}

#[test]
fn test_get_bounding_box() {
    assert!(get_bounding_box(&Vec::new()).is_none());
    assert_eq!(get_bounding_box(&vec![sd(1, 0, 1, 1)]).unwrap(), sd(1, 0, 1, 1));
    assert_eq!(
        get_bounding_box(&vec![sd(0, 0, 8, 2), sd(1, 15, 9, 3)]).unwrap(),
        sd(0, 0, 9, 15)
    );
    assert_eq!(get_bounding_box(&vec![sdr(1, 0, 1, 1)]).unwrap(), sd(1, 0, 1, 1));
    assert_eq!(
        get_bounding_box(&vec![sdr(0, 0, 8, 2), sdr(1, 15, 9, 3)]).unwrap(),
        sd(0, 0, 9, 15)
    );
}
