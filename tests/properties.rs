use kakplugin::box_::boxed_selections;
use kakplugin::keep_every::keep_every;
use kakplugin::{AnchorPosition, MaybeSplit, SelectionDesc};

fn sd(a: usize, b: usize, c: usize, d: usize) -> SelectionDesc {
    SelectionDesc {
        left: AnchorPosition { row: a, col: b },
        right: AnchorPosition { row: c, col: d },
    }
}

fn samples() -> Vec<SelectionDesc> {
    vec![
        sd(0, 0, 0, 0),
        sd(0, 7, 0, 1),
        sd(3, 2, 1, 9),
        sd(1, 9, 3, 2),
        sd(2, 4, 2, 4),
        sd(5, 0, 4, 10),
    ]
}

#[test]
fn sort_is_idempotent_and_ignores_orientation() {
    for x in samples() {
        let s = x.sort();
        assert_eq!(s.sort(), s);
        assert!(s.left <= s.right);
        assert_eq!(x.rev().sort(), s);
    }
}

#[test]
fn every_selection_contains_itself() {
    for x in samples() {
        assert!(x.contains(&x));
        assert!(x.sort().contains(&x.sort()));
    }
}

#[test]
fn mutual_containment_is_equality() {
    let all = samples();
    for a in &all {
        for b in &all {
            let (a, b) = (a.sort(), b.sort());
            assert_eq!(a.contains(&b) && b.contains(&a), a == b);
        }
    }
}

#[test]
fn subtract_pieces_and_removed_range_cover_the_whole() {
    let all = samples();
    for s in &all {
        for o in &all {
            match s.subtract(o) {
                MaybeSplit::Nothing => assert!(o.contains(s)),
                MaybeSplit::Just(p) => assert!(p.bounding_selection(o).contains(s)),
                MaybeSplit::JustTwo(p, q) => {
                    assert!(p.bounding_selection(&q).bounding_selection(o).contains(s))
                }
            }
        }
    }
}

#[test]
fn intersect_with_itself_is_the_sorted_selection() {
    for a in samples() {
        assert_eq!(a.intersect(&a), Some(a.sort()));
    }
}

#[test]
fn box_of_single_row_selection_is_unchanged() {
    let boxed = boxed_selections(&vec![sd(1, 0, 1, 2)], &vec![sd(1, 0, 1, 10)]).unwrap();
    assert_eq!(boxed, vec![sd(1, 0, 1, 2)]);
}

#[test]
fn box_of_multi_row_selection_keeps_its_columns() {
    let rows = vec![sd(0, 0, 0, 9), sd(1, 0, 1, 3), sd(2, 0, 2, 9), sd(3, 0, 3, 9)];
    let boxed = boxed_selections(&vec![sd(0, 5, 2, 2)], &rows).unwrap();
    assert_eq!(boxed, vec![sd(0, 2, 0, 5), sd(1, 2, 1, 3), sd(2, 2, 2, 5)]);
}

#[test]
fn box_reports_missing_rows() {
    assert!(boxed_selections(&vec![sd(4, 0, 4, 1)], &vec![sd(1, 0, 1, 10)]).is_err());
    assert!(boxed_selections(&vec![sd(1, 0, 3, 1)], &vec![sd(1, 0, 1, 10)]).is_err());
}

#[test]
fn subtract_splits_in_the_middle() {
    assert_eq!(
        sd(0, 0, 0, 7).subtract(&sd(0, 1, 0, 6)),
        MaybeSplit::JustTwo(sd(0, 0, 0, 0), sd(0, 7, 0, 7))
    );
}

#[test]
fn subtract_saturates_at_column_zero() {
    assert_eq!(
        sd(0, 0, 2, 3).subtract(&sd(1, 0, 1, 4)),
        MaybeSplit::JustTwo(sd(0, 0, 1, 0), sd(1, 5, 2, 3))
    );
}

#[test]
fn partial_union_joins_adjacent_columns() {
    assert_eq!(sd(0, 0, 0, 5).partial_union(&sd(0, 6, 0, 6)), Some(sd(0, 0, 0, 6)));
    assert_eq!(sd(0, 6, 0, 6).partial_union(&sd(0, 0, 0, 5)), Some(sd(0, 0, 0, 6)));
    assert_eq!(sd(0, 0, 0, 5).partial_union(&sd(1, 6, 1, 6)), None);
}

#[test]
fn keep_every_second_item() {
    assert_eq!(keep_every(&vec![1, 2, 3, 4, 5, 6, 7], 2), vec![1, 3, 5, 7]);
    assert_eq!(keep_every(&vec![1, 2, 3, 4, 5, 6, 7], 3), vec![1, 4, 7]);
    assert_eq!(keep_every(&Vec::<u8>::new(), 2), Vec::<u8>::new());
}

#[test]
fn row_span_counts_rows() {
    assert_eq!(sd(18, 9, 10, 1).row_span(), 9);
    assert_eq!(sd(4, 9, 4, 1).row_span(), 1);
}

#[test]
fn bounding_selection_envelopes_both() {
    assert_eq!(sd(10, 16, 1, 14).bounding_selection(&sd(64, 10, 1, 100)), sd(1, 14, 64, 10));
    assert_eq!(sd(3, 0, 3, 4).bounding_selection(&sd(9, 1, 9, 2)), sd(3, 0, 9, 2));
}

#[test]
fn selection_order_is_left_then_right() {
    assert!(sd(1, 0, 2, 0) < sd(1, 0, 3, 0));
    assert!(sd(0, 5, 0, 0) < sd(1, 0, 0, 0));
    assert!(sd(2, 2, 2, 2) <= sd(2, 2, 2, 2));
    let v = samples();
    let mut by_std = v.clone();
    by_std.sort();
    assert_eq!(kakplugin::selections::sort_descs(v), by_std);
}
