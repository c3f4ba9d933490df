use vstd::prelude::*;
use crate::errors::KakError;
use crate::types::{AnchorPosition, SelectionDesc};

verus! {

pub open spec fn min_u(a: usize, b: usize) -> usize {
    if a <= b {
        a
    } else {
        b
    }
}

pub open spec fn max_u(a: usize, b: usize) -> usize {
    if a <= b {
        b
    } else {
        a
    }
}

/// The rectangle, in rows and columns, that holds the corners of both ranges.
pub open spec fn box_of(a: SelectionDesc, b: SelectionDesc) -> SelectionDesc {
    SelectionDesc {
        left: AnchorPosition {
            row: min_u(min_u(a.left.row, a.right.row), min_u(b.left.row, b.right.row)),
            col: min_u(min_u(a.left.col, a.right.col), min_u(b.left.col, b.right.col)),
        },
        right: AnchorPosition {
            row: max_u(max_u(a.right.row, a.left.row), max_u(b.right.row, b.left.row)),
            col: max_u(max_u(a.right.col, a.left.col), max_u(b.right.col, b.left.col)),
        },
    }
}

/// The rectangle that holds every range of `s`, folded from the first; `None`
/// for an empty list.
pub open spec fn bounding_box(s: Seq<SelectionDesc>) -> Option<SelectionDesc>
    decreases s.len(),
{
    if s.len() == 0 {
        None
    } else if s.len() == 1 {
        Some(s[0].sorted())
    } else {
        match bounding_box(s.drop_last()) {
            Some(acc) => Some(box_of(acc, s.last().sorted())),
            None => None,
        }
    }
}

fn min_of(a: usize, b: usize) -> (r: usize)
    ensures
        r == min_u(a, b),
{
    if a <= b {
        a
    } else {
        b
    }
}

fn max_of(a: usize, b: usize) -> (r: usize)
    ensures
        r == max_u(a, b),
{
    if a <= b {
        b
    } else {
        a
    }
}

/// Get the bounding box of a list of selections.
pub fn get_bounding_box(selections_desc: &Vec<SelectionDesc>) -> (r: Option<SelectionDesc>)
    ensures
        r == bounding_box(selections_desc@),
        r is None <==> selections_desc.len() == 0,
{
    let n = selections_desc.len();
    if n == 0 {
        return None;
    }
    let mut acc = selections_desc[0].sort();
    proof {
        assert(selections_desc@.subrange(0, 1).drop_last().len() == 0);
        assert(selections_desc@.subrange(0, 1)[0] == selections_desc@[0]);
    }
    let mut k: usize = 1;
    while k < n
        invariant
            n == selections_desc.len(),
            1 <= k <= n,
            bounding_box(selections_desc@.subrange(0, k as int)) == Some(acc),
        decreases n - k,
    {
        let sd = selections_desc[k].sort();
        let a = acc;
        acc = SelectionDesc {
            left: AnchorPosition {
                row: min_of(min_of(a.left.row, a.right.row), min_of(sd.left.row, sd.right.row)),
                col: min_of(min_of(a.left.col, a.right.col), min_of(sd.left.col, sd.right.col)),
            },
            right: AnchorPosition {
                row: max_of(max_of(a.right.row, a.left.row), max_of(sd.right.row, sd.left.row)),
                col: max_of(max_of(a.right.col, a.left.col), max_of(sd.right.col, sd.left.col)),
            },
        };
        proof {
            let t = selections_desc@.subrange(0, k + 1);
            assert(t.drop_last() =~= selections_desc@.subrange(0, k as int));
            assert(t.last() == selections_desc@[k as int]);
        }
        k = k + 1;
    }
    proof {
        assert(selections_desc@.subrange(0, n as int) =~= selections_desc@);
    }
    Some(acc)
}

/// The part of the whole-row range `row` that lies between the columns
/// `first_col` and `last_col`.
pub open spec fn boxed_row(row: SelectionDesc, first_col: usize, last_col: usize) -> Option<
    SelectionDesc,
> {
    row.intersection(
        SelectionDesc {
            left: AnchorPosition { row: row.left.row, col: first_col },
            right: AnchorPosition { row: row.right.row, col: last_col },
        },
    )
}

/// The pieces of the whole-row ranges `rows` that lie between the leftmost
/// and rightmost columns of `sd`; rows where nothing lies there are left out.
pub open spec fn boxed_rows(sd: SelectionDesc, rows: Seq<SelectionDesc>) -> Seq<SelectionDesc>
    decreases rows.len(),
{
    if rows.len() == 0 {
        Seq::empty()
    } else {
        let first_col = min_u(sd.left.col, sd.right.col);
        let last_col = max_u(sd.left.col, sd.right.col);
        boxed_rows(sd, rows.drop_last()) + match boxed_row(rows.last(), first_col, last_col) {
            Some(p) => seq![p],
            None => Seq::empty(),
        }
    }
}

/// Cuts each whole-row range of `selections_desc_rows` down to the columns
/// that `selection_desc` spans.
pub fn to_boxed_selections(selection_desc: &SelectionDesc, selections_desc_rows: &[SelectionDesc]) -> (r:
    Vec<SelectionDesc>)
    ensures
        r@ == boxed_rows(*selection_desc, selections_desc_rows@),
{
    let first_col = min_of(selection_desc.left.col, selection_desc.right.col);
    let last_col = max_of(selection_desc.left.col, selection_desc.right.col);
    let mut out: Vec<SelectionDesc> = Vec::new();
    let mut k: usize = 0;
    while k < selections_desc_rows.len()
        invariant
            k <= selections_desc_rows@.len(),
            first_col == min_u(selection_desc.left.col, selection_desc.right.col),
            last_col == max_u(selection_desc.left.col, selection_desc.right.col),
            out@ == boxed_rows(*selection_desc, selections_desc_rows@.subrange(0, k as int)),
        decreases selections_desc_rows@.len() - k,
    {
        let split = selections_desc_rows[k];
        let clip = SelectionDesc {
            left: AnchorPosition { row: split.left.row, col: first_col },
            right: AnchorPosition { row: split.right.row, col: last_col },
        };
        let piece = split.intersect(&clip);
        proof {
            let t = selections_desc_rows@.subrange(0, k + 1);
            assert(t.drop_last() =~= selections_desc_rows@.subrange(0, k as int));
            assert(t.last() == split);
        }
        match piece {
            Some(p) => {
                out.push(p);
            },
            None => {},
        }
        proof {
            let t = selections_desc_rows@.subrange(0, k + 1);
            assert(out@ =~= boxed_rows(*selection_desc, t));
        }
        k = k + 1;
    }
    proof {
        assert(selections_desc_rows@.subrange(0, selections_desc_rows@.len() as int)
            =~= selections_desc_rows@);
    }
    out
}

/// Index of the first whole-row range that starts on `row`, or -1.
pub open spec fn row_index(rows: Seq<SelectionDesc>, row: usize) -> int
    decreases rows.len(),
{
    if rows.len() == 0 {
        -1
    } else if rows[0].left.row == row {
        0
    } else {
        let k = row_index(rows.drop_first(), row);
        if k < 0 {
            -1
        } else {
            k + 1
        }
    }
}

proof fn lemma_row_index(rows: Seq<SelectionDesc>, row: usize, i: int)
    requires
        0 <= i <= rows.len(),
        forall|j: int| 0 <= j < i ==> (#[trigger] rows[j]).left.row != row,
        i == rows.len() || rows[i].left.row == row,
    ensures
        row_index(rows, row) == (if i == rows.len() {
            -1
        } else {
            i
        }),
    decreases rows.len(),
{
    if rows.len() > 0 && i > 0 {
        assert(rows[0].left.row != row);
        lemma_row_index(rows.drop_first(), row, i - 1);
        assert forall|j: int| 0 <= j < i - 1 implies (#[trigger] rows.drop_first()[j]).left.row
            != row by {
            assert(rows.drop_first()[j] == rows[j + 1]);
        }
    }
}

/// The boxes of every selection of `descs`, in order, or `None` where a
/// selection's rows are not all among `rows`.
pub open spec fn boxed_all(descs: Seq<SelectionDesc>, rows: Seq<SelectionDesc>) -> Option<
    Seq<SelectionDesc>,
>
    decreases descs.len(),
{
    if descs.len() == 0 {
        Some(Seq::empty())
    } else {
        match boxed_all(descs.drop_last(), rows) {
            None => None,
            Some(prev) => {
                let sd = descs.last().sorted();
                let i = row_index(rows, sd.left.row);
                if i < 0 || i + sd.rows() > rows.len() {
                    None
                } else {
                    Some(prev + boxed_rows(sd, rows.subrange(i, i + sd.rows())))
                }
            },
        }
    }
}

fn find_row(rows: &Vec<SelectionDesc>, row: usize) -> (r: Option<usize>)
    ensures
        match r {
            Some(i) => row_index(rows@, row) == i && i < rows.len(),
            None => row_index(rows@, row) == -1,
        },
{
    let mut k: usize = 0;
    while k < rows.len()
        invariant
            k <= rows.len(),
            forall|j: int| 0 <= j < k ==> (#[trigger] rows@[j]).left.row != row,
        decreases rows.len() - k,
    {
        if rows[k].left.row == row {
            proof {
                lemma_row_index(rows@, row, k as int);
            }
            return Some(k);
        }
        k = k + 1;
    }
    proof {
        lemma_row_index(rows@, row, rows@.len() as int);
    }
    None
}

/// Turns each selection into the rectangle between its leftmost and rightmost
/// columns, row by row, clipped to the whole-row ranges `selections_desc_rows`.
/// A selection's rows are the run of `row_span` whole-row ranges that starts
/// at the first one on its first row.
pub fn boxed_selections(selections_desc: &Vec<SelectionDesc>, selections_desc_rows: &Vec<SelectionDesc>) -> (r:
    Result<Vec<SelectionDesc>, KakError>)
    ensures
        r is Ok <==> boxed_all(selections_desc@, selections_desc_rows@) is Some,
        match r {
            Ok(v) => boxed_all(selections_desc@, selections_desc_rows@) == Some(v@),
            Err(e) => e is Custom,
        },
{
    let mut out: Vec<SelectionDesc> = Vec::new();
    let mut k: usize = 0;
    let n = selections_desc.len();
    while k < n
        invariant
            n == selections_desc.len(),
            k <= n,
            boxed_all(selections_desc@.subrange(0, k as int), selections_desc_rows@) == Some(out@),
        decreases n - k,
    {
        let sd = selections_desc[k].sort();
        proof {
            let t = selections_desc@.subrange(0, k + 1);
            assert(t.drop_last() =~= selections_desc@.subrange(0, k as int));
            assert(t.last() == selections_desc@[k as int]);
        }
        let first = match find_row(selections_desc_rows, sd.left.row) {
            Some(i) => i,
            None => {
                proof {
                    lemma_boxed_all_none(selections_desc@, selections_desc_rows@, k as int + 1);
                }
                return Err(KakError::Custom(String::from_str("Selection row not found in split rows")));
            },
        };
        if sd.right.row - sd.left.row >= selections_desc_rows.len() - first {
            proof {
                lemma_boxed_all_none(selections_desc@, selections_desc_rows@, k as int + 1);
            }
            return Err(
                KakError::Custom(
                    String::from_str("Selections split on line count mismatch (too few rows)"),
                ),
            );
        }
        let span = sd.row_span();
        let mut window: Vec<SelectionDesc> = Vec::new();
        let mut w: usize = first;
        while w < first + span
            invariant
                first <= w <= first + span,
                first + span <= selections_desc_rows.len(),
                window@ == selections_desc_rows@.subrange(first as int, w as int),
            decreases first + span - w,
        {
            window.push(selections_desc_rows[w]);
            proof {
                assert(window@ =~= selections_desc_rows@.subrange(first as int, w + 1));
            }
            w = w + 1;
        }
        let mut piece = to_boxed_selections(&sd, window.as_slice());
        out.append(&mut piece);
        k = k + 1;
    }
    proof {
        assert(selections_desc@.subrange(0, n as int) =~= selections_desc@);
    }
    Ok(out)
}

/// Once the boxes of a prefix of `descs` cannot be made, neither can those of
/// the whole list.
proof fn lemma_boxed_all_none(descs: Seq<SelectionDesc>, rows: Seq<SelectionDesc>, k: int)
    requires
        0 <= k <= descs.len(),
        boxed_all(descs.subrange(0, k), rows) is None,
    ensures
        boxed_all(descs, rows) is None,
    decreases descs.len() - k,
{
    if k < descs.len() {
        let t = descs.subrange(0, k + 1);
        assert(t.drop_last() =~= descs.subrange(0, k));
        lemma_boxed_all_none(descs, rows, k + 1);
    } else {
        assert(descs.subrange(0, k) =~= descs);
    }
}

} // verus!
