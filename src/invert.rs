use vstd::prelude::*;
use crate::selections::{sort_descs, sorted_descs};
use crate::types::{MaybeSplit, SelectionDesc};

verus! {

/// Subtracts each range of `subs` in turn from the running remainder `rem`.
/// Each left-hand piece of a split is kept; the remainder goes on; once
/// nothing remains the run ends; at the end the remainder is kept.
pub open spec fn subtract_run(rem: SelectionDesc, subs: Seq<SelectionDesc>) -> Seq<SelectionDesc>
    decreases subs.len(),
{
    if subs.len() == 0 {
        seq![rem]
    } else {
        match rem.difference(subs[0]) {
            MaybeSplit::Nothing => Seq::empty(),
            MaybeSplit::Just(x) => subtract_run(x, subs.drop_first()),
            MaybeSplit::JustTwo(a, b) => seq![a] + subtract_run(b, subs.drop_first()),
        }
    }
}

/// Subtract a list of ranges from `selection_desc`, taking them in document order.
///
/// Splitting in the middle can leave two pieces, so the result is a list.
pub fn subtract_all_selections_desc(
    selection_desc: &SelectionDesc,
    selections_desc_to_subtract: Vec<SelectionDesc>,
) -> (r: Vec<SelectionDesc>)
    ensures
        r@ == subtract_run(*selection_desc, sorted_descs(selections_desc_to_subtract@)),
{
    let subs = sort_descs(selections_desc_to_subtract);
    let ghost all = subs@;
    let mut rightmost = *selection_desc;
    let mut ret: Vec<SelectionDesc> = Vec::new();
    let mut k: usize = 0;
    proof {
        assert(all.subrange(0, all.len() as int) =~= all);
        assert(ret@ + subtract_run(rightmost, all) =~= subtract_run(rightmost, all));
    }
    while k < subs.len()
        invariant
            all == subs@,
            all == sorted_descs(selections_desc_to_subtract@),
            k <= subs.len(),
            ret@ + subtract_run(rightmost, all.subrange(k as int, all.len() as int)) == subtract_run(
                *selection_desc,
                all,
            ),
        decreases subs.len() - k,
    {
        let ghost rest = all.subrange(k as int, all.len() as int);
        proof {
            assert(rest.drop_first() =~= all.subrange(k + 1, all.len() as int));
            assert(rest[0] == subs@[k as int]);
        }
        let piece = rightmost.subtract(&subs[k]);
        proof {
            assert(rest.len() > 0);
            assert(subtract_run(rightmost, rest) == match rightmost.difference(rest[0]) {
                MaybeSplit::Nothing => Seq::empty(),
                MaybeSplit::Just(x) => subtract_run(x, rest.drop_first()),
                MaybeSplit::JustTwo(a, b) => seq![a] + subtract_run(b, rest.drop_first()),
            });
        }
        match piece {
            MaybeSplit::Nothing => {
                proof {
                    assert(ret@ + Seq::<SelectionDesc>::empty() =~= ret@);
                }
                return ret;
            },
            MaybeSplit::Just(sd) => {
                rightmost = sd;
            },
            MaybeSplit::JustTwo(sda, sdb) => {
                proof {
                    assert(ret@.push(sda) + subtract_run(sdb, rest.drop_first()) =~= ret@ + (seq![sda]
                        + subtract_run(sdb, rest.drop_first())));
                }
                ret.push(sda);
                rightmost = sdb;
            },
        }
        k = k + 1;
    }
    proof {
        assert(all.subrange(k as int, all.len() as int).len() == 0);
    }
    ret.push(rightmost);
    proof {
        assert(ret@ =~= ret@.drop_last() + seq![rightmost]);
    }
    ret
}

/// The ranges of `s` that start on `row`, in the order given.
pub open spec fn on_row(s: Seq<SelectionDesc>, row: usize) -> Seq<SelectionDesc>
    decreases s.len(),
{
    if s.len() == 0 {
        s
    } else {
        on_row(s.drop_last(), row) + if s.last().left.row == row {
            seq![s.last()]
        } else {
            Seq::empty()
        }
    }
}

/// Some range of `s` before index `k` starts on `row`.
pub open spec fn row_seen(s: Seq<SelectionDesc>, k: int, row: usize) -> bool {
    exists|j: int| 0 <= j < k && (#[trigger] s[j]).left.row == row
}

/// What is left of the document row `docs[k]` once the selections on its row
/// are taken out. Only the first document range of a row takes them out.
pub open spec fn inverted_row(sels: Seq<SelectionDesc>, docs: Seq<SelectionDesc>, k: int) -> Seq<
    SelectionDesc,
> {
    let dd = docs[k];
    let subs = on_row(sels, dd.left.row);
    if subs.len() > 0 && !row_seen(docs, k, dd.left.row) {
        subtract_run(dd, sorted_descs(subs))
    } else {
        seq![dd]
    }
}

/// The complement of the selections within the document rows, row by row.
pub open spec fn inverted(sels: Seq<SelectionDesc>, docs: Seq<SelectionDesc>) -> Seq<SelectionDesc>
    decreases docs.len(),
{
    if docs.len() == 0 {
        Seq::empty()
    } else {
        inverted(sels, docs.drop_last()) + inverted_row(sels, docs, docs.len() - 1)
    }
}

/// The number of runs of consecutive ranges that start on one row.
pub open spec fn row_groups(s: Seq<SelectionDesc>) -> nat
    decreases s.len(),
{
    if s.len() == 0 {
        0
    } else if s.len() >= 2 && s[s.len() - 2].left.row == s.last().left.row {
        row_groups(s.drop_last())
    } else {
        row_groups(s.drop_last()) + 1
    }
}

fn selections_on_row(sels: &Vec<SelectionDesc>, row: usize) -> (r: Vec<SelectionDesc>)
    ensures
        r@ == on_row(sels@, row),
{
    let mut out: Vec<SelectionDesc> = Vec::new();
    let mut k: usize = 0;
    while k < sels.len()
        invariant
            k <= sels.len(),
            out@ == on_row(sels@.subrange(0, k as int), row),
        decreases sels.len() - k,
    {
        proof {
            let t = sels@.subrange(0, k + 1);
            assert(t.drop_last() =~= sels@.subrange(0, k as int));
            assert(t.last() == sels@[k as int]);
        }
        if sels[k].left.row == row {
            out.push(sels[k]);
            proof {
                assert(out@ =~= on_row(sels@.subrange(0, k as int), row) + seq![sels@[k as int]]);
            }
        } else {
            proof {
                assert(out@ =~= on_row(sels@.subrange(0, k as int), row) + Seq::<SelectionDesc>::empty());
            }
        }
        k = k + 1;
    }
    proof {
        assert(sels@.subrange(0, sels@.len() as int) =~= sels@);
    }
    out
}

fn seen_before(docs: &Vec<SelectionDesc>, k: usize, row: usize) -> (r: bool)
    requires
        k <= docs.len(),
    ensures
        r == row_seen(docs@, k as int, row),
{
    let mut j: usize = 0;
    while j < k
        invariant
            k <= docs.len(),
            j <= k,
            forall|i: int| 0 <= i < j ==> (#[trigger] docs@[i]).left.row != row,
        decreases k - j,
    {
        if docs[j].left.row == row {
            return true;
        }
        j = j + 1;
    }
    false
}

/// Computes the complement of the selections within the document.
///
/// `document_descs` holds one range per document row. Each row is cut by the
/// selections that start on it, one after another in document order; rows
/// that no selection starts on are kept whole. Also returns the number of
/// runs of consecutive selections on one row.
pub fn invert(selections_desc: &Vec<SelectionDesc>, document_descs: &Vec<SelectionDesc>) -> (r: (
    Vec<SelectionDesc>,
    usize,
))
    ensures
        r.0@ == inverted(selections_desc@, document_descs@),
        r.1 == row_groups(selections_desc@),
{
    let mut out: Vec<SelectionDesc> = Vec::new();
    let mut k: usize = 0;
    while k < document_descs.len()
        invariant
            k <= document_descs.len(),
            out@ == inverted(selections_desc@, document_descs@.subrange(0, k as int)),
        decreases document_descs.len() - k,
    {
        let dd = document_descs[k];
        let subs = selections_on_row(selections_desc, dd.left.row);
        let seen = seen_before(document_descs, k, dd.left.row);
        let ghost prefix = document_descs@.subrange(0, k + 1);
        proof {
            assert(prefix.drop_last() =~= document_descs@.subrange(0, k as int));
            assert(prefix[k as int] == dd);
            assert(row_seen(prefix, k as int, dd.left.row) == row_seen(
                document_descs@,
                k as int,
                dd.left.row,
            )) by {
                if row_seen(document_descs@, k as int, dd.left.row) {
                    let j = choose|j: int|
                        0 <= j < k && (#[trigger] document_descs@[j]).left.row == dd.left.row;
                    assert(prefix[j] == document_descs@[j]);
                }
                if row_seen(prefix, k as int, dd.left.row) {
                    let j = choose|j: int| 0 <= j < k && (#[trigger] prefix[j]).left.row == dd.left.row;
                    assert(prefix[j] == document_descs@[j]);
                }
            }
        }
        if subs.len() > 0 && !seen {
            let mut pieces = subtract_all_selections_desc(&dd, subs);
            out.append(&mut pieces);
        } else {
            out.push(dd);
            proof {
                assert(out@ =~= out@.drop_last() + seq![dd]);
            }
        }
        k = k + 1;
    }
    proof {
        assert(document_descs@.subrange(0, document_descs@.len() as int) =~= document_descs@);
    }
    let mut groups: usize = 0;
    let mut i: usize = 0;
    while i < selections_desc.len()
        invariant
            i <= selections_desc.len(),
            groups == row_groups(selections_desc@.subrange(0, i as int)),
            groups <= i,
        decreases selections_desc.len() - i,
    {
        proof {
            let t = selections_desc@.subrange(0, i + 1);
            assert(t.drop_last() =~= selections_desc@.subrange(0, i as int));
            assert(t.last() == selections_desc@[i as int]);
            if i >= 1 {
                assert(t[t.len() - 2] == selections_desc@[i - 1]);
            }
        }
        if i == 0 || selections_desc[i - 1].left.row != selections_desc[i].left.row {
            groups = groups + 1;
        }
        i = i + 1;
    }
    proof {
        assert(selections_desc@.subrange(0, selections_desc@.len() as int) =~= selections_desc@);
    }
    (out, groups)
}

} // verus!
