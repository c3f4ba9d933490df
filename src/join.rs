use vstd::prelude::*;
use crate::errors::KakError;
use crate::types::SelectionDesc;

verus! {

/// The left fold of `bounding` over the list; `None` for an empty list.
pub open spec fn joined(s: Seq<SelectionDesc>) -> Option<SelectionDesc>
    decreases s.len(),
{
    if s.len() == 0 {
        None
    } else if s.len() == 1 {
        Some(s[0])
    } else {
        match joined(s.drop_last()) {
            Some(acc) => Some(acc.bounding(s.last())),
            None => None,
        }
    }
}

/// Reduces all selections to the single selection that bounds them.
pub fn join(selections_desc: &Vec<SelectionDesc>) -> (r: Result<SelectionDesc, KakError>)
    ensures
        match r {
            Ok(d) => joined(selections_desc@) == Some(d),
            Err(e) => selections_desc.len() == 0 && e is SetEmptySelections,
        },
        r is Ok <==> selections_desc.len() > 0,
{
    let n = selections_desc.len();
    if n == 0 {
        return Err(KakError::SetEmptySelections);
    }
    let mut acc = selections_desc[0];
    proof {
        assert(selections_desc@.subrange(0, 1)[0] == selections_desc@[0]);
    }
    let mut k: usize = 1;
    while k < n
        invariant
            n == selections_desc.len(),
            1 <= k <= n,
            joined(selections_desc@.subrange(0, k as int)) == Some(acc),
        decreases n - k,
    {
        proof {
            let t = selections_desc@.subrange(0, k + 1);
            assert(t.drop_last() =~= selections_desc@.subrange(0, k as int));
            assert(t.last() == selections_desc@[k as int]);
        }
        acc = acc.bounding_selection(&selections_desc[k]);
        k = k + 1;
    }
    proof {
        assert(selections_desc@.subrange(0, n as int) =~= selections_desc@);
    }
    Ok(acc)
}

} // verus!
