use vstd::prelude::*;
use crate::set::{views};
use crate::text::{decimal, decimal_text};
use crate::types::{SelectionDesc, SelectionWithDesc};
use crate::set::{lemma_contains_push_keys, position};

verus! {

/// The selection at `i` is kept: its key is empty, or no earlier selection
/// has the same key.
pub open spec fn is_first_of_key(keys: Seq<Seq<char>>, i: int) -> bool {
    keys[i].len() == 0 || !keys.subrange(0, i).contains(keys[i])
}

/// How many of the flags are set.
pub open spec fn count_true(s: Seq<bool>) -> nat
    decreases s.len(),
{
    if s.len() == 0 {
        0
    } else {
        count_true(s.drop_last()) + if s.last() {
            1nat
        } else {
            0nat
        }
    }
}

/// Finds the first selection of each key, in the order given (document order).
///
/// Returns the new contents, where each later selection with a key already
/// seen is emptied, and for each selection whether it was kept.
pub fn uniq(selections: &Vec<SelectionWithDesc>, keys: &Vec<String>) -> (r: (Vec<String>, Vec<bool>))
    requires
        keys.len() == selections.len(),
    ensures
        r.0@.len() == selections.len(),
        r.1@.len() == selections.len(),
        forall|i: int|
            0 <= i < selections.len() ==> (#[trigger] r.1@[i]) == is_first_of_key(views(keys@), i),
        forall|i: int|
            0 <= i < selections.len() ==> (#[trigger] r.0@[i])@ == if r.1@[i] {
                selections@[i].content@
            } else {
                Seq::empty()
            },
{
    let mut contents: Vec<String> = Vec::new();
    let mut kept: Vec<bool> = Vec::new();
    let mut seen: Vec<String> = Vec::new();
    let mut k: usize = 0;
    while k < selections.len()
        invariant
            keys.len() == selections.len(),
            k <= selections.len(),
            contents@.len() == k,
            kept@.len() == k,
            forall|i: int| 0 <= i < k ==> (#[trigger] kept@[i]) == is_first_of_key(views(keys@), i),
            forall|i: int|
                0 <= i < k ==> (#[trigger] contents@[i])@ == if kept@[i] {
                    selections@[i].content@
                } else {
                    Seq::empty()
                },
            forall|x: Seq<char>|
                x.len() > 0 ==> (views(seen@).contains(x) <==> views(keys@).subrange(0, k as int).contains(
                    x,
                )),
        decreases selections.len() - k,
    {
        let key = keys[k].as_str();
        let ghost prefix = views(keys@).subrange(0, k as int);
        let ghost next = views(keys@).subrange(0, k + 1);
        proof {
            assert(next =~= prefix.push(key@));
            assert(views(keys@)[k as int] == key@);
        }
        let empty_key = key.unicode_len() == 0;
        let fresh = if empty_key {
            true
        } else {
            match position(&seen, key) {
                Some(i) => {
                    proof {
                        assert(views(seen@)[i as int] == key@);
                    }
                    false
                },
                None => true,
            }
        };
        let ghost old_seen = views(seen@);
        proof {
            assert(fresh == is_first_of_key(views(keys@), k as int)) by {
                if !empty_key {
                    assert(views(seen@).contains(key@) <==> prefix.contains(key@));
                }
            }
        }
        if fresh && !empty_key {
            seen.push(String::from_str(key));
            proof {
                assert(views(seen@) =~= old_seen.push(key@));
            }
        }
        proof {
            assert forall|x: Seq<char>| x.len() > 0 implies (views(seen@).contains(x) <==> next.contains(
                x,
            )) by {
                lemma_contains_push_keys(prefix, key@, x);
                lemma_contains_push_keys(old_seen, key@, x);
            }
        }
        kept.push(fresh);
        if fresh {
            contents.push(selections[k].content.clone());
        } else {
            contents.push(String::new());
        }
        k = k + 1;
    }
    (contents, kept)
}

/// The ranges of the kept selections: `descs` and `kept` are paired in order,
/// as far as both go.
pub open spec fn kept_ranges(descs: Seq<SelectionDesc>, kept: Seq<bool>) -> Seq<SelectionDesc>
    decreases descs.len(),
{
    if descs.len() == 0 {
        descs
    } else {
        let n = descs.len() - 1;
        kept_ranges(descs.drop_last(), kept) + if n < kept.len() && kept[n] {
            seq![descs.last()]
        } else {
            Seq::empty()
        }
    }
}

/// Keeps the ranges whose flag is set, deselecting the emptied duplicates.
pub fn uniq_descs(selections_desc: &Vec<SelectionDesc>, kept: &Vec<bool>) -> (r: Vec<SelectionDesc>)
    ensures
        r@ == kept_ranges(selections_desc@, kept@),
{
    let mut out: Vec<SelectionDesc> = Vec::new();
    let mut k: usize = 0;
    while k < selections_desc.len()
        invariant
            k <= selections_desc.len(),
            out@ == kept_ranges(selections_desc@.subrange(0, k as int), kept@),
        decreases selections_desc.len() - k,
    {
        let ghost t = selections_desc@.subrange(0, k + 1);
        proof {
            assert(t.drop_last() =~= selections_desc@.subrange(0, k as int));
            assert(t.last() == selections_desc@[k as int]);
        }
        if k < kept.len() && kept[k] {
            out.push(selections_desc[k]);
            proof {
                assert(out@ =~= kept_ranges(selections_desc@.subrange(0, k as int), kept@) + seq![
                    selections_desc@[k as int],
                ]);
            }
        } else {
            proof {
                assert(out@ =~= kept_ranges(selections_desc@.subrange(0, k as int), kept@) + Seq::<
                    SelectionDesc,
                >::empty());
            }
        }
        k = k + 1;
    }
    proof {
        assert(selections_desc@.subrange(0, selections_desc@.len() as int) =~= selections_desc@);
    }
    out
}

pub open spec fn uniq_message_text(kept: Seq<bool>) -> Seq<char> {
    decimal_text(count_true(kept)) + " unique selections out of "@ + decimal_text(kept.len() as nat)
}

/// The status line: how many selections were kept, out of how many.
pub fn uniq_message(kept: &Vec<bool>) -> (r: String)
    ensures
        r@ == uniq_message_text(kept@),
{
    let mut n: usize = 0;
    let mut k: usize = 0;
    while k < kept.len()
        invariant
            k <= kept.len(),
            n == count_true(kept@.subrange(0, k as int)),
            n <= k,
        decreases kept.len() - k,
    {
        let ghost t = kept@.subrange(0, k + 1);
        proof {
            assert(t.drop_last() =~= kept@.subrange(0, k as int));
            assert(t.last() == kept@[k as int]);
        }
        if kept[k] {
            n = n + 1;
        }
        k = k + 1;
    }
    proof {
        assert(kept@.subrange(0, kept@.len() as int) =~= kept@);
        reveal_strlit(" unique selections out of ");
    }
    let mut out = decimal(n);
    out.append(" unique selections out of ");
    let total = decimal(kept.len());
    out.append(total.as_str());
    out
}

} // verus!
