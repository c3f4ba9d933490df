use vstd::prelude::*;
use crate::errors::KakError;
use crate::set::{position, views};
use crate::text::{decimal, decimal_text};
use crate::utils::{trim_str, trimmed};

verus! {

/// A table from keys to values, read from alternating key and value selections.
/// Keys are compared with surrounding white space removed.
pub struct LookupTable {
    pub keys: Vec<String>,
    pub values: Vec<String>,
}

/// The trimmed key of each complete key/value pair.
pub open spec fn pair_keys(sel: Seq<Seq<char>>) -> Seq<Seq<char>> {
    Seq::new(sel.len() / 2, |i: int| trimmed(sel[2 * i]))
}

/// The value of each complete key/value pair.
pub open spec fn pair_values(sel: Seq<Seq<char>>) -> Seq<Seq<char>> {
    Seq::new(sel.len() / 2, |i: int| sel[2 * i + 1])
}

pub open spec fn has_duplicate(keys: Seq<Seq<char>>) -> bool {
    exists|i: int, j: int| 0 <= i < j < keys.len() && keys[i] == keys[j]
}

impl LookupTable {
    pub open spec fn wf(&self) -> bool {
        &&& self.keys@.len() == self.values@.len()
        &&& !has_duplicate(views(self.keys@))
    }

    /// The value stored for `key`, compared with surrounding white space removed.
    pub fn get(&self, key: &str) -> (r: Option<&String>)
        requires
            self.wf(),
        ensures
            match r {
                Some(v) => exists|i: int|
                    0 <= i < self.keys@.len() && self.keys@[i]@ == trimmed(key@) && *v == self.values@[i],
                None => !views(self.keys@).contains(trimmed(key@)),
            },
    {
        let k = trim_str(key);
        match position(&self.keys, k.as_str()) {
            Some(i) => Some(&self.values[i]),
            None => None,
        }
    }
}

/// Builds a lookup table from selections that alternate key and value.
///
/// Fails on a key that occurs twice, on an odd number of selections, and on
/// no selections at all, in that order.
pub fn build_lookuptable(selections: Vec<String>) -> (r: Result<LookupTable, KakError>)
    ensures
        r is Err <==> (has_duplicate(pair_keys(views(selections@))) || selections.len() % 2 == 1
            || selections.len() == 0),
        match r {
            Ok(t) => t.wf() && views(t.keys@) == pair_keys(views(selections@)) && views(t.values@)
                == pair_values(views(selections@)),
            Err(e) => e is Custom || e is CustomStatic,
        },
{
    let n = selections.len();
    let pairs = n / 2;
    let ghost sel = views(selections@);
    let mut table = LookupTable { keys: Vec::new(), values: Vec::new() };
    let mut p: usize = 0;
    while p < pairs
        invariant
            pairs == n / 2,
            n == selections.len(),
            sel == views(selections@),
            p <= pairs,
            table.keys@.len() == p,
            table.values@.len() == p,
            views(table.keys@) == pair_keys(sel).subrange(0, p as int),
            views(table.values@) == pair_values(sel).subrange(0, p as int),
            !has_duplicate(views(table.keys@)),
        decreases pairs - p,
    {
        let key = trim_str(selections[2 * p].as_str());
        proof {
            assert(pair_keys(sel)[p as int] == key@);
            assert(pair_values(sel)[p as int] == selections@[2 * p + 1]@);
        }
        match position(&table.keys, key.as_str()) {
            Some(i) => {
                proof {
                    assert(pair_keys(sel)[i as int] == views(table.keys@)[i as int]);
                    assert(has_duplicate(pair_keys(sel)));
                }
                let mut msg = String::from_str("Duplicate key '");
                msg.append(selections[2 * p].as_str());
                msg.append("'");
                return Err(KakError::Custom(msg));
            },
            None => {
                let ghost old_keys = views(table.keys@);
                table.keys.push(key);
                table.values.push(selections[2 * p + 1].clone());
                proof {
                    assert(views(table.keys@) =~= pair_keys(sel).subrange(0, p + 1));
                    assert(views(table.values@) =~= pair_values(sel).subrange(0, p + 1));
                    assert(!has_duplicate(views(table.keys@))) by {
                        if has_duplicate(views(table.keys@)) {
                            let (i, j) = choose|i: int, j: int|
                                0 <= i < j < views(table.keys@).len() && views(table.keys@)[i]
                                    == views(table.keys@)[j];
                            if j == p {
                                assert(old_keys[i] == key@);
                                assert(old_keys.contains(key@));
                            } else {
                                assert(old_keys[i] == old_keys[j]);
                            }
                        }
                    }
                }
            },
        }
        p = p + 1;
    }
    proof {
        assert(pair_keys(sel).subrange(0, pairs as int) =~= pair_keys(sel));
        assert(pair_values(sel).subrange(0, pairs as int) =~= pair_values(sel));
    }
    if n % 2 == 1 {
        Err(KakError::CustomStatic("Odd number of selections"))
    } else if n == 0 {
        Err(KakError::CustomStatic("No selections"))
    } else {
        Ok(table)
    }
}

/// `out` is what the table gives for the selection `sel`: the value stored for
/// its trimmed text, or empty where there is none.
pub open spec fn looked_up(table: LookupTable, sel: Seq<char>, out: String) -> bool {
    if views(table.keys@).contains(trimmed(sel)) {
        exists|j: int|
            0 <= j < table.keys@.len() && table.keys@[j]@ == trimmed(sel) && out == table.values@[j]
    } else {
        out@ == Seq::<char>::empty()
    }
}

/// The replacement for each selection: its value in the table, or empty
/// where its key is missing; and the number of missing keys.
pub fn xlookup(table: &LookupTable, selections: &Vec<String>) -> (r: (Vec<String>, usize))
    requires
        table.wf(),
    ensures
        r.0@.len() == selections.len(),
        r.1 <= selections.len(),
        forall|i: int|
            0 <= i < selections.len() ==> looked_up(*table, selections@[i]@, #[trigger] r.0@[i]),
{
    let mut out: Vec<String> = Vec::new();
    let mut missing: usize = 0;
    let mut k: usize = 0;
    while k < selections.len()
        invariant
            table.wf(),
            k <= selections.len(),
            out@.len() == k,
            missing <= k,
            forall|i: int| 0 <= i < k ==> looked_up(*table, selections@[i]@, #[trigger] out@[i]),
        decreases selections.len() - k,
    {
        match table.get(selections[k].as_str()) {
            Some(v) => {
                proof {
                    let j = choose|j: int|
                        0 <= j < table.keys@.len() && table.keys@[j]@ == trimmed(selections@[k as int]@)
                            && *v == table.values@[j];
                    assert(views(table.keys@)[j] == trimmed(selections@[k as int]@));
                }
                let value = v.clone();
                proof {
                    assert(looked_up(*table, selections@[k as int]@, value));
                }
                out.push(value);
            },
            None => {
                let value = String::new();
                proof {
                    assert(looked_up(*table, selections@[k as int]@, value));
                }
                out.push(value);
                missing = missing + 1;
            },
        }
        k = k + 1;
    }
    (out, missing)
}

/// The status line of a lookup: how many selections were looked up, and
/// how many keys were missing.
pub open spec fn xlookup_message_text(total: usize, missing: usize) -> Seq<char> {
    if missing == 0 {
        "Xlookup "@ + decimal_text(total as nat) + " selections"@
    } else {
        "Xlookup "@ + decimal_text((total - missing) as nat) + " selections ("@ + decimal_text(
            missing as nat,
        ) + if missing == 1 {
            " error)"@
        } else {
            " errors)"@
        }
    }
}

pub fn xlookup_message(total: usize, missing: usize) -> (r: String)
    requires
        missing <= total,
    ensures
        r@ == xlookup_message_text(total, missing),
{
    proof {
        reveal_strlit("Xlookup ");
        reveal_strlit(" selections");
        reveal_strlit(" selections (");
        reveal_strlit(" error)");
        reveal_strlit(" errors)");
    }
    let mut out = String::from_str("Xlookup ");
    if missing == 0 {
        let n = decimal(total);
        out.append(n.as_str());
        out.append(" selections");
    } else {
        let n = decimal(total - missing);
        out.append(n.as_str());
        out.append(" selections (");
        let m = decimal(missing);
        out.append(m.as_str());
        if missing == 1 {
            out.append(" error)");
        } else {
            out.append(" errors)");
        }
    }
    out
}

} // verus!
