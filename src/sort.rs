use vstd::prelude::*;
use core::cmp::Ordering;
use crate::set::views;
use crate::text::str_eq;
use crate::types::SelectionWithDesc;

verus! {

/// Reads a flag given as the opposite boolean: `false` turns it on, `true` off.
pub fn invert_bool(s: &str) -> (r: Result<bool, &'static str>)
    ensures
        s@ == "false"@ ==> r == Ok::<bool, &'static str>(true),
        s@ == "true"@ ==> r == Ok::<bool, &'static str>(false),
        s@ != "false"@ && s@ != "true"@ ==> r is Err,
{
    proof {
        reveal_strlit("false");
        reveal_strlit("true");
        assert("false"@.len() == 5);
        assert("true"@.len() == 4);
    }
    if str_eq(s, "false") {
        Ok(true)
    } else if str_eq(s, "true") {
        Ok(false)
    } else {
        Err("Unparsable boolean value")
    }
}

/// How `alphanumeric_sort::compare_str` orders two strings: runs of digits
/// compare as numbers.
pub uninterp spec fn alphanumeric_order(a: Seq<char>, b: Seq<char>) -> Ordering;

/// Relies on `alphanumeric_sort::compare_str`: an ordering of the two strings
/// that depends on the strings alone.
#[verifier::external_body]
fn compare_alphanumeric(a: &str, b: &str) -> (r: Ordering)
    ensures
        r == alphanumeric_order(a@, b@),
{
    alphanumeric_sort::compare_str(a, b)
}

/// Lexicographic order by characters, from index `i` on.
pub open spec fn char_order_from(a: Seq<char>, b: Seq<char>, i: int) -> Ordering
    decreases a.len() - i,
{
    if i < 0 || i >= a.len() {
        if i >= 0 && i < b.len() {
            Ordering::Less
        } else {
            Ordering::Equal
        }
    } else if i >= b.len() {
        Ordering::Greater
    } else if a[i] < b[i] {
        Ordering::Less
    } else if a[i] > b[i] {
        Ordering::Greater
    } else {
        char_order_from(a, b, i + 1)
    }
}

/// Lexicographic order by characters: the order of `str` on UTF-8 text.
pub open spec fn char_order(a: Seq<char>, b: Seq<char>) -> Ordering {
    char_order_from(a, b, 0)
}

/// Compares two strings character by character.
pub fn compare_chars(a: &str, b: &str) -> (r: Ordering)
    ensures
        r == char_order(a@, b@),
{
    let n = a.unicode_len();
    let m = b.unicode_len();
    let mut i: usize = 0;
    while i < n && i < m && a.get_char(i) == b.get_char(i)
        invariant
            n == a@.len(),
            m == b@.len(),
            i <= n,
            i <= m,
            char_order(a@, b@) == char_order_from(a@, b@, i as int),
        decreases n - i,
    {
        i = i + 1;
    }
    if i == n {
        if i < m {
            Ordering::Less
        } else {
            Ordering::Equal
        }
    } else if i == m {
        Ordering::Greater
    } else if a.get_char(i) < b.get_char(i) {
        Ordering::Less
    } else {
        Ordering::Greater
    }
}

/// The order of two keys: alphanumeric, or character by character.
pub open spec fn key_order(a: Seq<char>, b: Seq<char>, alphanumeric: bool) -> Ordering {
    if alphanumeric {
        alphanumeric_order(a, b)
    } else {
        char_order(a, b)
    }
}

pub fn compare_keys(a: &str, b: &str, alphanumeric: bool) -> (r: Ordering)
    ensures
        r == key_order(a@, b@, alphanumeric),
{
    if alphanumeric {
        compare_alphanumeric(a, b)
    } else {
        compare_chars(a, b)
    }
}

fn is_greater(o: Ordering) -> (r: bool)
    ensures
        r == (o == Ordering::Greater),
{
    match o {
        Ordering::Greater => true,
        _ => false,
    }
}

/// Inserts position `x` after the positions, counted from the end, whose key
/// does not order after the key at `x`.
pub open spec fn insert_position(keys: Seq<Seq<char>>, alphanumeric: bool, s: Seq<usize>, x: usize) -> Seq<
    usize,
>
    decreases s.len(),
{
    if s.len() == 0 || key_order(keys[s.last() as int], keys[x as int], alphanumeric) != Ordering::Greater {
        s.push(x)
    } else {
        insert_position(keys, alphanumeric, s.drop_last(), x).push(s.last())
    }
}

/// The positions `0..n` in the order of a stable insertion sort on their keys.
pub open spec fn sorted_positions(keys: Seq<Seq<char>>, alphanumeric: bool, n: nat) -> Seq<usize>
    decreases n,
{
    if n == 0 {
        Seq::empty()
    } else {
        insert_position(keys, alphanumeric, sorted_positions(keys, alphanumeric, (n - 1) as nat), (n - 1) as usize)
    }
}

proof fn lemma_insert_position(keys: Seq<Seq<char>>, alphanumeric: bool, s: Seq<usize>, x: usize, j: int)
    requires
        0 <= j <= s.len(),
        forall|k: int|
            j <= k < s.len() ==> key_order(keys[(#[trigger] s[k]) as int], keys[x as int], alphanumeric)
                == Ordering::Greater,
        j == 0 || key_order(keys[s[j - 1] as int], keys[x as int], alphanumeric) != Ordering::Greater,
    ensures
        insert_position(keys, alphanumeric, s, x) == s.insert(j, x),
    decreases s.len(),
{
    if s.len() == 0 || key_order(keys[s.last() as int], keys[x as int], alphanumeric) != Ordering::Greater {
        assert(s.push(x) =~= s.insert(j, x));
    } else {
        lemma_insert_position(keys, alphanumeric, s.drop_last(), x, j);
        assert(s.drop_last().insert(j, x).push(s.last()) =~= s.insert(j, x));
    }
}

/// The positions of the keys in sorted order; keys that compare equal keep
/// their order.
pub fn sort_order(keys: &Vec<String>, alphanumeric: bool) -> (r: Vec<usize>)
    ensures
        r@ == sorted_positions(views(keys@), alphanumeric, keys.len() as nat),
        forall|i: int| 0 <= i < r@.len() ==> #[trigger] r@[i] < keys.len(),
        r@.len() == keys.len(),
{
    let mut out: Vec<usize> = Vec::new();
    let mut i: usize = 0;
    while i < keys.len()
        invariant
            i <= keys.len(),
            out@ == sorted_positions(views(keys@), alphanumeric, i as nat),
            out@.len() == i,
            forall|k: int| 0 <= k < out@.len() ==> #[trigger] out@[k] < i,
        decreases keys.len() - i,
    {
        let mut j = out.len();
        while j > 0 && is_greater(
            compare_keys(keys[out[j - 1]].as_str(), keys[i].as_str(), alphanumeric),
        )
            invariant
                j <= out.len(),
                i < keys.len(),
                forall|k: int| 0 <= k < out@.len() ==> #[trigger] out@[k] < i,
                forall|k: int|
                    j <= k < out@.len() ==> key_order(
                        views(keys@)[(#[trigger] out@[k]) as int],
                        views(keys@)[i as int],
                        alphanumeric,
                    ) == Ordering::Greater,
            decreases j,
        {
            proof {
                assert(views(keys@)[out@[j - 1] as int] == keys@[out@[j - 1] as int]@);
                assert(views(keys@)[i as int] == keys@[i as int]@);
            }
            j = j - 1;
        }
        proof {
            if j > 0 {
                assert(views(keys@)[out@[j - 1] as int] == keys@[out@[j - 1] as int]@);
                assert(views(keys@)[i as int] == keys@[i as int]@);
            }
            lemma_insert_position(views(keys@), alphanumeric, out@, i, j as int);
        }
        out.insert(j, i);
        i = i + 1;
    }
    out
}

/// The contents of the selections in the order given by `order`, or in the
/// reverse of that order.
pub fn sorted_contents(selections: &Vec<SelectionWithDesc>, order: &Vec<usize>, reverse: bool) -> (r: Vec<String>)
    requires
        forall|i: int| 0 <= i < order@.len() ==> #[trigger] order@[i] < selections.len(),
    ensures
        r@.len() == order@.len(),
        forall|i: int|
            0 <= i < order@.len() ==> (#[trigger] r@[i]) == selections@[order@[if reverse {
                order@.len() - 1 - i
            } else {
                i
            }] as int].content,
{
    let n = order.len();
    let mut out: Vec<String> = Vec::new();
    let mut i: usize = 0;
    while i < n
        invariant
            n == order@.len(),
            forall|k: int| 0 <= k < order@.len() ==> #[trigger] order@[k] < selections.len(),
            i <= n,
            out@.len() == i,
            forall|k: int|
                0 <= k < i ==> (#[trigger] out@[k]) == selections@[order@[if reverse {
                    n - 1 - k
                } else {
                    k
                }] as int].content,
        decreases n - i,
    {
        let at = if reverse {
            n - 1 - i
        } else {
            i
        };
        out.push(selections[order[at]].content.clone());
        i = i + 1;
    }
    out
}

} // verus!
