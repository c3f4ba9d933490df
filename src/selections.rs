use vstd::prelude::*;
use vstd::seq_lib::group_to_multiset_ensures;
use crate::errors::KakError;
use crate::set::views;
use crate::text::decimal;
use crate::types::{desc_value, SelectionDesc, SelectionWithDesc};

verus! {

broadcast use group_to_multiset_ensures;

/// Each selection comes at or before the next in document order.
pub open spec fn descs_ordered(s: Seq<SelectionDesc>) -> bool {
    forall|a: int, b: int| 0 <= a < b < s.len() ==> (#[trigger] s[a]).desc_le(#[trigger] s[b])
}

/// The selections, each with its range sorted, come in document order.
pub open spec fn by_sorted_desc(s: Seq<SelectionWithDesc>) -> bool {
    forall|a: int, b: int|
        0 <= a < b < s.len() ==> (#[trigger] s[a]).desc.sorted().desc_le((#[trigger] s[b]).desc.sorted())
}

/// `x` placed after every element that comes at or before it, counting from
/// the end: the insertion step of a stable insertion sort.
pub open spec fn insert_desc(s: Seq<SelectionDesc>, x: SelectionDesc) -> Seq<SelectionDesc>
    decreases s.len(),
{
    if s.len() == 0 || s.last().desc_le(x) {
        s.push(x)
    } else {
        insert_desc(s.drop_last(), x).push(s.last())
    }
}

/// The ranges of `s` in document order; equal ranges keep their order.
pub open spec fn sorted_descs(s: Seq<SelectionDesc>) -> Seq<SelectionDesc>
    decreases s.len(),
{
    if s.len() == 0 {
        s
    } else {
        insert_desc(sorted_descs(s.drop_last()), s.last())
    }
}

proof fn lemma_insert_desc(s: Seq<SelectionDesc>, x: SelectionDesc, j: int)
    requires
        0 <= j <= s.len(),
        forall|k: int| j <= k < s.len() ==> !(#[trigger] s[k]).desc_le(x),
        j == 0 || s[j - 1].desc_le(x),
    ensures
        insert_desc(s, x) == s.insert(j, x),
    decreases s.len(),
{
    if s.len() == 0 {
        assert(s.push(x) =~= s.insert(j, x));
    } else if s.last().desc_le(x) {
        assert(s.push(x) =~= s.insert(j, x));
    } else {
        lemma_insert_desc(s.drop_last(), x, j);
        assert(s.drop_last().insert(j, x).push(s.last()) =~= s.insert(j, x));
    }
}

/// The pairs of `s`, ordered by sorted range, inserted as a stable insertion sort does.
pub open spec fn insert_by_desc(s: Seq<SelectionWithDesc>, x: SelectionWithDesc) -> Seq<SelectionWithDesc>
    decreases s.len(),
{
    if s.len() == 0 || s.last().desc.sorted().desc_le(x.desc.sorted()) {
        s.push(x)
    } else {
        insert_by_desc(s.drop_last(), x).push(s.last())
    }
}

/// The pairs of `s` ordered by sorted range; pairs with equal ranges keep their order.
pub open spec fn sorted_by_desc(s: Seq<SelectionWithDesc>) -> Seq<SelectionWithDesc>
    decreases s.len(),
{
    if s.len() == 0 {
        s
    } else {
        insert_by_desc(sorted_by_desc(s.drop_last()), s.last())
    }
}

proof fn lemma_insert_by_desc(s: Seq<SelectionWithDesc>, x: SelectionWithDesc, j: int)
    requires
        0 <= j <= s.len(),
        forall|k: int| j <= k < s.len() ==> !(#[trigger] s[k]).desc.sorted().desc_le(x.desc.sorted()),
        j == 0 || s[j - 1].desc.sorted().desc_le(x.desc.sorted()),
    ensures
        insert_by_desc(s, x) == s.insert(j, x),
    decreases s.len(),
{
    if s.len() == 0 {
        assert(s.push(x) =~= s.insert(j, x));
    } else if s.last().desc.sorted().desc_le(x.desc.sorted()) {
        assert(s.push(x) =~= s.insert(j, x));
    } else {
        lemma_insert_by_desc(s.drop_last(), x, j);
        assert(s.drop_last().insert(j, x).push(s.last()) =~= s.insert(j, x));
    }
}

/// Sorts selection descriptors into document order.
pub fn sort_descs(v: Vec<SelectionDesc>) -> (r: Vec<SelectionDesc>)
    ensures
        r@ == sorted_descs(v@),
        descs_ordered(r@),
        r@.to_multiset() == v@.to_multiset(),
{
    let mut out: Vec<SelectionDesc> = Vec::new();
    let n = v.len();
    let mut i: usize = 0;
    while i < n
        invariant
            n == v.len(),
            i <= n,
            descs_ordered(out@),
            out@ == sorted_descs(v@.subrange(0, i as int)),
            out@.to_multiset() == v@.subrange(0, i as int).to_multiset(),
        decreases n - i,
    {
        let x = v[i];
        let mut j = out.len();
        while j > 0 && !out[j - 1].at_or_before(&x)
            invariant
                j <= out.len(),
                forall|k: int| j <= k < out.len() ==> !(#[trigger] out@[k]).desc_le(x),
            decreases j,
        {
            j = j - 1;
        }
        proof {
            assert(v@.subrange(0, i + 1) =~= v@.subrange(0, i as int).push(x));
            assert(v@.subrange(0, i + 1).drop_last() =~= v@.subrange(0, i as int));
            lemma_insert_desc(out@, x, j as int);
        }
        out.insert(j, x);
        i = i + 1;
    }
    proof {
        assert(v@.subrange(0, n as int) =~= v@);
    }
    out
}

/// Sorts selections by their sorted ranges, keeping the order of equal ones.
pub fn sort_by_desc(v: Vec<SelectionWithDesc>) -> (r: Vec<SelectionWithDesc>)
    ensures
        r@ == sorted_by_desc(v@),
        by_sorted_desc(r@),
        r@.to_multiset() == v@.to_multiset(),
{
    let mut out: Vec<SelectionWithDesc> = Vec::new();
    let n = v.len();
    let mut i: usize = 0;
    while i < n
        invariant
            n == v.len(),
            i <= n,
            by_sorted_desc(out@),
            out@ == sorted_by_desc(v@.subrange(0, i as int)),
            out@.to_multiset() == v@.subrange(0, i as int).to_multiset(),
        decreases n - i,
    {
        let x = v[i].duplicate();
        let key = x.desc.sort();
        let mut j = out.len();
        while j > 0 && !out[j - 1].desc.sort().at_or_before(&key)
            invariant
                j <= out.len(),
                key == x.desc.sorted(),
                forall|k: int| j <= k < out.len() ==> !(#[trigger] out@[k]).desc.sorted().desc_le(key),
            decreases j,
        {
            j = j - 1;
        }
        proof {
            assert(x == v@[i as int]);
            assert(v@.subrange(0, i + 1) =~= v@.subrange(0, i as int).push(x));
            assert(v@.subrange(0, i + 1).drop_last() =~= v@.subrange(0, i as int));
            lemma_insert_by_desc(out@, x, j as int);
        }
        out.insert(j, x);
        i = i + 1;
    }
    proof {
        assert(v@.subrange(0, n as int) =~= v@);
    }
    out
}

/// `i` holds the first of the selections whose sorted range is smallest:
/// the first selection in document order.
pub open spec fn is_primary_index(descs: Seq<SelectionDesc>, i: int) -> bool {
    &&& 0 <= i < descs.len()
    &&& forall|j: int| 0 <= j < descs.len() ==> descs[i].sorted().desc_le(#[trigger] descs[j].sorted())
    &&& forall|j: int| 0 <= j < i ==> #[trigger] descs[j].sorted() != descs[i].sorted()
}

/// The contents, rotated right by `i`, paired one to one with the ranges.
pub open spec fn paired(contents: Seq<String>, descs: Seq<SelectionDesc>, i: int) -> Seq<SelectionWithDesc> {
    let n = descs.len() as int;
    Seq::new(
        descs.len(),
        |k: int| SelectionWithDesc { content: contents[(k + n - i) % n], desc: descs[k] },
    )
}

/// The reconciled pairing of contents (in document order) with ranges (starting
/// at the primary selection).
pub open spec fn reconciled(contents: Seq<String>, descs: Seq<SelectionDesc>, v: Seq<SelectionWithDesc>) -> bool {
    exists|i: int| is_primary_index(descs, i) && v == paired(contents, descs, i)
}

/// The reconciled pairing is unique: it depends on the contents and ranges alone.
pub proof fn lemma_reconciled_unique(
    contents: Seq<String>,
    descs: Seq<SelectionDesc>,
    v: Seq<SelectionWithDesc>,
    w: Seq<SelectionWithDesc>,
)
    requires
        reconciled(contents, descs, v),
        reconciled(contents, descs, w),
    ensures
        v == w,
{
    let i = choose|i: int| is_primary_index(descs, i) && v == paired(contents, descs, i);
    let j = choose|j: int| is_primary_index(descs, j) && w == paired(contents, descs, j);
    assert(descs[i].sorted().desc_le(descs[j].sorted()));
    assert(descs[j].sorted().desc_le(descs[i].sorted()));
    assert(descs[i].sorted() == descs[j].sorted());
    if i < j {
        assert(descs[i].sorted() != descs[j].sorted());
    } else if j < i {
        assert(descs[j].sorted() != descs[i].sorted());
    }
}

/// Index of the first selection in document order.
fn primary_index(descs: &Vec<SelectionDesc>) -> (i: usize)
    requires
        descs.len() > 0,
    ensures
        is_primary_index(descs@, i as int),
{
    let n = descs.len();
    let mut best: usize = 0;
    let mut best_key = descs[0].sort();
    let mut k: usize = 1;
    while k < n
        invariant
            n == descs.len(),
            1 <= k <= n,
            best < k,
            best_key == descs@[best as int].sorted(),
            forall|j: int| 0 <= j < k ==> best_key.desc_le(#[trigger] descs@[j].sorted()),
            forall|j: int| 0 <= j < best ==> #[trigger] descs@[j].sorted() != best_key,
        decreases n - k,
    {
        let key = descs[k].sort();
        if !best_key.at_or_before(&key) {
            best = k;
            best_key = key;
        }
        k = k + 1;
    }
    best
}

/// Pairs each selection's content with its range.
///
/// The editor lists contents in document order but ranges starting at the
/// primary selection; the contents are rotated so that both lists agree.
pub fn get_selections_with_desc(selections: Vec<String>, selections_desc: Vec<SelectionDesc>) -> (r:
    Result<Vec<SelectionWithDesc>, KakError>)
    ensures
        r is Err <==> (selections.len() != selections_desc.len() || selections_desc.len() == 0),
        match r {
            Ok(v) => reconciled(selections@, selections_desc@, v@),
            Err(e) => e is KakResponse,
        },
{
    if selections.len() != selections_desc.len() {
        let mut msg = String::from_str("When requesting selections (=");
        let a = decimal(selections.len());
        msg.append(a.as_str());
        msg.append(") and selections_desc (=");
        let b = decimal(selections_desc.len());
        msg.append(b.as_str());
        msg.append("), their count did not match");
        return Err(KakError::KakResponse(msg));
    }
    if selections_desc.len() == 0 {
        return Err(
            KakError::KakResponse(
                String::from_str("Selections are empty, which should not be possible"),
            ),
        );
    }
    let n = selections_desc.len();
    let i = primary_index(&selections_desc);
    let ghost target = paired(selections@, selections_desc@, i as int);
    let mut out: Vec<SelectionWithDesc> = Vec::new();
    let mut k: usize = 0;
    while k < n
        invariant
            n == selections_desc.len(),
            n == selections.len(),
            i < n,
            k <= n,
            target == paired(selections@, selections_desc@, i as int),
            out@ == target.subrange(0, k as int),
        decreases n - k,
    {
        let from = if k >= i {
            k - i
        } else {
            k + (n - i)
        };
        proof {
            if k >= i {
                assert((k + n - i) % (n as int) == k - i) by (nonlinear_arith)
                    requires
                        k >= i,
                        k < n,
                        i < n,
                ;
            } else {
                assert((k + n - i) % (n as int) == k + n - i) by (nonlinear_arith)
                    requires
                        k < i,
                        i < n,
                ;
            }
        }
        out.push(
            SelectionWithDesc { content: selections[from].clone(), desc: selections_desc[k] },
        );
        proof {
            assert(out@ =~= target.subrange(0, k + 1));
        }
        k = k + 1;
    }
    proof {
        assert(out@ =~= target);
    }
    Ok(out)
}

/// The reconciled selections, sorted into document order.
pub fn get_selections_with_desc_ordered(
    selections: Vec<String>,
    selections_desc: Vec<SelectionDesc>,
) -> (r: Result<Vec<SelectionWithDesc>, KakError>)
    ensures
        r is Err <==> (selections.len() != selections_desc.len() || selections_desc.len() == 0),
        match r {
            Ok(v) => by_sorted_desc(v@) && exists|w: Seq<SelectionWithDesc>|
                reconciled(selections@, selections_desc@, w) && v@ == sorted_by_desc(w),
            Err(e) => e is KakResponse,
        },
{
    let v = get_selections_with_desc(selections, selections_desc)?;
    Ok(sort_by_desc(v))
}

/// Every string reads as a selection range.
pub open spec fn all_descs(raw: Seq<String>) -> bool {
    forall|k: int| 0 <= k < raw.len() ==> (#[trigger] desc_value(raw[k]@)) is Some
}

/// The ranges that the strings read as.
pub open spec fn descs_of(raw: Seq<String>) -> Seq<SelectionDesc> {
    Seq::new(raw.len(), |k: int| desc_value(raw[k]@)->Some_0)
}

/// Reads each string as a selection range, keeping the order given.
pub fn get_selections_desc_unordered(raw: &Vec<String>) -> (r: Result<Vec<SelectionDesc>, KakError>)
    ensures
        r is Ok <==> all_descs(raw@),
        match r {
            Ok(v) => v@ == descs_of(raw@),
            Err(e) => e is Parse,
        },
{
    let mut out: Vec<SelectionDesc> = Vec::new();
    let mut k: usize = 0;
    while k < raw.len()
        invariant
            k <= raw.len(),
            out@ == descs_of(raw@).subrange(0, k as int),
            forall|j: int| 0 <= j < k ==> (#[trigger] desc_value(raw@[j]@)) is Some,
        decreases raw.len() - k,
    {
        let d = SelectionDesc::from_str(raw[k].as_str())?;
        out.push(d);
        proof {
            assert(out@ =~= descs_of(raw@).subrange(0, k + 1));
        }
        k = k + 1;
    }
    proof {
        assert(out@ =~= descs_of(raw@));
    }
    Ok(out)
}

/// Reads each string as a selection range, sorts each range, and sorts the
/// list into document order.
pub fn get_selections_desc(raw: &Vec<String>) -> (r: Result<Vec<SelectionDesc>, KakError>)
    ensures
        r is Ok <==> all_descs(raw@),
        match r {
            Ok(v) => descs_ordered(v@) && v@ == sorted_descs(
                descs_of(raw@).map_values(|d: SelectionDesc| d.sorted()),
            ),
            Err(e) => e is Parse,
        },
{
    let descs = get_selections_desc_unordered(raw)?;
    let mut sorted_each: Vec<SelectionDesc> = Vec::new();
    let mut k: usize = 0;
    while k < descs.len()
        invariant
            k <= descs.len(),
            sorted_each@ == descs@.map_values(|d: SelectionDesc| d.sorted()).subrange(0, k as int),
        decreases descs.len() - k,
    {
        sorted_each.push(descs[k].sort());
        proof {
            assert(sorted_each@ =~= descs@.map_values(|d: SelectionDesc| d.sorted()).subrange(
                0,
                k + 1,
            ));
        }
        k = k + 1;
    }
    proof {
        assert(sorted_each@ =~= descs@.map_values(|d: SelectionDesc| d.sorted()));
    }
    Ok(sort_descs(sorted_each))
}

/// The words of `s` as a POSIX shell splits them, or `None` where its quoting
/// is unbalanced.
pub uninterp spec fn shell_split(s: Seq<char>) -> Option<Seq<Seq<char>>>;

/// Relies on `shell_words::split`: the words of the text under shell quoting
/// rules, or an error where a quote is not closed. The result depends on the
/// text alone.
#[verifier::external_body]
fn split_words(s: &str) -> (r: Option<Vec<String>>)
    ensures
        match r {
            Some(v) => shell_split(s@) == Some(views(v@)),
            None => shell_split(s@) is None,
        },
{
    shell_words::split(s).ok()
}

/// The selections' contents from the editor's shell-quoted reply.
pub fn get_selections(response: &str) -> (r: Result<Vec<String>, KakError>)
    ensures
        match r {
            Ok(v) => shell_split(response@) == Some(views(v@)),
            Err(e) => shell_split(response@) is None && e is Parse,
        },
{
    match split_words(response) {
        Some(v) => Ok(v),
        None => Err(KakError::Parse(String::from_str("Shell could not be parsed"))),
    }
}

} // verus!
