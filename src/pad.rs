use vstd::prelude::*;
use crate::errors::KakError;
use crate::set::views;
use crate::utils::{newline_parts, split_newlines};
use vstd::utf8::encode_utf8;

verus! {

/// `fill` written `n` times.
pub open spec fn repeated(fill: Seq<char>, n: nat) -> Seq<char>
    decreases n,
{
    if n == 0 {
        Seq::empty()
    } else {
        repeated(fill, (n - 1) as nat) + fill
    }
}

fn repeat(fill: &str, n: usize) -> (r: String)
    ensures
        r@ == repeated(fill@, n as nat),
{
    let mut out = String::new();
    let mut i: usize = 0;
    while i < n
        invariant
            i <= n,
            out@ == repeated(fill@, i as nat),
        decreases n - i,
    {
        out.append(fill);
        i = i + 1;
    }
    out
}

/// Pads one selection: `fill` is written `width` times before the text between
/// its leading and trailing newlines, or after it with `right`.
pub open spec fn padded(lead: Seq<char>, mid: Seq<char>, trail: Seq<char>, fill: Seq<char>, width: nat, right: bool) -> Seq<
    char,
> {
    if right {
        lead + mid + repeated(fill, width) + trail
    } else {
        lead + repeated(fill, width) + mid + trail
    }
}

/// The length in UTF-8 bytes of the text between a string's leading and
/// trailing newlines, as `str::len` gives it.
pub open spec fn mid_len(s: Seq<char>) -> nat {
    (encode_utf8(newline_parts(s).1).len() as usize) as nat
}

/// The largest `mid_len` of the strings; 0 for none.
pub open spec fn max_mid(sels: Seq<Seq<char>>) -> nat
    decreases sels.len(),
{
    if sels.len() == 0 {
        0
    } else {
        let prev = max_mid(sels.drop_last());
        if mid_len(sels.last()) > prev {
            mid_len(sels.last())
        } else {
            prev
        }
    }
}

/// A selection padded to `width` bytes; one as wide or wider is kept as is.
pub open spec fn pad_to(s: Seq<char>, fill: Seq<char>, width: nat, right: bool) -> Seq<char> {
    let (lead, mid, trail) = newline_parts(s);
    if mid_len(s) >= width {
        s
    } else {
        padded(lead, mid, trail, fill, (width - mid_len(s)) as nat, right)
    }
}

/// How many of the strings are narrower than `width`.
pub open spec fn count_narrower(sels: Seq<Seq<char>>, width: nat) -> nat
    decreases sels.len(),
{
    if sels.len() == 0 {
        0
    } else {
        count_narrower(sels.drop_last(), width) + if mid_len(sels.last()) < width {
            1nat
        } else {
            0nat
        }
    }
}

/// Pads every selection to the byte length of the longest, not counting
/// leading and trailing newlines. Returns the new contents and how many
/// selections were padded.
pub fn pad(selections: &Vec<String>, fill: &str, right: bool) -> (r: Result<(Vec<String>, usize), KakError>)
    ensures
        r is Err <==> selections.len() == 0,
        match r {
            Ok((v, count)) => {
                &&& v@.len() == selections.len()
                &&& forall|i: int|
                    0 <= i < selections.len() ==> (#[trigger] v@[i])@ == pad_to(
                        selections@[i]@,
                        fill@,
                        max_mid(views(selections@)),
                        right,
                    )
                &&& count == count_narrower(views(selections@), max_mid(views(selections@)))
            },
            Err(e) => e is CustomStatic,
        },
{
    let n = selections.len();
    if n == 0 {
        return Err(KakError::CustomStatic("No selections"));
    }
    let mut max_len: usize = 0;
    let mut i: usize = 0;
    while i < n
        invariant
            n == selections.len(),
            i <= n,
            max_len == max_mid(views(selections@).subrange(0, i as int)),
        decreases n - i,
    {
        let ghost t = views(selections@).subrange(0, i + 1);
        proof {
            assert(t.drop_last() =~= views(selections@).subrange(0, i as int));
            assert(t.last() == selections@[i as int]@);
        }
        let (_, mid, _) = split_newlines(selections[i].as_str());
        if mid.len() > max_len {
            max_len = mid.len();
        }
        i = i + 1;
    }
    proof {
        assert(views(selections@).subrange(0, n as int) =~= views(selections@));
    }
    let mut out: Vec<String> = Vec::new();
    let mut count: usize = 0;
    let mut k: usize = 0;
    while k < n
        invariant
            n == selections.len(),
            k <= n,
            max_len == max_mid(views(selections@)),
            out@.len() == k,
            count == count_narrower(views(selections@).subrange(0, k as int), max_len as nat),
            count <= k,
            forall|i: int|
                0 <= i < k ==> (#[trigger] out@[i])@ == pad_to(selections@[i]@, fill@, max_len as nat, right),
        decreases n - k,
    {
        let ghost t = views(selections@).subrange(0, k + 1);
        proof {
            assert(t.drop_last() =~= views(selections@).subrange(0, k as int));
            assert(t.last() == selections@[k as int]@);
        }
        let s = selections[k].as_str();
        let (lead, mid, trail) = split_newlines(s);
        let len = mid.len();
        if len >= max_len {
            out.push(String::from_str(s));
        } else {
            let fill_text = repeat(fill, max_len - len);
            let mut t = String::from_str(lead);
            if right {
                t.append(mid);
                t.append(fill_text.as_str());
            } else {
                t.append(fill_text.as_str());
                t.append(mid);
            }
            t.append(trail);
            out.push(t);
            count = count + 1;
        }
        k = k + 1;
    }
    proof {
        assert(views(selections@).subrange(0, n as int) =~= views(selections@));
    }
    Ok((out, count))
}

} // verus!
