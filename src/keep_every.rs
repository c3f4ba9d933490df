use vstd::prelude::*;

verus! {

/// The items whose index is a multiple of `n`: the first of each run of `n`.
pub open spec fn every_nth<T>(s: Seq<T>, n: nat) -> Seq<T>
    decreases s.len(),
{
    if s.len() == 0 {
        s
    } else {
        every_nth(s.drop_last(), n) + if (s.len() - 1) % (n as int) == 0 {
            seq![s.last()]
        } else {
            Seq::empty()
        }
    }
}

/// Splits the list into consecutive chunks of `n` and keeps the first item
/// of each chunk.
pub fn keep_every<T: Copy>(items: &Vec<T>, n: usize) -> (r: Vec<T>)
    requires
        n >= 2,
    ensures
        r@ == every_nth(items@, n as nat),
{
    let mut out: Vec<T> = Vec::new();
    let mut k: usize = 0;
    let mut phase: usize = 0;
    while k < items.len()
        invariant
            n >= 2,
            k <= items.len(),
            phase < n,
            phase == k % n,
            out@ == every_nth(items@.subrange(0, k as int), n as nat),
        decreases items.len() - k,
    {
        proof {
            let t = items@.subrange(0, k + 1);
            assert(t.drop_last() =~= items@.subrange(0, k as int));
            assert(t.last() == items@[k as int]);
        }
        if phase == 0 {
            out.push(items[k]);
            proof {
                assert(out@ =~= every_nth(items@.subrange(0, k as int), n as nat) + seq![items@[k as int]]);
            }
        } else {
            proof {
                assert(out@ =~= every_nth(items@.subrange(0, k as int), n as nat) + Seq::<T>::empty());
            }
        }
        proof {
            assert((k + 1) % (n as int) == (if phase + 1 == n { 0 } else { phase + 1 }) as int) by (nonlinear_arith)
                requires
                    phase as int == (k as int) % (n as int),
                    phase < n,
                    n >= 2,
            ;
        }
        phase = if phase + 1 == n {
            0
        } else {
            phase + 1
        };
        k = k + 1;
    }
    proof {
        assert(items@.subrange(0, items@.len() as int) =~= items@);
    }
    out
}

} // verus!
