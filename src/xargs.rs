use vstd::prelude::*;
use crate::set::views;
use vstd::utf8::encode_utf8;

verus! {

/// The UTF-8 bytes of each text, each followed by a null byte.
pub open spec fn framed(texts: Seq<Seq<char>>) -> Seq<u8>
    decreases texts.len(),
{
    if texts.len() == 0 {
        Seq::empty()
    } else {
        framed(texts.drop_last()) + encode_utf8(texts.last()) + seq![0u8]
    }
}

/// Writes the selections as null-terminated UTF-8 records.
pub fn frame_records(contents: &Vec<String>) -> (r: Vec<u8>)
    ensures
        r@ == framed(views(contents@)),
{
    let mut out: Vec<u8> = Vec::new();
    let mut k: usize = 0;
    while k < contents.len()
        invariant
            k <= contents.len(),
            out@ == framed(views(contents@).subrange(0, k as int)),
        decreases contents.len() - k,
    {
        let ghost t = views(contents@).subrange(0, k + 1);
        proof {
            assert(t.drop_last() =~= views(contents@).subrange(0, k as int));
            assert(t.last() == contents@[k as int]@);
        }
        let bytes = contents[k].as_str().as_bytes();
        let ghost before = out@;
        let mut i: usize = 0;
        while i < bytes.len()
            invariant
                i <= bytes@.len(),
                out@ == before + bytes@.subrange(0, i as int),
            decreases bytes@.len() - i,
        {
            out.push(bytes[i]);
            proof {
                assert(out@ =~= before + bytes@.subrange(0, i + 1));
            }
            i = i + 1;
        }
        out.push(0u8);
        proof {
            assert(bytes@.subrange(0, bytes@.len() as int) =~= bytes@);
            assert(out@ =~= framed(t));
        }
        k = k + 1;
    }
    proof {
        assert(views(contents@).subrange(0, contents@.len() as int) =~= views(contents@));
    }
    out
}

/// Index of the first null byte of `b`, or -1.
pub open spec fn first_null(b: Seq<u8>) -> int
    decreases b.len(),
{
    if b.len() == 0 {
        -1
    } else if b[0] == 0 {
        0
    } else {
        let k = first_null(b.drop_first());
        if k < 0 {
            -1
        } else {
            k + 1
        }
    }
}

proof fn lemma_first_null(b: Seq<u8>, i: int)
    requires
        0 <= i <= b.len(),
        forall|j: int| 0 <= j < i ==> b[j] != 0,
        i == b.len() || b[i] == 0,
    ensures
        first_null(b) == (if i == b.len() {
            -1
        } else {
            i
        }),
    decreases b.len(),
{
    if b.len() > 0 && i > 0 {
        lemma_first_null(b.drop_first(), i - 1);
    }
}

/// The records of a null-separated stream: the bytes before each null, and
/// the bytes after the last null where there are any.
pub open spec fn records(b: Seq<u8>) -> Seq<Seq<u8>>
    decreases b.len(),
{
    if b.len() == 0 {
        Seq::empty()
    } else {
        let i = first_null(b);
        if i < 0 || i >= b.len() {
            seq![b]
        } else {
            seq![b.subrange(0, i)] + records(b.subrange(i + 1, b.len() as int))
        }
    }
}

/// Splits a stream of bytes into its null-separated records.
pub fn split_records(bytes: &Vec<u8>) -> (r: Vec<Vec<u8>>)
    ensures
        r@.map_values(|v: Vec<u8>| v@) == records(bytes@),
{
    let n = bytes.len();
    let mut out: Vec<Vec<u8>> = Vec::new();
    let mut start: usize = 0;
    let mut cur: Vec<u8> = Vec::new();
    let mut i: usize = 0;
    proof {
        assert(bytes@.subrange(0, n as int) =~= bytes@);
        assert(out@.map_values(|v: Vec<u8>| v@) + records(bytes@) =~= records(bytes@));
    }
    while i < n
        invariant
            n == bytes@.len(),
            start <= i <= n,
            cur@ == bytes@.subrange(start as int, i as int),
            forall|j: int| start <= j < i ==> bytes@[j] != 0,
            out@.map_values(|v: Vec<u8>| v@) + records(bytes@.subrange(start as int, n as int))
                == records(bytes@),
        decreases n - i,
    {
        if bytes[i] == 0 {
            let ghost rest = bytes@.subrange(start as int, n as int);
            proof {
                lemma_first_null(rest, i - start);
                assert(rest.subrange(0, i - start) =~= cur@);
                assert(rest.subrange(i - start + 1, rest.len() as int) =~= bytes@.subrange(
                    i + 1,
                    n as int,
                ));
            }
            let ghost old_out = out@.map_values(|v: Vec<u8>| v@);
            out.push(cur);
            proof {
                assert(out@.map_values(|v: Vec<u8>| v@) =~= old_out.push(
                    bytes@.subrange(start as int, i as int),
                ));
                assert(old_out.push(bytes@.subrange(start as int, i as int)) + records(
                    bytes@.subrange(i + 1, n as int),
                ) =~= old_out + (seq![bytes@.subrange(start as int, i as int)] + records(
                    bytes@.subrange(i + 1, n as int),
                )));
            }
            cur = Vec::new();
            start = i + 1;
            proof {
                assert(cur@ =~= bytes@.subrange(start as int, start as int));
            }
        } else {
            cur.push(bytes[i]);
            proof {
                assert(cur@ =~= bytes@.subrange(start as int, i + 1));
            }
        }
        i = i + 1;
    }
    let ghost rest = bytes@.subrange(start as int, n as int);
    if start < n {
        proof {
            lemma_first_null(rest, rest.len() as int);
            assert(cur@ =~= rest);
        }
        let ghost old_out = out@.map_values(|v: Vec<u8>| v@);
        out.push(cur);
        proof {
            assert(out@.map_values(|v: Vec<u8>| v@) =~= old_out + seq![rest]);
        }
    } else {
        proof {
            assert(rest.len() == 0);
            assert(out@.map_values(|v: Vec<u8>| v@) + records(rest) =~= out@.map_values(
                |v: Vec<u8>| v@,
            ));
        }
    }
    out
}

} // verus!
