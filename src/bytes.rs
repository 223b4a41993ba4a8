//! Copying between byte buffers.
use vstd::prelude::*;

verus! {

/// `buf` with the bytes from `at` on replaced by `src`, the rest kept.
pub open spec fn overwritten(buf: Seq<u8>, at: int, src: Seq<u8>) -> Seq<u8> {
    buf.subrange(0, at) + src + buf.subrange(at + src.len(), buf.len() as int)
}

/// Writes `src` into `out` starting at index `at`.
pub(crate) fn copy_into(out: &mut [u8], at: usize, src: &[u8])
    requires
        at + src@.len() <= old(out)@.len(),
    ensures
        final(out)@ == overwritten(old(out)@, at as int, src@),
{
    let n = src.len();
    assert(out@.len() == out.len());
    let mut i: usize = 0;
    while i < n
        invariant
            n == src@.len(),
            i <= n,
            at + n <= out@.len(),
            out@.len() <= usize::MAX,
            out@.len() == old(out)@.len(),
            forall|j: int| 0 <= j < at ==> out@[j] == old(out)@[j],
            forall|j: int| at <= j < at + i ==> out@[j] == src@[j - at],
            forall|j: int| at + n <= j < out@.len() ==> out@[j] == old(out)@[j],
        decreases n - i,
    {
        out[at + i] = src[i];
        i = i + 1;
    }
    assert(out@ =~= overwritten(old(out)@, at as int, src@));
}

/// `a` followed by `b`, in a new vector.
pub(crate) fn concat(a: &[u8], b: &[u8]) -> (r: Vec<u8>)
    ensures
        r@ == a@ + b@,
{
    let mut r: Vec<u8> = Vec::new();
    let mut i: usize = 0;
    while i < a.len()
        invariant
            i <= a@.len(),
            r@ == a@.subrange(0, i as int),
        decreases a@.len() - i,
    {
        r.push(a[i]);
        i = i + 1;
        assert(r@ =~= a@.subrange(0, i as int));
    }
    let mut j: usize = 0;
    while j < b.len()
        invariant
            j <= b@.len(),
            r@ == a@ + b@.subrange(0, j as int),
        decreases b@.len() - j,
    {
        r.push(b[j]);
        j = j + 1;
        assert(r@ =~= a@ + b@.subrange(0, j as int));
    }
    assert(a@ =~= a@.subrange(0, a@.len() as int));
    assert(b@ =~= b@.subrange(0, b@.len() as int));
    r
}

/// The bytes of `src` from `at` to `at + 32`.
pub(crate) fn take32(src: &[u8], at: usize) -> (r: [u8; 32])
    requires
        at + 32 <= src@.len(),
    ensures
        r@ == src@.subrange(at as int, at + 32),
{
    let mut r = [0u8; 32];
    assert(src@.len() == src.len());
    let mut i: usize = 0;
    while i < 32
        invariant
            i <= 32,
            at + 32 <= src@.len(),
            src@.len() <= usize::MAX,
            r@.len() == 32,
            forall|j: int| 0 <= j < i ==> r@[j] == src@[at + j],
        decreases 32 - i,
    {
        r[i] = src[at + i];
        i = i + 1;
    }
    assert(r@ =~= src@.subrange(at as int, at + 32));
    r
}

} // verus!
