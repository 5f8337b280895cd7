use vstd::prelude::*;

verus! {

/// Extends `v` with zero bytes up to length `n`.
pub(crate) fn zero_extend(v: &mut Vec<u8>, n: usize)
    requires
        old(v)@.len() <= n,
    ensures
        final(v)@ == old(v)@ + Seq::new((n - old(v)@.len()) as nat, |i: int| 0u8),
{
    let ghost before = v@;
    while v.len() < n
        invariant
            before.len() <= v@.len() <= n,
            v@ == before + Seq::new((v@.len() - before.len()) as nat, |i: int| 0u8),
        decreases n - v@.len(),
    {
        v.push(0u8);
        assert(v@ =~= before + Seq::new((v@.len() - before.len()) as nat, |i: int| 0u8));
    }
}

/// Overwrites the bytes of `v` from `at` on with `data`.
pub(crate) fn copy_into(v: &mut Vec<u8>, at: usize, data: &[u8])
    requires
        at + data@.len() <= old(v)@.len(),
    ensures
        final(v)@ == old(v)@.subrange(0, at as int) + data@ + old(v)@.subrange(
            at + data@.len(),
            old(v)@.len() as int,
        ),
{
    let n = v.len();
    let mut k: usize = 0;
    while k < data.len()
        invariant
            k <= data@.len(),
            at + data@.len() <= n,
            n == old(v)@.len(),
            v@.len() == old(v)@.len(),
            forall|j: int| 0 <= j < at ==> v@[j] == old(v)@[j],
            forall|j: int| at + data@.len() <= j < old(v)@.len() ==> v@[j] == old(v)@[j],
            forall|j: int| 0 <= j < k ==> v@[at + j] == data@[j],
        decreases data@.len() - k,
    {
        v.set(at + k, data[k]);
        k = k + 1;
    }
    assert(v@ =~= old(v)@.subrange(0, at as int) + data@ + old(v)@.subrange(
        at + data@.len(),
        old(v)@.len() as int,
    ));
}

/// The `len` bytes of `v` from `at` on.
pub(crate) fn copy_out(v: &Vec<u8>, at: usize, len: usize) -> (r: Vec<u8>)
    requires
        at + len <= v@.len(),
    ensures
        r@ == v@.subrange(at as int, at + len),
{
    let n = v.len();
    let mut out: Vec<u8> = Vec::new();
    let mut k: usize = 0;
    while k < len
        invariant
            k <= len,
            at + len <= n,
            n == v@.len(),
            out@ == v@.subrange(at as int, at + k),
        decreases len - k,
    {
        out.push(v[at + k]);
        k = k + 1;
        assert(out@ =~= v@.subrange(at as int, at + k));
    }
    out
}

} // verus!
