//! Small operations on byte strings.

use vstd::prelude::*;

verus! {

/// Whether two byte strings are equal, in length and in every byte.
pub fn same_bytes(a: &[u8], b: &[u8]) -> (same: bool)
    ensures
        same == (a@ == b@),
{
    if a.len() != b.len() {
        return false;
    }
    let mut i: usize = 0;
    while i < a.len()
        invariant
            i <= a.len(),
            a.len() == b.len(),
            forall|j: int| 0 <= j < i ==> a@[j] == b@[j],
        decreases a.len() - i,
    {
        if a[i] != b[i] {
            return false;
        }
        i = i + 1;
    }
    assert(a@ =~= b@);
    true
}

/// The first `N` bytes of `source`.
pub fn leading<const N: usize>(source: &[u8]) -> (head: [u8; N])
    requires
        N <= source@.len(),
    ensures
        head@ == source@.take(N as int),
{
    let mut head: [u8; N] = [0u8; N];
    let mut i: usize = 0;
    while i < N
        invariant
            i <= N,
            N <= source@.len(),
            forall|j: int| 0 <= j < i ==> head@[j] == source@[j],
        decreases N - i,
    {
        head[i] = source[i];
        i = i + 1;
    }
    assert(head@ =~= source@.take(N as int));
    head
}

} // verus!
