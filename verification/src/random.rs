//! Bytes that nobody can guess, from the system.

use vstd::prelude::*;

verus! {

/// Calls `getrandom::fill`, which overwrites the buffer with random bytes or
/// fails. What bytes they are is up to the system.
#[verifier::external_body]
pub(crate) fn fill_random(buf: &mut Vec<u8>) -> (r: bool)
    ensures
        final(buf)@.len() == old(buf)@.len(),
{
    getrandom::fill(buf.as_mut_slice()).is_ok()
}

/// A buffer of `n` zeros.
pub(crate) fn zeros(n: usize) -> (r: Vec<u8>)
    ensures
        r@ == Seq::new(n as nat, |i: int| 0u8),
{
    let mut bytes: Vec<u8> = Vec::new();
    while bytes.len() < n
        invariant
            bytes@.len() <= n,
            forall|i: int| 0 <= i < bytes@.len() ==> bytes@[i] == 0,
        decreases n - bytes.len(),
    {
        bytes.push(0);
    }
    assert(bytes@ =~= Seq::new(n as nat, |i: int| 0u8));
    bytes
}

} // verus!
