//! Randomness from the operating system, and wiping secrets.

use vstd::prelude::*;

use rand::RngCore;
use zeroize::Zeroize;

verus! {

/// Calls `rand::rngs::OsRng.try_fill_bytes` on the buffer. Trusted only for
/// keeping the buffer's length: its contents are whatever the operating
/// system's generator gave. A generator failure is carried as its message.
#[verifier::external_body]
pub(crate) fn fill_random(buf: &mut Vec<u8>) -> (r: Result<(), String>)
    ensures
        final(buf)@.len() == old(buf)@.len(),
{
    match rand::rngs::OsRng.try_fill_bytes(buf.as_mut_slice()) {
        Ok(()) => Ok(()),
        Err(e) => Err(e.to_string()),
    }
}

/// Calls `zeroize::Zeroize::zeroize` on the buffer's bytes (as a slice, so its
/// length stays). Trusted: every byte is zero afterwards. `zeroize` asserts
/// that the length fits in an `isize`, which the `requires` states.
#[verifier::external_body]
pub(crate) fn wipe(buf: &mut Vec<u8>)
    requires
        old(buf)@.len() <= isize::MAX,
    ensures
        final(buf)@ == Seq::new(old(buf)@.len(), |_i: int| 0u8),
{
    buf.as_mut_slice().zeroize();
}

} // verus!
