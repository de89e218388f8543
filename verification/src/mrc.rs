//! The change marks of shared mutable values.

use vstd::prelude::*;

verus! {

/// The mark that follows `nonce`: one more, wrapping around. Each mutable borrow of a shared
/// value takes a new mark, so that a copy taken before it no longer compares equal.
pub fn next_nonce(nonce: u32) -> (next: u32)
    ensures
        next == (nonce + 1) % 0x1_0000_0000,
{
    nonce.wrapping_add(1)
}

} // verus!
