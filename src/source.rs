use vstd::prelude::*;
use crate::error::Error;

verus! {

/// A bit source: the minimal capability from which every sampling operation is built.
///
/// A source is modelled as a deterministic state machine. For each operation the
/// output and the state that follows are spec functions of the current state, so
/// two sources in equal states produce equal outputs for equal operations.
pub trait RngCore: Sized {
    /// The word that `next_u32` yields in this state.
    spec fn peek_u32(&self) -> u32;

    /// The state after `next_u32`.
    spec fn after_u32(&self) -> Self;

    /// The word that `next_u64` yields in this state.
    spec fn peek_u64(&self) -> u64;

    /// The state after `next_u64`.
    spec fn after_u64(&self) -> Self;

    /// The bytes that filling a buffer of length `n` writes in this state.
    spec fn peek_bytes(&self, n: nat) -> Seq<u8>;

    /// The state after filling a buffer of length `n`.
    spec fn after_bytes(&self, n: nat) -> Self;

    /// Whether a fallible fill of length `n` fails in this state.
    spec fn fill_fails(&self, n: nat) -> bool;

    /// The error that a failing fallible fill of length `n` reports in this state.
    spec fn fill_error(&self, n: nat) -> Error;

    /// A fill writes exactly as many bytes as the buffer holds, and filling an
    /// empty buffer draws nothing from the source.
    proof fn lemma_fill_shape(&self, n: nat)
        ensures
            self.peek_bytes(n).len() == n,
            n == 0 ==> self.after_bytes(n) == *self,
    ;

    /// Yields the next 32-bit word.
    fn next_u32(&mut self) -> (r: u32)
        ensures
            r == old(self).peek_u32(),
            *final(self) == old(self).after_u32(),
    ;

    /// Yields the next 64-bit word.
    fn next_u64(&mut self) -> (r: u64)
        ensures
            r == old(self).peek_u64(),
            *final(self) == old(self).after_u64(),
    ;

    /// Fills `dest` with random bytes.
    fn fill_bytes(&mut self, dest: &mut [u8])
        ensures
            final(dest)@ == old(self).peek_bytes(old(dest)@.len()),
            *final(self) == old(self).after_bytes(old(dest)@.len()),
    ;

    /// Fills `dest` with random bytes, or reports why it could not. It fails
    /// exactly when `fill_fails` says so, with `fill_error`; on success it writes
    /// and draws what `fill_bytes` would.
    fn try_fill_bytes(&mut self, dest: &mut [u8]) -> (r: Result<(), Error>)
        ensures
            final(dest)@.len() == old(dest)@.len(),
            r is Ok == !old(self).fill_fails(old(dest)@.len()),
            r is Err ==> r == Err::<(), Error>(old(self).fill_error(old(dest)@.len())),
            r is Ok ==> final(dest)@ == old(self).peek_bytes(old(dest)@.len()),
            r is Ok ==> *final(self) == old(self).after_bytes(old(dest)@.len()),
    ;
}

} // verus!
