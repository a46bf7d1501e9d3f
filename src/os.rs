use vstd::prelude::*;

verus! {

/// Relies on rand_core's `OsRng::try_fill_bytes` (operating-system entropy through
/// getrandom): it fills the whole buffer, or reports the OS failure, given here
/// as its OS error code (`Error::raw_os_error`) when it has one.
#[verifier::external_body]
pub(crate) fn os_try_fill_bytes(dest: &mut [u8]) -> (r: Result<(), Option<i32>>)
    ensures
        final(dest)@.len() == old(dest)@.len(),
{
    rand_core::RngCore::try_fill_bytes(&mut rand_core::OsRng, dest).map_err(|e| e.raw_os_error())
}

} // verus!
