use vstd::prelude::*;

verus! {

/// Calls `rand::random::<u8>()`: a byte from the thread-local generator.
///
/// Nothing is stated of the byte, since it depends on chance. The call panics
/// if the operating system cannot seed the thread-local generator; that has
/// no input to exclude and is left unsaid here.
#[verifier::external_body]
pub(crate) fn random_byte() -> u8 {
    rand::random::<u8>()
}

} // verus!
