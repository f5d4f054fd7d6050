//! The operating system's random number generator.

use vstd::prelude::*;

verus! {

/// `getrandom::Error`, carried through as an opaque value.
#[verifier::external_type_specification]
#[verifier::external_body]
pub struct ExGetrandomError(getrandom::Error);

/// No random bytes could be had, so no salt can be made up.
#[derive(Debug, Clone, Copy, PartialEq, Eq)]
pub struct EntropyUnavailable;

/// Fills sixteen bytes with `getrandom::getrandom`.
///
/// Trusted, and nothing is claimed: whether the call succeeds and which bytes
/// it gives differ from call to call.
#[verifier::external_body]
pub(crate) fn random_salt() -> (res: Result<[u8; 16], getrandom::Error>) {
    let mut salt = [0u8; 16];
    match getrandom::getrandom(&mut salt) {
        Ok(()) => Ok(salt),
        Err(e) => Err(e),
    }
}

} // verus!
