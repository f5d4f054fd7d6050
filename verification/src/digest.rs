//! The bcrypt primitive, as far as this crate relies on it.
//!
//! The hashing itself is done by the `bcrypt` crate and is not verified here.
//! What is believed of it without proof is written on the bindings of this
//! file, each marked as trusted; everything else is proved from them.

use vstd::prelude::*;

verus! {

/// Lowest cost that bcrypt accepts.
pub const MIN_COST: u32 = 4;

/// Highest cost that bcrypt accepts.
pub const MAX_COST: u32 = 31;

/// The cost lies in the range that bcrypt accepts.
pub open spec fn cost_allowed(cost: u32) -> bool {
    MIN_COST <= cost <= MAX_COST
}

/// The digest string (version `2b`) that bcrypt computes for a password, an
/// allowed cost and a sixteen-byte salt. It stands for the text that
/// `bcrypt::hash_with_salt` gives once its result is formatted; nothing is
/// said here of what that text is.
pub uninterp spec fn bcrypt_digest(password: Seq<char>, cost: u32, salt: Seq<u8>) -> Seq<char>;

/// `bcrypt::BcryptError`, carried through as an opaque value.
#[verifier::external_type_specification]
#[verifier::external_body]
pub struct ExBcryptError(bcrypt::BcryptError);

/// The hashing primitive refused its input.
#[derive(Debug)]
pub struct HashError {
    /// What the primitive said of the refusal.
    pub message: String,
}

impl Clone for HashError {
    fn clone(&self) -> (out: Self)
        ensures
            out.message@ == self.message@,
    {
        HashError { message: self.message.clone() }
    }
}

/// Calls `bcrypt::hash_with_salt` and formats its result with `to_string`.
///
/// Trusted: the call succeeds exactly for a cost from 4 to 31, whatever the
/// password and the salt are, and its text depends on nothing but the three
/// arguments.
#[verifier::external_body]
pub(crate) fn hash_with_salt(password: &str, cost: u32, salt: [u8; 16]) -> (res: Result<
    String,
    bcrypt::BcryptError,
>)
    ensures
        res is Ok <==> cost_allowed(cost),
        res matches Ok(digest) ==> digest@ == bcrypt_digest(password@, cost, salt@),
{
    match bcrypt::hash_with_salt(password, cost, salt) {
        Ok(parts) => Ok(parts.to_string()),
        Err(e) => Err(e),
    }
}

/// Calls `bcrypt::hash`, which draws a fresh random salt on every call.
///
/// Trusted: a cost outside 4 to 31 is refused, and a digest that comes back is
/// the one that `bcrypt::hash_with_salt` gives for the salt that was drawn.
/// Whether a salt can be drawn is not known before the call.
#[verifier::external_body]
pub(crate) fn hash_with_random_salt(password: &str, cost: u32) -> (res: Result<
    String,
    bcrypt::BcryptError,
>)
    ensures
        res is Ok ==> cost_allowed(cost),
        res matches Ok(digest) ==> exists|salt: Seq<u8>|
            salt.len() == 16 && digest@ == #[trigger] bcrypt_digest(password@, cost, salt),
{
    bcrypt::hash(password, cost)
}

/// The text that a `bcrypt::BcryptError` displays, had by `to_string`.
///
/// Trusted, and nothing is claimed of the text.
#[verifier::external_body]
pub(crate) fn error_text(error: &bcrypt::BcryptError) -> (text: String) {
    error.to_string()
}

/// Turns what the primitive gave back into this crate's terms: a digest is
/// passed on as it is, a refusal keeps only its message.
pub fn digest_or_error(outcome: Result<String, bcrypt::BcryptError>) -> (res: Result<
    String,
    HashError,
>)
    ensures
        outcome matches Ok(digest) ==> res == Ok::<String, HashError>(digest),
        outcome is Err ==> res is Err,
{
    match outcome {
        Ok(digest) => Ok(digest),
        Err(error) => Err(HashError { message: error_text(&error) }),
    }
}

/// Hashes `password` at `cost` with a salt drawn at random.
///
/// The cost is reinterpreted as unsigned, so a negative cost is out of range
/// like one above 31. A digest is promised for no input, since drawing the salt
/// may fail; one that is returned belongs to the password, the cost and some
/// sixteen-byte salt.
pub fn bcrypt_hash(password: &str, cost: i32) -> (res: Result<String, HashError>)
    ensures
        res is Ok ==> MIN_COST <= cost <= MAX_COST,
        res matches Ok(digest) ==> exists|salt: Seq<u8>|
            salt.len() == 16 && digest@ == #[trigger] bcrypt_digest(password@, cost as u32, salt),
{
    let unsigned: u32 = cost as u32;
    assert(cost < 0 ==> unsigned > 31) by (bit_vector)
        requires
            unsigned == cost as u32,
    ;
    digest_or_error(hash_with_random_salt(password, unsigned))
}

} // verus!
