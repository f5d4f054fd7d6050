//! Salt handling and memoised digest recomputation for an interactive bcrypt
//! front end.
//!
//! The crate is made of a hex codec ([`hex`]), the interpretation of a
//! user-entered salt ([`salt`]), the bindings to the bcrypt primitive
//! ([`digest`]) and to the system's random bytes ([`entropy`]), and the engine
//! that decides when a digest has to be computed anew ([`engine`]).

pub mod digest;
pub mod engine;
pub mod entropy;
pub mod hex;
pub mod salt;
pub mod throwing;

pub use digest::{bcrypt_hash, HashError};
pub use engine::{BcryptorState, BcryptorStateInput, DigestError};
pub use entropy::EntropyUnavailable;
pub use hex::{dehex_fixed_size, hex, DecodeError};
pub use salt::{compute_salt, SaltError};
pub use throwing::{throwing_function, MyErrorType};
