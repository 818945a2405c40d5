//! Registration of application endpoints under program-derived addresses.
//!
//! An owner identity is mapped to a storage address by hashing a namespace tag,
//! the identity and a one-byte disambiguator under a program identity. The
//! registration handler validates a caller-supplied target against that
//! derivation and creates the owner's record exactly once.

pub mod derive;
pub mod error;
pub mod identity;
pub mod record;
pub mod register;
pub mod storage;
