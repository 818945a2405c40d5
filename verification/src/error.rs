//! The ways in which a derivation or a registration fails.

use vstd::prelude::*;

verus! {

/// A failed derivation or registration. No failure changes any stored state.
#[derive(Clone, Copy, Debug, PartialEq, Eq, Structural)]
pub enum RegistryError {
    /// No disambiguator yields a valid address.
    DerivationExhausted,
    /// The target supplied by the caller is not the derived one.
    AddressMismatch,
    /// The target slot already holds a record.
    AlreadyRegistered,
    /// The caller is not authenticated as the owner identity.
    AuthorityMissing,
}

} // verus!
