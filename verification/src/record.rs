//! The registration record: the one entity that is persisted.

use crate::identity::{optional_identity_view, Identity};
use vstd::prelude::*;

verus! {

/// What a caller chooses when registering: an optional delegate.
#[derive(Clone, Copy, Debug, PartialEq, Eq)]
pub struct RegisterParams {
    /// A secondary identity authorized to act on behalf of the owner.
    pub delegate_identity: Option<Identity>,
}

/// The record of one registered application endpoint.
#[derive(Clone, Debug, PartialEq, Eq)]
pub struct RegistrationRecord {
    /// The identity that requested the registration.
    pub owner_identity: Identity,
    /// The identity authorized to act for the owner, if any.
    pub delegate_identity: Option<Identity>,
    /// The disambiguator that produced the record's own address.
    pub address_disambiguator: u8,
    /// The namespace that the record belongs to.
    pub namespace_tag: Vec<u8>,
}

/// A registration record as plain mathematical values.
pub ghost struct RecordView {
    pub owner_identity: Seq<u8>,
    pub delegate_identity: Option<Seq<u8>>,
    pub address_disambiguator: u8,
    pub namespace_tag: Seq<u8>,
}

impl View for RegistrationRecord {
    type V = RecordView;

    open spec fn view(&self) -> RecordView {
        RecordView {
            owner_identity: self.owner_identity@,
            delegate_identity: optional_identity_view(self.delegate_identity),
            address_disambiguator: self.address_disambiguator,
            namespace_tag: self.namespace_tag@,
        }
    }
}

} // verus!
