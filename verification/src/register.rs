//! The registration handler: the one transition from unregistered to registered.

use crate::derive::{
    derive_address, derived, lemma_derived_is_first_valid, program_address, DerivedAddress,
};
use crate::error::RegistryError;
use crate::identity::{optional_identity_view, Address, Identity};
use crate::record::{RecordView, RegisterParams, RegistrationRecord};
use crate::storage::Storage;
use vstd::prelude::*;
use vstd::slice::slice_to_vec;

verus! {

/// What the caller's context supplies to a registration.
#[derive(Clone, Debug)]
pub struct RegisterContext {
    /// The program identity under which addresses are derived.
    pub program: Identity,
    /// The namespace of registration records.
    pub namespace_tag: Vec<u8>,
    /// The identity that asks to be registered.
    pub owner_identity: Identity,
    /// Whether the caller is authenticated as `owner_identity`.
    pub owner_authenticated: bool,
    /// The address at which the caller wants the record created.
    pub target_address: Address,
    /// The disambiguator that the caller claims for `target_address`.
    pub target_disambiguator: u8,
}

/// The two states of an identity in a namespace. The only transition is from
/// `Unregistered` to `Registered`.
#[derive(Clone, Copy, Debug, PartialEq, Eq, Structural)]
pub enum RegistrationState {
    /// The slot at the identity's derived address is empty, or the identity
    /// has no derived address.
    Unregistered,
    /// The slot at the identity's derived address is occupied.
    Registered,
}

/// A derivation result as plain values.
pub open spec fn derivation_view(derivation: Result<DerivedAddress, RegistryError>) -> Option<
    (Seq<u8>, u8),
> {
    match derivation {
        Ok(d) => Some(d@),
        Err(_) => None,
    }
}

/// How a registration ends when the derivation for the owner gave
/// `derivation`. The tests are made in this order: authentication,
/// derivation, target, occupancy of the target slot.
pub open spec fn outcome(
    storage: Map<Seq<u8>, RecordView>,
    ctx: RegisterContext,
    derivation: Option<(Seq<u8>, u8)>,
) -> Result<(), RegistryError> {
    if !ctx.owner_authenticated {
        Err(RegistryError::AuthorityMissing)
    } else {
        match derivation {
            None => Err(RegistryError::DerivationExhausted),
            Some((address, disambiguator)) => {
                if address != ctx.target_address@ || disambiguator != ctx.target_disambiguator {
                    Err(RegistryError::AddressMismatch)
                } else if storage.contains_key(address) {
                    Err(RegistryError::AlreadyRegistered)
                } else {
                    Ok(())
                }
            },
        }
    }
}

/// How a registration ends.
pub open spec fn registration_result(
    storage: Map<Seq<u8>, RecordView>,
    ctx: RegisterContext,
) -> Result<(), RegistryError> {
    outcome(storage, ctx, derived(ctx.program@, ctx.namespace_tag@, ctx.owner_identity@))
}

/// The record that a successful registration writes.
pub open spec fn new_record(ctx: RegisterContext, params: RegisterParams) -> RecordView {
    RecordView {
        owner_identity: ctx.owner_identity@,
        delegate_identity: optional_identity_view(params.delegate_identity),
        address_disambiguator: ctx.target_disambiguator,
        namespace_tag: ctx.namespace_tag@,
    }
}

/// The store with the new record at the target address.
pub open spec fn with_new_record(
    storage: Map<Seq<u8>, RecordView>,
    ctx: RegisterContext,
    params: RegisterParams,
) -> Map<Seq<u8>, RecordView> {
    storage.insert(ctx.target_address@, new_record(ctx, params))
}

/// The store as a registration leaves it: with the new record where the
/// registration goes through, untouched where it is refused.
pub open spec fn store_after(
    storage: Map<Seq<u8>, RecordView>,
    ctx: RegisterContext,
    params: RegisterParams,
) -> Map<Seq<u8>, RecordView> {
    if registration_result(storage, ctx) is Ok {
        with_new_record(storage, ctx, params)
    } else {
        storage
    }
}

/// The state of `owner` in the namespace `tag` of `program`.
pub open spec fn state_of(
    storage: Map<Seq<u8>, RecordView>,
    program: Seq<u8>,
    tag: Seq<u8>,
    owner: Seq<u8>,
) -> RegistrationState {
    match derived(program, tag, owner) {
        Some((address, _)) => if storage.contains_key(address) {
            RegistrationState::Registered
        } else {
            RegistrationState::Unregistered
        },
        None => RegistrationState::Unregistered,
    }
}

/// Every record lies at the address derived from its own namespace and owner
/// under `program`, and holds the disambiguator of that derivation.
pub open spec fn consistent(storage: Map<Seq<u8>, RecordView>, program: Seq<u8>) -> bool {
    forall|a: Seq<u8>| #[trigger]
        storage.contains_key(a) ==> derived(
            program,
            storage[a].namespace_tag,
            storage[a].owner_identity,
        ) == Some((a, storage[a].address_disambiguator))
}

impl RegisterContext {
    /// Carries out the registration, given what the derivation for the owner
    /// returned.
    ///
    /// The registration goes through when the caller is authenticated as the
    /// owner, the supplied target is the derived address with its
    /// disambiguator, and the target slot is empty. It then creates that one
    /// record and touches nothing else. Every refusal leaves the store as it was.
    pub fn apply(
        &self,
        storage: &mut Storage,
        params: &RegisterParams,
        derivation: Result<DerivedAddress, RegistryError>,
    ) -> (r: Result<(), RegistryError>)
        ensures
            r == outcome(old(storage)@, *self, derivation_view(derivation)),
            r is Ok ==> final(storage)@ == with_new_record(old(storage)@, *self, *params),
            r is Err ==> *final(storage) == *old(storage),
    {
        if !self.owner_authenticated {
            return Err(RegistryError::AuthorityMissing);
        }
        let found = match derivation {
            Ok(found) => found,
            Err(_) => {
                return Err(RegistryError::DerivationExhausted);
            },
        };
        if found.address != self.target_address || found.disambiguator
            != self.target_disambiguator {
            return Err(RegistryError::AddressMismatch);
        }
        let record = RegistrationRecord {
            owner_identity: self.owner_identity,
            delegate_identity: params.delegate_identity,
            address_disambiguator: found.disambiguator,
            namespace_tag: slice_to_vec(self.namespace_tag.as_slice()),
        };
        match storage.try_create(self.target_address, record) {
            Ok(_) => Ok(()),
            Err(_) => Err(RegistryError::AlreadyRegistered),
        }
    }
}

/// Registers an application endpoint for the owner identity of `ctx`.
///
/// Derives the owner's address in the namespace of `ctx` and applies the
/// registration to `storage`. It goes through when the caller is
/// authenticated as the owner, the supplied target is the derived address
/// with its disambiguator, and the target slot is empty; it then creates that
/// one record. Every refusal leaves the store as it was.
pub fn register_oapp(storage: &mut Storage, ctx: &RegisterContext, params: &RegisterParams) -> (r:
    Result<(), RegistryError>)
    ensures
        r == registration_result(old(storage)@, *ctx),
        final(storage)@ == store_after(old(storage)@, *ctx, *params),
        r is Err ==> *final(storage) == *old(storage),
        consistent(old(storage)@, ctx.program@) ==> consistent(final(storage)@, ctx.program@),
{
    let derivation = derive_address(
        &ctx.program,
        ctx.namespace_tag.as_slice(),
        &ctx.owner_identity,
    );
    proof {
        if consistent(storage@, ctx.program@) {
            lemma_registration_keeps_consistency(storage@, *ctx, *params);
        }
    }
    ctx.apply(storage, params, derivation)
}

/// Tells whether `owner` is registered in the namespace `tag` of `program`.
pub fn registration_state(storage: &Storage, program: &Identity, tag: &[u8], owner: &Identity) -> (r:
    RegistrationState)
    ensures
        r == state_of(storage@, program@, tag@, owner@),
{
    match derive_address(program, tag, owner) {
        Ok(found) => if storage.is_occupied(&found.address) {
            RegistrationState::Registered
        } else {
            RegistrationState::Unregistered
        },
        Err(_) => RegistrationState::Unregistered,
    }
}

/// A registration goes through only for an unregistered owner, and leaves
/// that owner registered.
pub proof fn lemma_registration_registers(
    storage: Map<Seq<u8>, RecordView>,
    ctx: RegisterContext,
    params: RegisterParams,
)
    requires
        registration_result(storage, ctx) is Ok,
    ensures
        state_of(storage, ctx.program@, ctx.namespace_tag@, ctx.owner_identity@)
            == RegistrationState::Unregistered,
        state_of(
            store_after(storage, ctx, params),
            ctx.program@,
            ctx.namespace_tag@,
            ctx.owner_identity@,
        ) == RegistrationState::Registered,
{
}

/// No registration, accepted or refused, takes a registered identity back to
/// unregistered.
pub proof fn lemma_registered_stays_registered(
    storage: Map<Seq<u8>, RecordView>,
    ctx: RegisterContext,
    params: RegisterParams,
    program: Seq<u8>,
    tag: Seq<u8>,
    owner: Seq<u8>,
)
    requires
        state_of(storage, program, tag, owner) == RegistrationState::Registered,
    ensures
        state_of(store_after(storage, ctx, params), program, tag, owner)
            == RegistrationState::Registered,
{
}

/// A registration keeps a consistent store consistent.
pub proof fn lemma_registration_keeps_consistency(
    storage: Map<Seq<u8>, RecordView>,
    ctx: RegisterContext,
    params: RegisterParams,
)
    requires
        consistent(storage, ctx.program@),
    ensures
        consistent(store_after(storage, ctx, params), ctx.program@),
{
}

/// No registration removes or rewrites a record that is already stored.
pub proof fn lemma_existing_records_kept(
    storage: Map<Seq<u8>, RecordView>,
    ctx: RegisterContext,
    params: RegisterParams,
    address: Seq<u8>,
)
    requires
        storage.contains_key(address),
    ensures
        store_after(storage, ctx, params).contains_key(address),
        store_after(storage, ctx, params)[address] == storage[address],
{
}

/// A consistent store holds at most one record for an owner in a namespace.
pub proof fn lemma_one_record_per_owner(
    storage: Map<Seq<u8>, RecordView>,
    program: Seq<u8>,
    a1: Seq<u8>,
    a2: Seq<u8>,
)
    requires
        consistent(storage, program),
        storage.contains_key(a1),
        storage.contains_key(a2),
        storage[a1].owner_identity == storage[a2].owner_identity,
        storage[a1].namespace_tag == storage[a2].namespace_tag,
    ensures
        a1 == a2,
{
}

/// The disambiguator stored in a record of a consistent store, fed back into
/// the derivation with the record's namespace and owner, gives the record's
/// own address.
pub proof fn lemma_stored_disambiguator_gives_address(
    storage: Map<Seq<u8>, RecordView>,
    program: Seq<u8>,
    address: Seq<u8>,
)
    requires
        consistent(storage, program),
        storage.contains_key(address),
    ensures
        program_address(
            program,
            storage[address].namespace_tag,
            storage[address].owner_identity,
            storage[address].address_disambiguator,
        ) == Some(address),
{
    lemma_derived_is_first_valid(
        program,
        storage[address].namespace_tag,
        storage[address].owner_identity,
        address,
        storage[address].address_disambiguator,
    );
}

/// The record that a registration has just created holds the disambiguator
/// that, fed back into the derivation with the same namespace and owner,
/// gives the record's own address.
pub proof fn lemma_new_record_round_trip(
    storage: Map<Seq<u8>, RecordView>,
    ctx: RegisterContext,
    params: RegisterParams,
)
    requires
        registration_result(storage, ctx) is Ok,
    ensures
        store_after(storage, ctx, params).contains_key(ctx.target_address@),
        store_after(storage, ctx, params)[ctx.target_address@] == new_record(ctx, params),
        program_address(
            ctx.program@,
            ctx.namespace_tag@,
            ctx.owner_identity@,
            new_record(ctx, params).address_disambiguator,
        ) == Some(ctx.target_address@),
{
    lemma_derived_is_first_valid(
        ctx.program@,
        ctx.namespace_tag@,
        ctx.owner_identity@,
        ctx.target_address@,
        ctx.target_disambiguator,
    );
}

/// Once an owner is registered, every further registration of that owner in
/// the same namespace is refused, whatever else the second request holds:
/// with `AlreadyRegistered` where the request is authenticated and names the
/// same target. The store stays as the first registration left it.
pub proof fn lemma_second_registration_rejected(
    storage: Map<Seq<u8>, RecordView>,
    first: RegisterContext,
    first_params: RegisterParams,
    second: RegisterContext,
    second_params: RegisterParams,
)
    requires
        registration_result(storage, first) is Ok,
        second.program@ == first.program@,
        second.namespace_tag@ == first.namespace_tag@,
        second.owner_identity@ == first.owner_identity@,
    ensures
        registration_result(store_after(storage, first, first_params), second) is Err,
        second.owner_authenticated && second.target_address@ == first.target_address@
            && second.target_disambiguator == first.target_disambiguator ==> registration_result(
            store_after(storage, first, first_params),
            second,
        ) == Err::<(), RegistryError>(RegistryError::AlreadyRegistered),
        store_after(store_after(storage, first, first_params), second, second_params)
            == store_after(storage, first, first_params),
{
}

/// An authenticated request whose target is not the derived address with its
/// disambiguator is refused with `AddressMismatch`, whatever the store
/// holds, and creates no record.
pub proof fn lemma_mismatch_rejected(
    storage: Map<Seq<u8>, RecordView>,
    ctx: RegisterContext,
    params: RegisterParams,
    address: Seq<u8>,
    disambiguator: u8,
)
    requires
        ctx.owner_authenticated,
        derived(ctx.program@, ctx.namespace_tag@, ctx.owner_identity@) == Some(
            (address, disambiguator),
        ),
        ctx.target_address@ != address || ctx.target_disambiguator != disambiguator,
    ensures
        registration_result(storage, ctx) == Err::<(), RegistryError>(
            RegistryError::AddressMismatch,
        ),
        store_after(storage, ctx, params) == storage,
{
}

} // verus!
