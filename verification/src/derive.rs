//! The address deriver: from a program identity, a namespace tag and an owner
//! identity to a storage address and the disambiguator that produced it.

use crate::error::RegistryError;
use crate::identity::{lemma_address_ext, optional_address_view, Address, Identity};
use anchor_lang::prelude::Pubkey;
use vstd::prelude::*;

verus! {

/// The namespace tag under which application endpoints are registered: the
/// ASCII bytes of `OApp`.
pub const OAPP_SEED: [u8; 4] = [79, 65, 112, 112];

/// Longest namespace tag that can take part in a derivation.
pub const MAX_TAG_LEN: usize = 32;

/// A derived storage address together with the disambiguator that produced it.
#[derive(Clone, Copy, Debug, PartialEq, Eq)]
pub struct DerivedAddress {
    pub address: Address,
    pub disambiguator: u8,
}

/// The address that hashing `tag`, `owner` and the one-byte `disambiguator`
/// under `program` gives, or `None` where those inputs give no valid address.
pub uninterp spec fn program_address(
    program: Seq<u8>,
    tag: Seq<u8>,
    owner: Seq<u8>,
    disambiguator: u8,
) -> Option<Seq<u8>>;

/// Calls `Pubkey::create_program_address` with the seeds `tag`, `owner` and
/// the single byte `disambiguator`, under the program identity `program`.
///
/// Trusted: the outcome is a function of these four values alone, with every
/// error of the outside call reported as `None`; and the outside call refuses
/// a seed longer than 32 bytes.
#[verifier::external_body]
fn create_program_address(program: &Identity, tag: &[u8], owner: &Identity, disambiguator: u8) -> (r:
    Option<Address>)
    ensures
        optional_address_view(r) == program_address(program@, tag@, owner@, disambiguator),
        tag@.len() > MAX_TAG_LEN ==> r is None,
{
    let id = Pubkey::new_from_array(program.bytes);
    match Pubkey::create_program_address(&[tag, &owner.bytes, &[disambiguator]], &id) {
        Ok(key) => Some(Address { bytes: key.to_bytes() }),
        Err(_) => None,
    }
}

/// The address that one given disambiguator yields, without any search:
/// `None` where that disambiguator yields no valid address. This is how a
/// stored disambiguator is turned back into the address of its record.
pub fn address_for(program: &Identity, tag: &[u8], owner: &Identity, disambiguator: u8) -> (r:
    Option<Address>)
    ensures
        optional_address_view(r) == program_address(program@, tag@, owner@, disambiguator),
        tag@.len() > MAX_TAG_LEN ==> r is None,
{
    create_program_address(program, tag, owner, disambiguator)
}

/// `disambiguator` yields an address and no smaller one does.
pub open spec fn is_first_valid(
    program: Seq<u8>,
    tag: Seq<u8>,
    owner: Seq<u8>,
    disambiguator: u8,
) -> bool {
    &&& program_address(program, tag, owner, disambiguator) is Some
    &&& forall|c: u8| c < disambiguator ==> program_address(program, tag, owner, c) is None
}

/// No disambiguator yields an address.
pub open spec fn exhausted(program: Seq<u8>, tag: Seq<u8>, owner: Seq<u8>) -> bool {
    forall|c: u8| program_address(program, tag, owner, c) is None
}

/// The disambiguator that the derivation settles on: the first one, in
/// ascending order, that yields an address.
pub open spec fn canonical_disambiguator(program: Seq<u8>, tag: Seq<u8>, owner: Seq<u8>) -> Option<
    u8,
> {
    if exists|b: u8| is_first_valid(program, tag, owner, b) {
        Some(choose|b: u8| is_first_valid(program, tag, owner, b))
    } else {
        None
    }
}

/// The derived address of `owner` and its disambiguator, or `None` where the
/// derivation is exhausted.
pub open spec fn derived(program: Seq<u8>, tag: Seq<u8>, owner: Seq<u8>) -> Option<(Seq<u8>, u8)> {
    match canonical_disambiguator(program, tag, owner) {
        Some(b) => match program_address(program, tag, owner, b) {
            Some(a) => Some((a, b)),
            None => None,
        },
        None => None,
    }
}

impl View for DerivedAddress {
    type V = (Seq<u8>, u8);

    /// The pair of address bytes and disambiguator.
    open spec fn view(&self) -> (Seq<u8>, u8) {
        (self.address@, self.disambiguator)
    }
}

/// At most one disambiguator is the first valid one.
pub proof fn lemma_first_valid_unique(
    program: Seq<u8>,
    tag: Seq<u8>,
    owner: Seq<u8>,
    b1: u8,
    b2: u8,
)
    requires
        is_first_valid(program, tag, owner, b1),
        is_first_valid(program, tag, owner, b2),
    ensures
        b1 == b2,
{
}

/// The derivation yields exactly the first valid disambiguator and its address.
pub proof fn lemma_derived_is_first_valid(
    program: Seq<u8>,
    tag: Seq<u8>,
    owner: Seq<u8>,
    address: Seq<u8>,
    disambiguator: u8,
)
    ensures
        derived(program, tag, owner) == Some((address, disambiguator)) <==> (is_first_valid(
            program,
            tag,
            owner,
            disambiguator,
        ) && program_address(program, tag, owner, disambiguator) == Some(address)),
{
    if is_first_valid(program, tag, owner, disambiguator) {
        let b = choose|b: u8| is_first_valid(program, tag, owner, b);
        lemma_first_valid_unique(program, tag, owner, b, disambiguator);
    }
}

/// The derivation yields nothing exactly when no disambiguator is valid.
pub proof fn lemma_derived_none_is_exhausted(program: Seq<u8>, tag: Seq<u8>, owner: Seq<u8>)
    ensures
        derived(program, tag, owner) is None <==> exhausted(program, tag, owner),
{
    if !exhausted(program, tag, owner) {
        let c = choose|c: u8| program_address(program, tag, owner, c) is Some;
        lemma_least_valid(program, tag, owner, c);
    }
}

/// Below every valid disambiguator lies a first valid one.
proof fn lemma_least_valid(program: Seq<u8>, tag: Seq<u8>, owner: Seq<u8>, c: u8)
    requires
        program_address(program, tag, owner, c) is Some,
    ensures
        exists|b: u8| b <= c && is_first_valid(program, tag, owner, b),
    decreases c,
{
    if is_first_valid(program, tag, owner, c) {
    } else {
        let d = choose|d: u8| d < c && program_address(program, tag, owner, d) is Some;
        lemma_least_valid(program, tag, owner, d);
    }
}

/// What one attempt of the search leads to.
#[derive(Clone, Copy, Debug, PartialEq, Eq)]
pub enum SearchStep {
    /// The attempt yielded an address: the search ends with it.
    Found(DerivedAddress),
    /// The attempt yielded nothing: the search goes on with this disambiguator.
    Retry(u8),
    /// The attempt yielded nothing and no disambiguator is left.
    Exhausted,
}

/// Decides how the search goes on after the attempt with `disambiguator`
/// came back as `outcome`.
pub fn search_step(disambiguator: u8, outcome: Option<Address>) -> (r: SearchStep)
    ensures
        r == match outcome {
            Some(address) => SearchStep::Found(DerivedAddress { address, disambiguator }),
            None => if disambiguator == u8::MAX {
                SearchStep::Exhausted
            } else {
                SearchStep::Retry((disambiguator + 1) as u8)
            },
        },
{
    match outcome {
        Some(address) => SearchStep::Found(DerivedAddress { address, disambiguator }),
        None => if disambiguator == u8::MAX {
            SearchStep::Exhausted
        } else {
            SearchStep::Retry(disambiguator + 1)
        },
    }
}

/// `r` is what a derivation for `owner` in the namespace `tag` of `program`
/// returns.
pub open spec fn derivation_outcome(
    program: Seq<u8>,
    tag: Seq<u8>,
    owner: Seq<u8>,
    r: Result<DerivedAddress, RegistryError>,
) -> bool {
    match r {
        Ok(d) => derived(program, tag, owner) == Some(d@),
        Err(e) => e == RegistryError::DerivationExhausted && derived(program, tag, owner) is None,
    }
}

/// Derives the storage address of `owner` in the namespace `tag` of `program`.
///
/// Disambiguators are tried in ascending order from 0 to 255; the first that
/// yields an address wins. Fails with `DerivationExhausted` exactly when none
/// does, which is the case for every tag longer than `MAX_TAG_LEN`.
pub fn derive_address(program: &Identity, tag: &[u8], owner: &Identity) -> (r: Result<
    DerivedAddress,
    RegistryError,
>)
    ensures
        derivation_outcome(program@, tag@, owner@, r),
        r is Err <==> exhausted(program@, tag@, owner@),
        tag@.len() > MAX_TAG_LEN ==> r is Err,
{
    let mut disambiguator: u8 = 0;
    loop
        invariant
            forall|c: u8| c < disambiguator ==> program_address(program@, tag@, owner@, c) is None,
        decreases u8::MAX - disambiguator,
    {
        let outcome = create_program_address(program, tag, owner, disambiguator);
        match search_step(disambiguator, outcome) {
            SearchStep::Found(found) => {
                proof {
                    lemma_derived_is_first_valid(
                        program@,
                        tag@,
                        owner@,
                        found.address@,
                        disambiguator,
                    );
                }
                return Ok(found);
            },
            SearchStep::Retry(next) => {
                disambiguator = next;
            },
            SearchStep::Exhausted => {
                proof {
                    lemma_derived_none_is_exhausted(program@, tag@, owner@);
                }
                return Err(RegistryError::DerivationExhausted);
            },
        }
    }
}

/// Two derivations from the same inputs return the same address and the same
/// disambiguator, or both fail.
pub proof fn lemma_derivation_deterministic(
    program: Seq<u8>,
    tag: Seq<u8>,
    owner: Seq<u8>,
    first: Result<DerivedAddress, RegistryError>,
    second: Result<DerivedAddress, RegistryError>,
)
    requires
        derivation_outcome(program, tag, owner, first),
        derivation_outcome(program, tag, owner, second),
    ensures
        first == second,
{
    if let Ok(d1) = first {
        if let Ok(d2) = second {
            lemma_address_ext(d1.address, d2.address);
        }
    }
}

/// No attempt for the identity `a` yields an address that an attempt for the
/// identity `b` yields too.
pub open spec fn attempts_never_coincide(
    program: Seq<u8>,
    tag: Seq<u8>,
    a: Seq<u8>,
    b: Seq<u8>,
) -> bool {
    forall|x: u8, y: u8|
        (#[trigger] program_address(program, tag, a, x)) is Some ==> program_address(
            program,
            tag,
            a,
            x,
        ) != #[trigger] program_address(program, tag, b, y)
}

/// Where no attempt for one identity coincides with an attempt for another,
/// the derived addresses of the two differ.
pub proof fn lemma_derived_addresses_differ(
    program: Seq<u8>,
    tag: Seq<u8>,
    a: Seq<u8>,
    b: Seq<u8>,
    derived_a: (Seq<u8>, u8),
    derived_b: (Seq<u8>, u8),
)
    requires
        attempts_never_coincide(program, tag, a, b),
        derived(program, tag, a) == Some(derived_a),
        derived(program, tag, b) == Some(derived_b),
    ensures
        derived_a.0 != derived_b.0,
{
    lemma_derived_is_first_valid(program, tag, a, derived_a.0, derived_a.1);
    lemma_derived_is_first_valid(program, tag, b, derived_b.0, derived_b.1);
}

} // verus!
