use anchor_lang::prelude::Pubkey;
use oapp_registry::derive::{
    address_for, derive_address, search_step, DerivedAddress, SearchStep, MAX_TAG_LEN, OAPP_SEED,
};
use oapp_registry::error::RegistryError;
use oapp_registry::identity::{Address, Identity};

const PROGRAM: [u8; 32] = [
    255, 212, 66, 63, 211, 202, 114, 242, 251, 35, 238, 116, 132, 45, 55, 189, 131, 133, 204, 159,
    131, 4, 117, 232, 194, 28, 169, 22, 28, 20, 75, 1,
];

fn outside(tag: &[u8], owner: &[u8; 32], disambiguator: u8) -> Option<[u8; 32]> {
    Pubkey::create_program_address(
        &[tag, owner, &[disambiguator]],
        &Pubkey::new_from_array(PROGRAM),
    )
    .ok()
    .map(|key| key.to_bytes())
}

#[test]
fn oapp_seed_is_the_ascii_tag() {
    assert_eq!(&OAPP_SEED, b"OApp");
    assert_eq!(MAX_TAG_LEN, 32);
}

#[test]
fn program_bytes_are_the_declared_identity() {
    let key: Pubkey = "JDegmcb5B3UyhQB2AZUvgxR87DbuhNBHkJsBR68NDKRz".parse().unwrap();
    assert_eq!(key.to_bytes(), PROGRAM);
}

#[test]
fn derive_address_first_disambiguator_valid() {
    let owner = Identity::new([2u8; 32]);
    let found = derive_address(&Identity::new(PROGRAM), &OAPP_SEED, &owner).unwrap();
    assert_eq!(found.disambiguator, 0);
    assert_eq!(
        found.address.to_bytes(),
        [
            29, 159, 16, 171, 172, 234, 36, 37, 48, 225, 155, 148, 50, 206, 4, 121, 214, 59, 92,
            87, 250, 121, 229, 169, 247, 134, 242, 149, 58, 176, 57, 5
        ]
    );
}

#[test]
fn derive_address_skips_invalid_disambiguators() {
    let owner = Identity::new([1u8; 32]);
    let found = derive_address(&Identity::new(PROGRAM), &OAPP_SEED, &owner).unwrap();
    assert_eq!(found.disambiguator, 2);
    assert_eq!(
        found.address.to_bytes(),
        [
            193, 37, 248, 150, 180, 11, 137, 247, 116, 49, 130, 144, 72, 187, 103, 188, 124, 93,
            105, 51, 208, 216, 98, 113, 97, 148, 105, 17, 181, 197, 183, 98
        ]
    );
    assert_eq!(outside(&OAPP_SEED, &[1u8; 32], 0), None);
    assert_eq!(outside(&OAPP_SEED, &[1u8; 32], 1), None);
}

#[test]
fn derive_address_takes_the_smallest_valid_disambiguator() {
    let program = Identity::new(PROGRAM);
    for k in 0u8..60 {
        let owner = [k; 32];
        let found = derive_address(&program, &OAPP_SEED, &Identity::new(owner)).unwrap();
        for smaller in 0..found.disambiguator {
            assert_eq!(outside(&OAPP_SEED, &owner, smaller), None);
        }
        assert_eq!(
            outside(&OAPP_SEED, &owner, found.disambiguator),
            Some(found.address.to_bytes())
        );
    }
}

#[test]
fn derive_address_is_deterministic() {
    let program = Identity::new(PROGRAM);
    for k in 0u8..20 {
        let owner = Identity::new([k; 32]);
        let first = derive_address(&program, &OAPP_SEED, &owner);
        let second = derive_address(&program, &OAPP_SEED, &owner);
        assert_eq!(first, second);
        assert!(first.is_ok());
    }
}

#[test]
fn derived_addresses_of_distinct_identities_differ() {
    let program = Identity::new(PROGRAM);
    let mut seen: Vec<[u8; 32]> = Vec::new();
    for k in 0u8..40 {
        let found = derive_address(&program, &OAPP_SEED, &Identity::new([k; 32])).unwrap();
        assert!(!seen.contains(&found.address.to_bytes()));
        seen.push(found.address.to_bytes());
    }
}

#[test]
fn derived_address_depends_on_namespace_and_program() {
    let owner = Identity::new([2u8; 32]);
    let base = derive_address(&Identity::new(PROGRAM), &OAPP_SEED, &owner).unwrap();
    let other_tag = derive_address(&Identity::new(PROGRAM), b"Nonce", &owner).unwrap();
    let other_program = derive_address(&Identity::new([9u8; 32]), &OAPP_SEED, &owner).unwrap();
    assert_ne!(base.address, other_tag.address);
    assert_ne!(base.address, other_program.address);
}

#[test]
fn derive_address_rejects_a_tag_that_is_too_long() {
    let owner = Identity::new([2u8; 32]);
    let longest = [b'x'; 32];
    let too_long = [b'x'; 33];
    assert!(derive_address(&Identity::new(PROGRAM), &longest, &owner).is_ok());
    assert_eq!(
        derive_address(&Identity::new(PROGRAM), &too_long, &owner),
        Err(RegistryError::DerivationExhausted)
    );
}

#[test]
fn derive_address_accepts_an_empty_tag() {
    let owner = [2u8; 32];
    let found = derive_address(&Identity::new(PROGRAM), &[], &Identity::new(owner)).unwrap();
    assert_eq!(
        outside(&[], &owner, found.disambiguator),
        Some(found.address.to_bytes())
    );
}

#[test]
fn address_for_matches_the_outside_derivation() {
    let program = Identity::new(PROGRAM);
    let owner = [7u8; 32];
    for disambiguator in 0u8..=255 {
        let ours = address_for(&program, &OAPP_SEED, &Identity::new(owner), disambiguator);
        assert_eq!(
            ours.map(|a| a.to_bytes()),
            outside(&OAPP_SEED, &owner, disambiguator)
        );
    }
}

#[test]
fn address_for_is_not_one_of_its_arguments() {
    let program = Identity::new(PROGRAM);
    let owner = Identity::new([7u8; 32]);
    let address = address_for(&program, &OAPP_SEED, &owner, 1).unwrap();
    assert_eq!(
        address.to_bytes(),
        [
            122, 1, 200, 23, 136, 117, 43, 60, 30, 85, 229, 200, 0, 192, 175, 39, 237, 52, 124, 27,
            66, 163, 230, 146, 26, 213, 215, 79, 98, 80, 199, 166
        ]
    );
    assert_ne!(address.to_bytes(), owner.to_bytes());
    assert_ne!(address.to_bytes(), program.to_bytes());
    assert_eq!(address_for(&program, &OAPP_SEED, &owner, 0), None);
}

#[test]
fn address_for_rejects_a_tag_that_is_too_long() {
    let program = Identity::new(PROGRAM);
    let owner = Identity::new([2u8; 32]);
    for disambiguator in 0u8..=255 {
        assert_eq!(address_for(&program, &[0u8; 33], &owner, disambiguator), None);
    }
}

#[test]
fn stored_disambiguator_round_trips() {
    let program = Identity::new(PROGRAM);
    for k in 0u8..30 {
        let owner = Identity::new([k; 32]);
        let found = derive_address(&program, &OAPP_SEED, &owner).unwrap();
        assert_eq!(
            address_for(&program, &OAPP_SEED, &owner, found.disambiguator),
            Some(found.address)
        );
    }
}

#[test]
fn search_step_found() {
    let address = Address::new([5u8; 32]);
    assert_eq!(
        search_step(3, Some(address)),
        SearchStep::Found(DerivedAddress { address, disambiguator: 3 })
    );
    assert_eq!(
        search_step(255, Some(address)),
        SearchStep::Found(DerivedAddress { address, disambiguator: 255 })
    );
}

#[test]
fn search_step_retry_ascends() {
    assert_eq!(search_step(0, None), SearchStep::Retry(1));
    assert_eq!(search_step(3, None), SearchStep::Retry(4));
    assert_eq!(search_step(254, None), SearchStep::Retry(255));
}

#[test]
fn search_step_exhausted_after_last_disambiguator() {
    assert_eq!(search_step(255, None), SearchStep::Exhausted);
}
