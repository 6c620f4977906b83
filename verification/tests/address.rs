use anchor_lang::prelude::Pubkey;
use pixel_chain_anchor::address::{Address, AddressDeriver, REWARD_MINT_SEED};

fn key(fill: u8) -> Address {
    Address { bytes: [fill; 32] }
}

#[test]
fn reward_tag_spells_reward_mint() {
    assert_eq!(&REWARD_MINT_SEED[..], "reward_mint".as_bytes());
}

#[test]
fn derive_twice_gives_the_same_address() {
    let deriver = AddressDeriver { program_id: key(1) };
    let first = deriver.derive(&REWARD_MINT_SEED, &key(7), 3).unwrap();
    let second = deriver.derive(&REWARD_MINT_SEED, &key(7), 3).unwrap();
    assert_eq!(first, second);
    assert_eq!(first.address, second.address);
    assert_eq!(first.bump, second.bump);
}

#[test]
fn another_challenge_gives_another_address() {
    let deriver = AddressDeriver { program_id: key(1) };
    let three = deriver.derive(&REWARD_MINT_SEED, &key(7), 3).unwrap();
    let four = deriver.derive(&REWARD_MINT_SEED, &key(7), 4).unwrap();
    assert_ne!(three.address, four.address);
}

#[test]
fn another_authority_tag_or_program_gives_another_address() {
    let deriver = AddressDeriver { program_id: key(1) };
    let base = deriver.derive(&REWARD_MINT_SEED, &key(7), 3).unwrap();
    let other_authority = deriver.derive(&REWARD_MINT_SEED, &key(8), 3).unwrap();
    let other_tag = deriver.derive("player".as_bytes(), &key(7), 3).unwrap();
    let other_program =
        AddressDeriver { program_id: key(2) }.derive(&REWARD_MINT_SEED, &key(7), 3).unwrap();
    assert_ne!(base.address, other_authority.address);
    assert_ne!(base.address, other_tag.address);
    assert_ne!(base.address, other_program.address);
}

#[test]
fn derived_address_is_the_program_derived_address() {
    let program = Pubkey::new_from_array([1u8; 32]);
    for id in [0u8, 3, 8, 255] {
        let (expected, bump) =
            Pubkey::find_program_address(&["reward_mint".as_bytes(), &[7u8; 32], &[id]], &program);
        let derived = AddressDeriver { program_id: key(1) }
            .derive(&REWARD_MINT_SEED, &key(7), id)
            .unwrap();
        assert_eq!(derived.address.bytes, expected.to_bytes());
        assert_eq!(derived.bump, bump);
    }
}

#[test]
fn derived_address_is_none_of_its_inputs() {
    let derived = AddressDeriver { program_id: key(1) }
        .derive(&REWARD_MINT_SEED, &key(7), 3)
        .unwrap();
    assert_ne!(derived.address, key(7));
    assert_ne!(derived.address, key(1));
}

#[test]
fn derived_address_is_valid_with_its_bump() {
    let derived = AddressDeriver { program_id: key(1) }
        .derive(&REWARD_MINT_SEED, &key(7), 3)
        .unwrap();
    let program = Pubkey::new_from_array([1u8; 32]);
    let recreated = Pubkey::create_program_address(
        &["reward_mint".as_bytes(), &[7u8; 32], &[3u8], &[derived.bump]],
        &program,
    )
    .unwrap();
    assert_eq!(recreated.to_bytes(), derived.address.bytes);
}

#[test]
fn tag_longer_than_a_seed_derives_nothing() {
    let deriver = AddressDeriver { program_id: key(1) };
    assert!(deriver.derive(&[0u8; 32], &key(7), 3).is_some());
    assert_eq!(deriver.derive(&[0u8; 33], &key(7), 3), None);
}
