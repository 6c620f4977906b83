use pixel_chain_anchor::challenge::{Challenge, ChallengeRegistry, MAX_DESCRIPTOR_BYTES};
use pixel_chain_anchor::error::ErrorCode;

#[test]
fn descriptor_cap_is_200() {
    assert_eq!(MAX_DESCRIPTOR_BYTES, 200);
}

#[test]
fn challenge_keeps_id_and_descriptor() {
    let challenge = Challenge::new(3, String::from("ipfs://x")).unwrap();
    assert_eq!(challenge.id, 3);
    assert_eq!(challenge.descriptor_uri, "ipfs://x");
}

#[test]
fn empty_descriptor_is_accepted() {
    let challenge = Challenge::new(0, String::new()).unwrap();
    assert_eq!(challenge.descriptor_uri, "");
}

#[test]
fn descriptor_of_200_bytes_is_accepted() {
    let uri = "a".repeat(200);
    let challenge = Challenge::new(1, uri.clone()).unwrap();
    assert_eq!(challenge.descriptor_uri, uri);
}

#[test]
fn descriptor_of_201_bytes_is_too_long() {
    assert_eq!(Challenge::new(1, "a".repeat(201)), Err(ErrorCode::DescriptorTooLong));
}

#[test]
fn descriptor_is_measured_in_bytes_not_chars() {
    // each of these chars takes two bytes
    let fits = "\u{e9}".repeat(100);
    assert_eq!(fits.len(), 200);
    assert!(Challenge::new(1, fits).is_ok());
    let too_long = "\u{e9}".repeat(101);
    assert_eq!(too_long.chars().count(), 101);
    assert_eq!(Challenge::new(1, too_long), Err(ErrorCode::DescriptorTooLong));
}

#[test]
fn new_registry_is_empty() {
    let registry = ChallengeRegistry::new();
    for id in 0..=255u8 {
        assert!(!registry.contains(id));
        assert!(registry.get(id).is_none());
    }
}

#[test]
fn registered_challenge_is_found_under_its_id() {
    let mut registry = ChallengeRegistry::new();
    assert_eq!(registry.register_challenge(3, String::from("ipfs://x")), Ok(()));
    assert!(registry.contains(3));
    let found = registry.get(3).unwrap();
    assert_eq!(found.id, 3);
    assert_eq!(found.descriptor_uri, "ipfs://x");
    assert!(!registry.contains(2));
    assert!(!registry.contains(4));
}

#[test]
fn second_registration_fails_and_keeps_the_first() {
    let mut registry = ChallengeRegistry::new();
    assert_eq!(registry.register_challenge(5, String::from("ipfs://first")), Ok(()));
    assert_eq!(
        registry.register_challenge(5, String::from("ipfs://second")),
        Err(ErrorCode::ChallengeAlreadyExists)
    );
    let found = registry.get(5).unwrap();
    assert_eq!(found.id, 5);
    assert_eq!(found.descriptor_uri, "ipfs://first");
}

#[test]
fn too_long_descriptor_registers_nothing() {
    let mut registry = ChallengeRegistry::new();
    assert_eq!(registry.register_challenge(5, "x".repeat(201)), Err(ErrorCode::DescriptorTooLong));
    assert!(!registry.contains(5));
    assert_eq!(registry.register_challenge(5, "x".repeat(200)), Ok(()));
    assert!(registry.contains(5));
}

#[test]
fn existing_record_comes_before_descriptor_length() {
    let mut registry = ChallengeRegistry::new();
    assert_eq!(registry.register_challenge(5, String::from("a")), Ok(()));
    assert_eq!(
        registry.register_challenge(5, "x".repeat(500)),
        Err(ErrorCode::ChallengeAlreadyExists)
    );
}

#[test]
fn boundary_ids_register() {
    let mut registry = ChallengeRegistry::new();
    assert_eq!(registry.register_challenge(0, String::from("zero")), Ok(()));
    assert_eq!(registry.register_challenge(255, String::from("last")), Ok(()));
    assert_eq!(registry.get(0).unwrap().descriptor_uri, "zero");
    assert_eq!(registry.get(255).unwrap().descriptor_uri, "last");
    assert!(!registry.contains(1));
    assert!(!registry.contains(254));
}
