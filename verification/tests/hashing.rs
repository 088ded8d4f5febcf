use degen::hashing::prop_id;
use degen::primitives::{Address, Bytes32, U256};
use degen::reward_for;

fn expected_id(name: &str, worth: u64) -> Bytes32 {
    let mut packed = name.as_bytes().to_vec();
    packed.extend_from_slice(&[0u8; 24]);
    packed.extend_from_slice(&worth.to_be_bytes());
    Bytes32::new(alloy_primitives::keccak256(&packed).0)
}

#[test]
fn prop_id_is_the_digest_of_name_and_worth() {
    let id = prop_id(&String::from("sword"), U256::from_u64(50));
    assert_eq!(id, expected_id("sword", 50));
    assert_ne!(id, Bytes32::new([0u8; 32]));
}

#[test]
fn prop_id_of_known_input() {
    // Keccak-256 of the empty name followed by thirty-two zero bytes.
    let id = prop_id(&String::new(), U256::zero());
    let digest = alloy_primitives::keccak256([0u8; 32]);
    assert_eq!(id.bytes, digest.0);
    assert_eq!(
        id.bytes[..4],
        [0x29, 0x0d, 0xec, 0xd9]
    );
}

#[test]
fn prop_id_depends_on_both_parts() {
    let sword = prop_id(&String::from("sword"), U256::from_u64(50));
    assert_eq!(sword, prop_id(&String::from("sword"), U256::from_u64(50)));
    assert_ne!(sword, prop_id(&String::from("sword"), U256::from_u64(51)));
    assert_ne!(sword, prop_id(&String::from("shield"), U256::from_u64(50)));
}

#[test]
fn prop_id_encodes_worth_in_32_bytes() {
    let worth = U256::from_limbs([1, 2, 3, 4]);
    let mut packed = "é".as_bytes().to_vec();
    for limb in [4u64, 3, 2, 1] {
        packed.extend_from_slice(&limb.to_be_bytes());
    }
    assert_eq!(packed.len(), 34);
    let id = prop_id(&String::from("é"), worth);
    assert_eq!(id.bytes, alloy_primitives::keccak256(&packed).0);
}

#[test]
fn u256_limbs_round_trip() {
    let value = U256::from_limbs([7, 8, 9, 10]);
    assert_eq!(value.into_limbs(), [7, 8, 9, 10]);
    assert_eq!(U256::zero().into_limbs(), [0, 0, 0, 0]);
    assert_eq!(U256::from_u64(12).into_limbs(), [12, 0, 0, 0]);
    assert_eq!(U256::from_u128(u128::MAX).into_limbs(), [u64::MAX, u64::MAX, 0, 0]);
    assert_eq!(U256::from_u128((5u128 << 64) + 6).into_limbs(), [6, 5, 0, 0]);
}

#[test]
fn addresses_compare_by_their_bytes() {
    let mut bytes = [3u8; 20];
    let a = Address::new(bytes);
    assert_eq!(a, Address::new([3u8; 20]));
    bytes[19] = 4;
    assert_ne!(a, Address::new(bytes));
    assert_eq!(Address::zero(), Address::new([0u8; 20]));
    let mut word = [0u8; 32];
    word[31] = 1;
    assert_ne!(Bytes32::new(word), Bytes32::new([0u8; 32]));
    assert_eq!(Bytes32::new(word), Bytes32::new(word));
}

#[test]
fn reward_tiers() {
    assert_eq!(reward_for(0), U256::from_u64(0));
    assert_eq!(reward_for(5), U256::from_u64(15));
    assert_eq!(reward_for(10), U256::from_u64(30));
    assert_eq!(reward_for(11), U256::from_u64(55));
    assert_eq!(reward_for(30), U256::from_u64(150));
    assert_eq!(reward_for(50), U256::from_u64(250));
    assert_eq!(reward_for(51), U256::from_u64(510));
    assert_eq!(reward_for(60), U256::from_u64(600));
}

#[test]
fn reward_of_the_largest_score_needs_two_limbs() {
    assert_eq!(reward_for(u64::MAX), U256::from_limbs([u64::MAX - 9, 9, 0, 0]));
}
