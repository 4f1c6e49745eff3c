use trust_oracle::errors::OracleError;
use trust_oracle::registry::TrustOracle;
use trust_oracle::sig::create_message_hash;
use trust_oracle::types::{Address, Bytes32, U256};

use k256::ecdsa::SigningKey;
use sha3::Digest;

fn test_key(seed: u8) -> SigningKey {
    let mut bytes = [0u8; 32];
    bytes[31] = seed;
    SigningKey::from_slice(&bytes).expect("a small nonzero scalar is a valid secret key")
}

fn key_address(key: &SigningKey) -> Address {
    let point = k256::elliptic_curve::sec1::ToSec1Point::to_sec1_point(
        key.verifying_key().as_affine(),
        false,
    );
    let hash = sha3::Keccak256::digest(&point.as_bytes()[1..]);
    let mut bytes = [0u8; 20];
    bytes.copy_from_slice(&hash[12..32]);
    Address::new(bytes)
}

fn sign_with_nonce(
    key: &SigningKey,
    wallet: &Address,
    score: u16,
    timestamp: u32,
    source: &Bytes32,
    metadata_hash: &Bytes32,
    nonce: &U256,
) -> Vec<u8> {
    let digest = create_message_hash(wallet, score, timestamp, source, metadata_hash, nonce);
    let (sig, rid) = key.sign_prehash_recoverable(&digest);
    let mut out = sig.to_bytes().to_vec();
    out.push(rid.to_byte() + 27);
    out
}

fn sign_update(
    key: &SigningKey,
    registry: &TrustOracle,
    wallet: &Address,
    score: u16,
    timestamp: u32,
    source: &Bytes32,
    metadata_hash: &Bytes32,
) -> Vec<u8> {
    let nonce = registry.get_nonce(wallet);
    sign_with_nonce(key, wallet, score, timestamp, source, metadata_hash, &nonce)
}

fn initialized_registry(threshold: u16) -> (TrustOracle, SigningKey, Address) {
    let oracle_key = test_key(7);
    let oracle_addr = key_address(&oracle_key);
    let owner = Address::new([0x11u8; 20]);
    let mut registry = TrustOracle::new();
    registry
        .init(owner, oracle_addr, threshold)
        .expect("first init succeeds");
    (registry, oracle_key, owner)
}

#[test]
fn init_sets_configuration() {
    let oracle_key = test_key(3);
    let oracle_addr = key_address(&oracle_key);
    let owner = Address::new([0x22u8; 20]);
    let mut registry = TrustOracle::new();
    assert_eq!(registry.get_owner().map(|a| a.bytes), None);
    assert_eq!(registry.get_trust_threshold(), 0);
    assert_eq!(registry.init(owner, oracle_addr, 70), Ok(()));
    assert_eq!(registry.get_owner().map(|a| a.bytes), Some(owner.bytes));
    assert_eq!(registry.get_oracle_address().bytes, oracle_addr.bytes);
    assert_eq!(registry.get_trust_threshold(), 70);
}

#[test]
fn init_twice_fails_and_changes_nothing() {
    let (mut registry, _, owner) = initialized_registry(70);
    let oracle_before = registry.get_oracle_address().bytes;
    let other_owner = Address::new([0x33u8; 20]);
    let other_oracle = Address::new([0x44u8; 20]);
    assert_eq!(
        registry.init(other_owner, other_oracle, 10),
        Err(OracleError::AlreadyInitialized)
    );
    assert_eq!(registry.get_owner().map(|a| a.bytes), Some(owner.bytes));
    assert_eq!(registry.get_oracle_address().bytes, oracle_before);
    assert_eq!(registry.get_trust_threshold(), 70);
}

#[test]
fn signed_update_scenario() {
    let (mut registry, oracle_key, _) = initialized_registry(70);
    let wallet = Address::new([0xAAu8; 20]);
    let source = Bytes32::new([0x05u8; 32]);
    let metadata_hash = Bytes32::new([0x06u8; 32]);
    let now: u64 = 1_700_000_000;
    let timestamp: u32 = 1_700_000_000 - 30;

    let sig = sign_update(&oracle_key, &registry, &wallet, 80, timestamp, &source, &metadata_hash);
    assert_eq!(
        registry.update_score(now, wallet, 80, timestamp, source, metadata_hash, sig.clone()),
        Ok(())
    );

    let record = registry.get_trust_score(&wallet);
    assert_eq!(record.score, 80);
    assert_eq!(record.timestamp, timestamp);
    assert_eq!(record.source.bytes, source.bytes);
    assert_eq!(record.metadata_hash.bytes, metadata_hash.bytes);
    assert_eq!(registry.get_nonce(&wallet), U256::from_u64(1));
    assert!(registry.is_trusted(&wallet));
    assert!(registry.has_score(&wallet));

    // The identical resubmission is now checked against the digest for
    // nonce 1, while the signature was made over the nonce-0 message.
    assert_eq!(
        registry.update_score(now, wallet, 80, timestamp, source, metadata_hash, sig),
        Err(OracleError::InvalidSignature)
    );
    assert_eq!(registry.get_nonce(&wallet), U256::from_u64(1));
}

#[test]
fn replay_rejected_after_nonce_advances() {
    let (mut registry, oracle_key, _) = initialized_registry(50);
    let wallet = Address::new([0xABu8; 20]);
    let source = Bytes32::new([0x01u8; 32]);
    let metadata_hash = Bytes32::new([0x02u8; 32]);
    let now: u64 = 1_700_000_000;
    let ts: u32 = 1_700_000_000 - 10;

    let first = sign_update(&oracle_key, &registry, &wallet, 60, ts, &source, &metadata_hash);
    assert_eq!(
        registry.update_score(now, wallet, 60, ts, source, metadata_hash, first.clone()),
        Ok(())
    );
    let second = sign_update(&oracle_key, &registry, &wallet, 65, ts, &source, &metadata_hash);
    assert_eq!(
        registry.update_score(now, wallet, 65, ts, source, metadata_hash, second),
        Ok(())
    );
    assert_eq!(registry.get_nonce(&wallet), U256::from_u64(2));

    // The nonce-0 signature is dead once the stored nonce has advanced past 0.
    assert_eq!(
        registry.update_score(now, wallet, 60, ts, source, metadata_hash, first),
        Err(OracleError::InvalidSignature)
    );
    assert_eq!(registry.get_trust_score(&wallet).score, 65);
}

#[test]
fn score_out_of_range_rejected_despite_valid_signature() {
    let (mut registry, oracle_key, _) = initialized_registry(70);
    let wallet = Address::new([0xACu8; 20]);
    let source = Bytes32::new([0u8; 32]);
    let metadata_hash = Bytes32::new([0u8; 32]);
    let now: u64 = 1_700_000_000;
    let ts: u32 = 1_700_000_000;

    let sig = sign_update(&oracle_key, &registry, &wallet, 101, ts, &source, &metadata_hash);
    assert_eq!(
        registry.update_score(now, wallet, 101, ts, source, metadata_hash, sig),
        Err(OracleError::InvalidScore)
    );
    assert!(!registry.has_score(&wallet));
    assert_eq!(registry.get_nonce(&wallet), U256::from_u64(0));
}

#[test]
fn timestamp_window_boundaries() {
    let (mut registry, oracle_key, _) = initialized_registry(70);
    let wallet = Address::new([0xADu8; 20]);
    let source = Bytes32::new([0u8; 32]);
    let metadata_hash = Bytes32::new([0u8; 32]);
    let now: u64 = 1_700_000_000;

    let future: u32 = 1_700_000_001;
    let sig = sign_update(&oracle_key, &registry, &wallet, 50, future, &source, &metadata_hash);
    assert_eq!(
        registry.update_score(now, wallet, 50, future, source, metadata_hash, sig),
        Err(OracleError::StaleTimestamp)
    );

    let expired: u32 = 1_700_000_000 - 3601;
    let sig = sign_update(&oracle_key, &registry, &wallet, 50, expired, &source, &metadata_hash);
    assert_eq!(
        registry.update_score(now, wallet, 50, expired, source, metadata_hash, sig),
        Err(OracleError::StaleTimestamp)
    );

    // The window is inclusive: an update exactly 3600 seconds old passes.
    let oldest: u32 = 1_700_000_000 - 3600;
    let sig = sign_update(&oracle_key, &registry, &wallet, 50, oldest, &source, &metadata_hash);
    assert_eq!(
        registry.update_score(now, wallet, 50, oldest, source, metadata_hash, sig),
        Ok(())
    );
}

#[test]
fn malformed_signatures_rejected() {
    let (mut registry, oracle_key, _) = initialized_registry(70);
    let wallet = Address::new([0xAEu8; 20]);
    let source = Bytes32::new([0u8; 32]);
    let metadata_hash = Bytes32::new([0u8; 32]);
    let now: u64 = 1_700_000_000;
    let ts: u32 = 1_700_000_000;

    for bad in [vec![], vec![0u8; 64], vec![0u8; 66]] {
        assert_eq!(
            registry.update_score(now, wallet, 50, ts, source, metadata_hash, bad),
            Err(OracleError::InvalidSignature)
        );
    }

    // A good signature with a corrupted recovery indicator.
    let mut sig = sign_update(&oracle_key, &registry, &wallet, 50, ts, &source, &metadata_hash);
    sig[64] = 5;
    assert_eq!(
        registry.update_score(now, wallet, 50, ts, source, metadata_hash, sig),
        Err(OracleError::InvalidSignature)
    );

    // A well-formed signature by the wrong key is a clean mismatch.
    let stranger = test_key(9);
    let sig = sign_update(&stranger, &registry, &wallet, 50, ts, &source, &metadata_hash);
    assert_eq!(
        registry.update_score(now, wallet, 50, ts, source, metadata_hash, sig),
        Err(OracleError::InvalidSignature)
    );
    assert!(!registry.has_score(&wallet));
}

#[test]
fn oracle_rotation_cuts_off_old_key() {
    let (mut registry, old_key, owner) = initialized_registry(70);
    let new_key = test_key(11);
    let new_oracle = key_address(&new_key);
    let wallet = Address::new([0xAFu8; 20]);
    let source = Bytes32::new([0x03u8; 32]);
    let metadata_hash = Bytes32::new([0x04u8; 32]);
    let now: u64 = 1_700_000_000;
    let ts: u32 = 1_700_000_000;

    // Signed by the old oracle, but not yet submitted.
    let stale_sig = sign_update(&old_key, &registry, &wallet, 90, ts, &source, &metadata_hash);

    assert_eq!(registry.update_oracle(&owner, new_oracle), Ok(()));
    assert_eq!(registry.get_oracle_address().bytes, new_oracle.bytes);

    assert_eq!(
        registry.update_score(now, wallet, 90, ts, source, metadata_hash, stale_sig),
        Err(OracleError::InvalidSignature)
    );

    // The new oracle signs for the same, unchanged nonce and succeeds.
    let fresh_sig = sign_update(&new_key, &registry, &wallet, 90, ts, &source, &metadata_hash);
    assert_eq!(
        registry.update_score(now, wallet, 90, ts, source, metadata_hash, fresh_sig),
        Ok(())
    );
    assert_eq!(registry.get_trust_score(&wallet).score, 90);
}

#[test]
fn admin_operations_require_owner() {
    let (mut registry, _, _) = initialized_registry(70);
    let stranger = Address::new([0x55u8; 20]);
    let oracle_before = registry.get_oracle_address().bytes;
    assert_eq!(
        registry.update_oracle(&stranger, Address::new([0x66u8; 20])),
        Err(OracleError::Unauthorized)
    );
    assert_eq!(registry.get_oracle_address().bytes, oracle_before);
    assert_eq!(
        registry.update_trust_threshold(&stranger, 10),
        Err(OracleError::Unauthorized)
    );
    assert_eq!(registry.get_trust_threshold(), 70);
}

#[test]
fn threshold_update_checks_range() {
    let (mut registry, _, owner) = initialized_registry(70);
    assert_eq!(
        registry.update_trust_threshold(&owner, 101),
        Err(OracleError::InvalidScore)
    );
    assert_eq!(registry.get_trust_threshold(), 70);
    assert_eq!(registry.update_trust_threshold(&owner, 55), Ok(()));
    assert_eq!(registry.get_trust_threshold(), 55);
}

#[test]
fn is_trusted_matches_score_and_threshold() {
    let (mut registry, oracle_key, owner) = initialized_registry(70);
    let wallet = Address::new([0xB0u8; 20]);
    let source = Bytes32::new([0u8; 32]);
    let metadata_hash = Bytes32::new([0u8; 32]);
    let now: u64 = 1_700_000_000;
    let ts: u32 = 1_700_000_000;

    let sig = sign_update(&oracle_key, &registry, &wallet, 70, ts, &source, &metadata_hash);
    assert_eq!(
        registry.update_score(now, wallet, 70, ts, source, metadata_hash, sig),
        Ok(())
    );
    // Equality with the threshold is enough.
    assert!(registry.is_trusted(&wallet));
    assert_eq!(registry.update_trust_threshold(&owner, 71), Ok(()));
    assert!(!registry.is_trusted(&wallet));
    // The derived decision always equals the raw comparison.
    assert_eq!(
        registry.is_trusted(&wallet),
        registry.get_trust_score(&wallet).score >= registry.get_trust_threshold()
    );
}

#[test]
fn unknown_account_reads_zero_record() {
    let (registry, _, _) = initialized_registry(70);
    let wallet = Address::new([0xB1u8; 20]);
    let record = registry.get_trust_score(&wallet);
    assert_eq!(record.score, 0);
    assert_eq!(record.timestamp, 0);
    assert_eq!(record.source.bytes, [0u8; 32]);
    assert_eq!(record.metadata_hash.bytes, [0u8; 32]);
    assert!(!registry.has_score(&wallet));
    assert_eq!(registry.get_nonce(&wallet), U256::from_u64(0));
    // With a zero threshold the zero-valued default already counts as
    // trusted: a reader must use has_score to tell "unknown" apart.
    let fresh = TrustOracle::new();
    assert!(fresh.is_trusted(&wallet));
    assert!(!fresh.has_score(&wallet));
}

#[test]
fn nonces_are_tracked_per_account() {
    let (mut registry, oracle_key, _) = initialized_registry(10);
    let first = Address::new([0xC1u8; 20]);
    let second = Address::new([0xC2u8; 20]);
    let source = Bytes32::new([0u8; 32]);
    let metadata_hash = Bytes32::new([0u8; 32]);
    let now: u64 = 1_700_000_000;
    let ts: u32 = 1_700_000_000;

    let sig = sign_update(&oracle_key, &registry, &first, 20, ts, &source, &metadata_hash);
    assert_eq!(
        registry.update_score(now, first, 20, ts, source, metadata_hash, sig),
        Ok(())
    );
    assert_eq!(registry.get_nonce(&first), U256::from_u64(1));
    assert_eq!(registry.get_nonce(&second), U256::from_u64(0));

    let sig = sign_update(&oracle_key, &registry, &second, 30, ts, &source, &metadata_hash);
    assert_eq!(
        registry.update_score(now, second, 30, ts, source, metadata_hash, sig),
        Ok(())
    );
    assert_eq!(registry.get_nonce(&first), U256::from_u64(1));
    assert_eq!(registry.get_nonce(&second), U256::from_u64(1));
    assert_eq!(registry.get_trust_score(&first).score, 20);
    assert_eq!(registry.get_trust_score(&second).score, 30);
}
