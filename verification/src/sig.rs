use vstd::prelude::*;
use crate::encode::{encode_message, encode_spec};
use crate::errors::OracleError;
use crate::types::{Address, Bytes32, U256};

verus! {

/// The Keccak-256 digest of a byte string.  The digest is a function of the
/// input bytes alone; its 32-byte value is not restated here.
pub uninterp spec fn keccak_of(data: Seq<u8>) -> Seq<u8>;

/// The public key (64 bytes, the two curve coordinates) that ECDSA recovery
/// over secp256k1 yields for a digest, a recovery id and the two signature
/// scalars, or nothing when recovery fails.  The result is a function of
/// these four values alone.
pub uninterp spec fn recover_of(digest: Seq<u8>, rid: u8, r: Seq<u8>, s: Seq<u8>) -> Option<
    Seq<u8>,
>;

/// Relies on `stylus_sdk::crypto::keccak` (`alloy_primitives::keccak256`):
/// the Keccak-256 digest of the input bytes, 32 bytes long.
#[verifier::external_body]
fn keccak256(data: &Vec<u8>) -> (digest: [u8; 32])
    ensures
        digest@ == keccak_of(data@),
{
    stylus_sdk::crypto::keccak(data.as_slice()).0
}

/// Relies on `k256::ecdsa::VerifyingKey::recover_from_prehash`: ECDSA
/// public-key recovery over secp256k1.  The result is a function of the
/// digest, the recovery id and the 64 signature bytes alone; on success the
/// key is handed out in its uncompressed form without the format tag byte.
#[verifier::external_body]
fn recover_pubkey(digest: &[u8; 32], rid: u8, signature: &Vec<u8>) -> (out: Option<Vec<u8>>)
    requires
        signature@.len() >= 64,
    ensures
        match out {
            Some(pk) => pk@.len() == 64 && recover_of(
                digest@,
                rid,
                signature@.subrange(0, 32),
                signature@.subrange(32, 64),
            ) == Some(pk@),
            None => recover_of(
                digest@,
                rid,
                signature@.subrange(0, 32),
                signature@.subrange(32, 64),
            ) is None,
        },
{
    let sig = k256::ecdsa::Signature::from_slice(&signature[0..64]).ok()?;
    let rec_id = k256::ecdsa::RecoveryId::from_byte(rid)?;
    let key = k256::ecdsa::VerifyingKey::recover_from_prehash(digest, &sig, rec_id).ok()?;
    let point = k256::elliptic_curve::sec1::ToSec1Point::to_sec1_point(key.as_affine(), false);
    Some(point.as_bytes()[1..].to_vec())
}

/// A signature has the expected shape: 65 bytes, the last one a recovery
/// indicator of 27 or 28.
pub open spec fn spec_sig_shape(sig: Seq<u8>) -> bool {
    sig.len() == 65 && (sig[64] == 27 || sig[64] == 28)
}

/// The recovery id that a 27-or-28 recovery indicator stands for.
pub open spec fn spec_rid(v: u8) -> u8 {
    if v == 27 {
        0
    } else {
        1
    }
}

/// What recovery yields for a digest and a well-shaped 65-byte signature.
pub open spec fn spec_recovered(digest: Seq<u8>, sig: Seq<u8>) -> Option<Seq<u8>> {
    recover_of(digest, spec_rid(sig[64]), sig.subrange(0, 32), sig.subrange(32, 64))
}

/// The account identifier a public key stands for: the last 20 bytes of the
/// key's Keccak-256 digest.
pub open spec fn spec_pubkey_address(pk: Seq<u8>) -> Seq<u8> {
    keccak_of(pk).subrange(12, 32)
}

/// Verification fails outright: the signature is malformed (wrong length or
/// an unknown recovery indicator) or the recovery operation yields no key.
pub open spec fn spec_sig_error(digest: Seq<u8>, sig: Seq<u8>) -> bool {
    !spec_sig_shape(sig) || spec_recovered(digest, sig) is None
}

/// Verification succeeds and the recovered key names the expected identity.
pub open spec fn spec_sig_accepts(digest: Seq<u8>, sig: Seq<u8>, expected: Seq<u8>) -> bool {
    spec_sig_shape(sig) && match spec_recovered(digest, sig) {
        Some(pk) => spec_pubkey_address(pk) == expected,
        None => false,
    }
}

/// Whether a recovered public key names the expected account identifier.
pub fn pubkey_matches(pk: &Vec<u8>, expected: &Address) -> (r: bool)
    ensures
        r == (spec_pubkey_address(pk@) == expected@),
{
    let digest = keccak256(pk);
    let ghost addr: Seq<u8> = spec_pubkey_address(pk@);
    proof {
        assert(addr.len() == 20);
    }
    let mut i: usize = 0;
    while i < 20
        invariant
            i <= 20,
            digest@ == keccak_of(pk@),
            addr == spec_pubkey_address(pk@),
            addr.len() == 20,
            forall|j: int| 0 <= j < i ==> addr[j] == expected@[j],
        decreases 20 - i,
    {
        if digest[12 + i] != expected.bytes[i] {
            assert(addr[i as int] == digest@[12 + i as int]);
            return false;
        }
        assert(addr[i as int] == digest@[12 + i as int]);
        i += 1;
    }
    proof {
        assert(addr =~= expected@);
    }
    true
}

/// Attempts recovery of the signer for `digest` from a 65-byte signature and
/// reports whether it names `expected`.  A malformed signature or a failing
/// recovery is an error; a well-formed signature by some other key is a
/// clean `false`.
pub fn verify_signature(digest: &[u8; 32], signature: &Vec<u8>, expected: &Address) -> (r: Result<
    bool,
    OracleError,
>)
    ensures
        match r {
            Ok(b) => !spec_sig_error(digest@, signature@) && b == spec_sig_accepts(
                digest@,
                signature@,
                expected@,
            ),
            Err(e) => e == OracleError::InvalidSignature && spec_sig_error(digest@, signature@),
        },
{
    if signature.len() != 65 {
        return Err(OracleError::InvalidSignature);
    }
    let v: u8 = signature[64];
    let rid: u8 = if v == 27 {
        0
    } else if v == 28 {
        1
    } else {
        return Err(OracleError::InvalidSignature);
    };
    match recover_pubkey(digest, rid, signature) {
        Some(pk) => Ok(pubkey_matches(&pk, expected)),
        None => Err(OracleError::InvalidSignature),
    }
}

/// The digest an update must be signed over: the Keccak-256 hash of the
/// canonical message for these fields and this nonce.
pub fn create_message_hash(
    wallet: &Address,
    score: u16,
    timestamp: u32,
    source: &Bytes32,
    metadata_hash: &Bytes32,
    nonce: &U256,
) -> (digest: [u8; 32])
    ensures
        digest@ == keccak_of(
            encode_spec(wallet@, score, timestamp, source@, metadata_hash@, nonce.as_nat()),
        ),
{
    let msg = encode_message(wallet, score, timestamp, source, metadata_hash, nonce);
    keccak256(&msg)
}

} // verus!
