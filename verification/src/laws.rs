use vstd::prelude::*;
use crate::encode::{
    be_bytes, encode_spec, lemma_be_bytes_injective, lemma_be_bytes_len, lemma_pow256_words,
};
use crate::registry::{TrustOracle, find_entry};
use crate::sig::{spec_pubkey_address, spec_recovered, spec_sig_shape};
use crate::types::{Address, Bytes32, u256_modulus};

verus! {

/// Replay protection at the message level.  The canonical message binds the
/// account's nonce: the same update fields encoded with two different nonces
/// give two different messages.  Once an account's stored nonce has advanced
/// past `N`, the digest checked against an incoming signature is the hash of
/// a different message than the one a nonce-`N` signature was made over, so
/// accepting the replay would take a digest collision or a spurious
/// recovery coincidence between distinct messages.
pub proof fn lemma_message_binds_nonce(
    wallet: Seq<u8>,
    score: u16,
    timestamp: u32,
    source: Seq<u8>,
    metadata_hash: Seq<u8>,
    n1: nat,
    n2: nat,
)
    requires
        n1 < u256_modulus(),
        n2 < u256_modulus(),
        n1 != n2,
    ensures
        encode_spec(wallet, score, timestamp, source, metadata_hash, n1) != encode_spec(
            wallet,
            score,
            timestamp,
            source,
            metadata_hash,
            n2,
        ),
{
    lemma_pow256_words();
    let e1 = encode_spec(wallet, score, timestamp, source, metadata_hash, n1);
    let e2 = encode_spec(wallet, score, timestamp, source, metadata_hash, n2);
    lemma_be_bytes_len(score as nat, 2);
    lemma_be_bytes_len(timestamp as nat, 4);
    lemma_be_bytes_len(n1, 32);
    lemma_be_bytes_len(n2, 32);
    if e1 == e2 {
        let pl: nat = wallet.len() + 2 + 4 + source.len() + metadata_hash.len();
        assert forall|i: int| 0 <= i < 32 implies be_bytes(n1, 32)[i] == be_bytes(n2, 32)[i] by {
            assert(e1[pl + i] == be_bytes(n1, 32)[i]);
            assert(e2[pl + i] == be_bytes(n2, 32)[i]);
        }
        assert(be_bytes(n1, 32) =~= be_bytes(n2, 32));
        lemma_be_bytes_injective(n1, n2, 32);
    }
}

/// Replay protection at the state level.  Whenever an account's stored
/// nonce is not `n`, and in particular once it has advanced past `n`, the
/// message whose digest `update_score` checks a signature against is not
/// the message a nonce-`n` signature was made over.
pub proof fn lemma_replay_checks_other_message(
    s: TrustOracle,
    wallet: Address,
    score: u16,
    timestamp: u32,
    source: Bytes32,
    metadata_hash: Bytes32,
    n: nat,
)
    requires
        n < u256_modulus(),
        s.spec_nonce(wallet@) != n,
    ensures
        encode_spec(wallet@, score, timestamp, source@, metadata_hash@, n) != encode_spec(
            wallet@,
            score,
            timestamp,
            source@,
            metadata_hash@,
            s.spec_nonce(wallet@),
        ),
{
    match find_entry(s.accounts@, wallet@) {
        Some(e) => e.nonce.lemma_below_modulus(),
        None => (),
    }
    lemma_message_binds_nonce(
        wallet@,
        score,
        timestamp,
        source@,
        metadata_hash@,
        n,
        s.spec_nonce(wallet@),
    );
}

/// Key rotation cuts off the old oracle at once.  In a state where an update
/// is accepted because its signature recovers to the configured oracle,
/// replacing the oracle identity with a different one makes that same update
/// unacceptable, even though it was never submitted; an update whose
/// signature recovers to the new identity, with the other checks equal, is
/// accepted.  Rotation leaves every nonce unchanged, so both claims concern
/// the digest for the same, current nonce.
pub proof fn lemma_oracle_rotation(
    s: TrustOracle,
    new_oracle: Address,
    now: u64,
    wallet: Address,
    score: u16,
    timestamp: u32,
    source: Bytes32,
    metadata_hash: Bytes32,
    old_sig: Seq<u8>,
    new_sig: Seq<u8>,
)
    requires
        s.update_accepted(now, wallet@, score, timestamp, source@, metadata_hash@, old_sig),
        new_oracle@ != s.spec_oracle(),
        spec_sig_shape(new_sig),
        match spec_recovered(
            s.update_digest(wallet@, score, timestamp, source@, metadata_hash@),
            new_sig,
        ) {
            Some(pk) => spec_pubkey_address(pk) == new_oracle@,
            None => false,
        },
    ensures
        !s.with_oracle(new_oracle).update_accepted(
            now,
            wallet@,
            score,
            timestamp,
            source@,
            metadata_hash@,
            old_sig,
        ),
        s.with_oracle(new_oracle).update_accepted(
            now,
            wallet@,
            score,
            timestamp,
            source@,
            metadata_hash@,
            new_sig,
        ),
{
    let t = s.with_oracle(new_oracle);
    assert(t.spec_nonce(wallet@) == s.spec_nonce(wallet@));
    assert(t.update_digest(wallet@, score, timestamp, source@, metadata_hash@) == s.update_digest(
        wallet@,
        score,
        timestamp,
        source@,
        metadata_hash@,
    ));
}

} // verus!
