use vstd::prelude::*;
use vstd::pervasive::VecAdditionalExecFns;
use crate::encode::encode_spec;
use crate::errors::OracleError;
use crate::guard::is_authorized;
use crate::sig::{create_message_hash, keccak_of, spec_sig_accepts, verify_signature};
use crate::types::{Address, Bytes32, U256, u256_modulus};

verus! {

/// The stored trust score of one account.
#[derive(Clone, Copy, Debug)]
pub struct TrustRecord {
    /// The score, in the domain `[0, 100]`.
    pub score: u16,
    /// Unix time at which the score was computed.
    pub timestamp: u32,
    /// Opaque identifier of the score's origin.
    pub source: Bytes32,
    /// Opaque digest referencing off-registry explanation data.
    pub metadata_hash: Bytes32,
}

/// The mathematical value of a stored record.
pub ghost struct RecordModel {
    pub score: u16,
    pub timestamp: u32,
    pub source: Seq<u8>,
    pub metadata_hash: Seq<u8>,
}

impl View for TrustRecord {
    type V = RecordModel;

    open spec fn view(&self) -> RecordModel {
        RecordModel {
            score: self.score,
            timestamp: self.timestamp,
            source: self.source@,
            metadata_hash: self.metadata_hash@,
        }
    }
}

impl RecordModel {
    /// The zero-valued record that an account reads as before any successful
    /// update.  Callers must treat it as "unknown", not as a score of 0 set
    /// by the oracle; `has_score` tells the two apart.
    pub open spec fn default_spec() -> RecordModel {
        RecordModel {
            score: 0,
            timestamp: 0,
            source: Bytes32::zero_spec(),
            metadata_hash: Bytes32::zero_spec(),
        }
    }
}

/// One account's row: identifier, stored record, and replay nonce.
#[derive(Clone, Copy, Debug)]
pub struct AccountEntry {
    pub addr: Address,
    pub record: TrustRecord,
    pub nonce: U256,
}

/// The first row for identifier `a` among `entries`, if any.
pub open spec fn find_entry(entries: Seq<AccountEntry>, a: Seq<u8>) -> Option<AccountEntry>
    decreases entries.len(),
{
    if entries.len() == 0 {
        None
    } else if entries[0].addr@ == a {
        Some(entries[0])
    } else {
        find_entry(entries.drop_first(), a)
    }
}

/// No two rows name the same account.
pub open spec fn distinct_addrs(entries: Seq<AccountEntry>) -> bool {
    forall|i: int, j: int|
        0 <= i < j < entries.len() ==> (#[trigger] entries[i]).addr@ != (#[trigger] entries[j]).addr@
}

/// A row for an absent identifier is found nowhere.
proof fn lemma_find_none_no_match(entries: Seq<AccountEntry>, a: Seq<u8>)
    requires
        find_entry(entries, a) is None,
    ensures
        forall|j: int| 0 <= j < entries.len() ==> (#[trigger] entries[j]).addr@ != a,
    decreases entries.len(),
{
    if entries.len() > 0 {
        lemma_find_none_no_match(entries.drop_first(), a);
        assert(forall|j: int|
            1 <= j < entries.len() ==> #[trigger] entries[j] == entries.drop_first()[j - 1]);
    }
}

/// Replacing the row of an account changes only that account's lookup.
proof fn lemma_find_update(entries: Seq<AccountEntry>, i: int, e: AccountEntry, b: Seq<u8>)
    requires
        0 <= i < entries.len(),
        distinct_addrs(entries),
        entries[i].addr@ == e.addr@,
    ensures
        find_entry(entries.update(i, e), b) == (if b == e.addr@ {
            Some(e)
        } else {
            find_entry(entries, b)
        }),
    decreases entries.len(),
{
    let upd = entries.update(i, e);
    if i == 0 {
        assert(upd.drop_first() =~= entries.drop_first());
    } else {
        assert(upd[0] == entries[0]);
        assert(entries[0].addr@ != e.addr@);
        assert(upd.drop_first() =~= entries.drop_first().update(i - 1, e));
        assert(forall|x: int, y: int|
            0 <= x < y < entries.drop_first().len() ==> (#[trigger] entries.drop_first()[x]).addr@
                != (#[trigger] entries.drop_first()[y]).addr@);
        lemma_find_update(entries.drop_first(), i - 1, e, b);
    }
}

/// Appending a row for a new account changes only that account's lookup.
proof fn lemma_find_push(entries: Seq<AccountEntry>, e: AccountEntry, b: Seq<u8>)
    requires
        find_entry(entries, e.addr@) is None,
    ensures
        find_entry(entries.push(e), b) == (if b == e.addr@ {
            Some(e)
        } else {
            find_entry(entries, b)
        }),
    decreases entries.len(),
{
    let ext = entries.push(e);
    if entries.len() == 0 {
        assert(ext[0] == e);
        assert(ext.drop_first() =~= Seq::<AccountEntry>::empty());
    } else {
        assert(ext[0] == entries[0]);
        assert(entries[0].addr@ != e.addr@);
        assert(ext.drop_first() =~= entries.drop_first().push(e));
        lemma_find_push(entries.drop_first(), e, b);
    }
}

/// The freshness window on an update's timestamp: not in the future, and at
/// most 3600 seconds old.
pub open spec fn fresh_timestamp(now: u64, timestamp: u32) -> bool {
    timestamp <= now && now - timestamp <= 3600
}

/// The registry: the singleton configuration and one row per account that
/// ever passed a successful update.
pub struct TrustOracle {
    /// The owner, set exactly once by `init`; `None` while uninitialized.
    pub owner: Option<Address>,
    /// The identity whose signatures authorize score updates.
    pub oracle_address: Address,
    /// The minimum score at which `is_trusted` answers `true`.
    pub trust_threshold: u16,
    /// The per-account rows, one per account, in first-touch order.
    pub accounts: Vec<AccountEntry>,
}

impl TrustOracle {
    /// The owner's identifier, if one is set.
    pub open spec fn spec_owner(self) -> Option<Seq<u8>> {
        match self.owner {
            Some(a) => Some(a@),
            None => None,
        }
    }

    /// Whether the one-way transition out of the uninitialized state happened.
    pub open spec fn is_initialized(self) -> bool {
        self.owner is Some
    }

    /// The configured oracle identity.
    pub open spec fn spec_oracle(self) -> Seq<u8> {
        self.oracle_address@
    }

    /// The configured trust threshold.
    pub open spec fn spec_threshold(self) -> u16 {
        self.trust_threshold
    }

    /// The row stored for an account, if any.
    pub open spec fn spec_entry(self, a: Seq<u8>) -> Option<AccountEntry> {
        find_entry(self.accounts@, a)
    }

    /// The record an account reads as: its stored row, or the zero-valued
    /// default before any successful update.
    pub open spec fn spec_record(self, a: Seq<u8>) -> RecordModel {
        match find_entry(self.accounts@, a) {
            Some(e) => e.record@,
            None => RecordModel::default_spec(),
        }
    }

    /// The replay nonce of an account: 0 before any successful update.
    pub open spec fn spec_nonce(self, a: Seq<u8>) -> nat {
        match find_entry(self.accounts@, a) {
            Some(e) => e.nonce.as_nat(),
            None => 0,
        }
    }

    /// The representation invariant: one row per account, and every stored
    /// score and the threshold lie in the domain `[0, 100]`.
    pub open spec fn wf(self) -> bool {
        &&& distinct_addrs(self.accounts@)
        &&& self.trust_threshold <= 100
        &&& forall|i: int|
            0 <= i < self.accounts@.len() ==> (#[trigger] self.accounts@[i]).record.score <= 100
    }

    /// This registry with another oracle identity and all else unchanged.
    pub open spec fn with_oracle(self, new_oracle: Address) -> TrustOracle {
        TrustOracle { oracle_address: new_oracle, ..self }
    }

    /// This registry with another trust threshold and all else unchanged.
    pub open spec fn with_threshold(self, new_threshold: u16) -> TrustOracle {
        TrustOracle { trust_threshold: new_threshold, ..self }
    }

    /// The digest an update for `wallet` must currently be signed over: the
    /// hash of the canonical message built with the account's current nonce.
    pub open spec fn update_digest(
        self,
        wallet: Seq<u8>,
        score: u16,
        timestamp: u32,
        source: Seq<u8>,
        metadata_hash: Seq<u8>,
    ) -> Seq<u8> {
        keccak_of(
            encode_spec(wallet, score, timestamp, source, metadata_hash, self.spec_nonce(wallet)),
        )
    }

    /// Whether an update would be accepted in this state: score in range,
    /// fresh timestamp, and a signature over the current-nonce digest that
    /// recovers to the configured oracle identity.
    pub open spec fn update_accepted(
        self,
        now: u64,
        wallet: Seq<u8>,
        score: u16,
        timestamp: u32,
        source: Seq<u8>,
        metadata_hash: Seq<u8>,
        sig: Seq<u8>,
    ) -> bool {
        &&& score <= 100
        &&& fresh_timestamp(now, timestamp)
        &&& spec_sig_accepts(
            self.update_digest(wallet, score, timestamp, source, metadata_hash),
            sig,
            self.spec_oracle(),
        )
    }

    /// The registry before initialization: no owner, the zero oracle
    /// identity, threshold 0, and no account rows.
    pub fn new() -> (s: TrustOracle)
        ensures
            s.wf(),
            !s.is_initialized(),
            s.spec_oracle() == Address::zero_spec(),
            s.spec_threshold() == 0,
            forall|a: Seq<u8>| #[trigger] s.spec_record(a) == RecordModel::default_spec(),
            forall|a: Seq<u8>| #[trigger] s.spec_nonce(a) == 0,
            forall|a: Seq<u8>| #[trigger] s.spec_entry(a) is None,
    {
        let s = TrustOracle {
            owner: None,
            oracle_address: Address::zero(),
            trust_threshold: 0,
            accounts: Vec::new(),
        };
        proof {
            assert(forall|a: Seq<u8>| #[trigger] find_entry(s.accounts@, a) is None);
        }
        s
    }

    /// The one-time bootstrap: records the caller as owner and sets the
    /// oracle identity and the trust threshold.  Fails, changing nothing,
    /// once an owner is set; there is no operation that transfers ownership
    /// later.
    pub fn init(
        &mut self,
        caller: Address,
        oracle_address: Address,
        trust_threshold: u16,
    ) -> (r: Result<(), OracleError>)
        requires
            old(self).wf(),
            trust_threshold <= 100,
        ensures
            final(self).wf(),
            r is Ok <==> !old(self).is_initialized(),
            match r {
                Ok(()) => {
                    &&& final(self).spec_owner() == Some(caller@)
                    &&& final(self).spec_oracle() == oracle_address@
                    &&& final(self).spec_threshold() == trust_threshold
                    &&& final(self).accounts == old(self).accounts
                },
                Err(e) => {
                    &&& e == OracleError::AlreadyInitialized
                    &&& *final(self) == *old(self)
                },
            },
    {
        if self.owner.is_some() {
            return Err(OracleError::AlreadyInitialized);
        }
        self.owner = Some(caller);
        self.oracle_address = oracle_address;
        self.trust_threshold = trust_threshold;
        Ok(())
    }

    /// The row index of an account, searching in row order.
    fn find_index(&self, a: &Address) -> (r: Option<usize>)
        ensures
            match r {
                Some(i) => i < self.accounts@.len() && self.accounts@[i as int].addr@ == a@
                    && find_entry(self.accounts@, a@) == Some(self.accounts@[i as int]),
                None => find_entry(self.accounts@, a@) is None,
            },
    {
        let n = self.accounts.len();
        let mut i: usize = 0;
        proof {
            assert(self.accounts@.skip(0) =~= self.accounts@);
        }
        while i < n
            invariant
                n == self.accounts@.len(),
                i <= n,
                find_entry(self.accounts@, a@) == find_entry(
                    self.accounts@.skip(i as int),
                    a@,
                ),
            decreases n - i,
        {
            let e = self.accounts[i];
            proof {
                assert(self.accounts@.skip(i as int)[0] == self.accounts@[i as int]);
            }
            if e.addr.same_as(a) {
                return Some(i);
            }
            proof {
                assert(self.accounts@.skip(i as int).drop_first() =~= self.accounts@.skip(
                    i as int + 1,
                ));
            }
            i += 1;
        }
        proof {
            assert(self.accounts@.skip(n as int) =~= Seq::<AccountEntry>::empty());
        }
        None
    }

    /// The stored record for an account; the zero-valued default if the
    /// account never passed a successful update.
    pub fn get_trust_score(&self, wallet: &Address) -> (r: TrustRecord)
        ensures
            r@ == self.spec_record(wallet@),
    {
        match self.find_index(wallet) {
            Some(i) => self.accounts[i].record,
            None => TrustRecord {
                score: 0,
                timestamp: 0,
                source: Bytes32::zero(),
                metadata_hash: Bytes32::zero(),
            },
        }
    }

    /// Whether an account's stored score reaches the trust threshold.
    pub fn is_trusted(&self, wallet: &Address) -> (r: bool)
        ensures
            r == (self.spec_record(wallet@).score >= self.spec_threshold()),
    {
        let record = self.get_trust_score(wallet);
        record.score >= self.trust_threshold
    }

    /// The configured trust threshold.
    pub fn get_trust_threshold(&self) -> (r: u16)
        ensures
            r == self.spec_threshold(),
    {
        self.trust_threshold
    }

    /// The owner's identifier, if the registry is initialized.
    pub fn get_owner(&self) -> (r: Option<Address>)
        ensures
            match r {
                Some(a) => self.spec_owner() == Some(a@),
                None => !self.is_initialized(),
            },
    {
        self.owner
    }

    /// The configured oracle identity.
    pub fn get_oracle_address(&self) -> (r: Address)
        ensures
            r@ == self.spec_oracle(),
    {
        self.oracle_address
    }

    /// The replay nonce of an account: the count of its successful updates.
    pub fn get_nonce(&self, wallet: &Address) -> (r: U256)
        ensures
            r.as_nat() == self.spec_nonce(wallet@),
    {
        match self.find_index(wallet) {
            Some(i) => self.accounts[i].nonce,
            None => U256::zero(),
        }
    }

    /// Whether the account holds a row at all: tells a stored score of 0
    /// apart from an account that was never updated.
    pub fn has_score(&self, wallet: &Address) -> (r: bool)
        ensures
            r == (self.spec_entry(wallet@) is Some),
    {
        self.find_index(wallet).is_some()
    }

    /// Validates and commits one signed score update: range check, freshness
    /// check, digest over the account's current nonce, signature recovery,
    /// and comparison against the configured oracle identity.  On success
    /// the record is replaced whole and the nonce advances by exactly 1; on
    /// failure nothing changes.
    pub fn update_score(
        &mut self,
        now: u64,
        wallet: Address,
        score: u16,
        timestamp: u32,
        source: Bytes32,
        metadata_hash: Bytes32,
        signature: Vec<u8>,
    ) -> (r: Result<(), OracleError>)
        requires
            old(self).wf(),
        ensures
            final(self).wf(),
            r is Ok <==> old(self).update_accepted(
                now,
                wallet@,
                score,
                timestamp,
                source@,
                metadata_hash@,
                signature@,
            ),
            match r {
                Ok(()) => {
                    &&& final(self).spec_owner() == old(self).spec_owner()
                    &&& final(self).spec_oracle() == old(self).spec_oracle()
                    &&& final(self).spec_threshold() == old(self).spec_threshold()
                    &&& final(self).spec_record(wallet@) == (RecordModel {
                        score,
                        timestamp,
                        source: source@,
                        metadata_hash: metadata_hash@,
                    })
                    &&& final(self).spec_nonce(wallet@) == (old(self).spec_nonce(wallet@) + 1)
                        % u256_modulus()
                    &&& forall|a: Seq<u8>|
                        a != wallet@ ==> #[trigger] final(self).spec_record(a) == old(
                            self,
                        ).spec_record(a)
                    &&& forall|a: Seq<u8>|
                        a != wallet@ ==> #[trigger] final(self).spec_nonce(a) == old(
                            self,
                        ).spec_nonce(a)
                },
                Err(e) => {
                    &&& *final(self) == *old(self)
                    &&& if score > 100 {
                        e == OracleError::InvalidScore
                    } else if !fresh_timestamp(now, timestamp) {
                        e == OracleError::StaleTimestamp
                    } else {
                        e == OracleError::InvalidSignature
                    }
                },
            },
    {
        if score > 100 {
            return Err(OracleError::InvalidScore);
        }
        if (timestamp as u64) > now || now - (timestamp as u64) > 3600 {
            return Err(OracleError::StaleTimestamp);
        }
        let idx_opt = self.find_index(&wallet);
        let nonce = match idx_opt {
            Some(i) => self.accounts[i].nonce,
            None => U256::zero(),
        };
        let digest = create_message_hash(&wallet, score, timestamp, &source, &metadata_hash, &nonce);
        let ok = match verify_signature(&digest, &signature, &self.oracle_address) {
            Ok(b) => b,
            Err(_) => false,
        };
        if !ok {
            return Err(OracleError::InvalidSignature);
        }
        let entry = AccountEntry {
            addr: wallet,
            record: TrustRecord { score, timestamp, source, metadata_hash },
            nonce: nonce.succ(),
        };
        proof {
            if nonce.as_nat() + 1 < u256_modulus() {
                vstd::arithmetic::div_mod::lemma_small_mod(
                    (nonce.as_nat() + 1) as nat,
                    u256_modulus(),
                );
            } else {
                nonce.lemma_below_modulus();
                vstd::arithmetic::div_mod::lemma_mod_self_0(u256_modulus() as int);
            }
        }
        match idx_opt {
            Some(i) => {
                let ghost entries = self.accounts@;
                self.accounts.set(i, entry);
                proof {
                    assert forall|a: Seq<u8>| #[trigger] find_entry(self.accounts@, a) == (if a
                        == wallet@ {
                        Some(entry)
                    } else {
                        find_entry(entries, a)
                    }) by {
                        lemma_find_update(entries, i as int, entry, a);
                    }
                    assert(distinct_addrs(self.accounts@)) by {
                        assert(forall|j: int|
                            0 <= j < entries.len() ==> (#[trigger] self.accounts@[j]).addr@
                                == entries[j].addr@);
                    }
                }
                Ok(())
            },
            None => {
                let ghost entries = self.accounts@;
                self.accounts.push(entry);
                proof {
                    assert forall|a: Seq<u8>| #[trigger] find_entry(self.accounts@, a) == (if a
                        == wallet@ {
                        Some(entry)
                    } else {
                        find_entry(entries, a)
                    }) by {
                        lemma_find_push(entries, entry, a);
                    }
                    lemma_find_none_no_match(entries, wallet@);
                    assert(distinct_addrs(self.accounts@)) by {
                        assert(forall|j: int|
                            0 <= j < entries.len() ==> #[trigger] self.accounts@[j] == entries[j]);
                        assert(self.accounts@[entries.len() as int] == entry);
                    }
                }
                Ok(())
            },
        }
    }

    /// Replaces the oracle identity; only the owner may do so.  The change
    /// takes effect for every later update: a signature by the old oracle,
    /// even one never submitted, no longer verifies.
    pub fn update_oracle(&mut self, caller: &Address, new_oracle: Address) -> (r: Result<
        (),
        OracleError,
    >)
        requires
            old(self).wf(),
        ensures
            final(self).wf(),
            r is Ok <==> old(self).spec_owner() == Some(caller@),
            match r {
                Ok(()) => *final(self) == old(self).with_oracle(new_oracle),
                Err(e) => e == OracleError::Unauthorized && *final(self) == *old(self),
            },
    {
        let authorized = match &self.owner {
            Some(owner) => is_authorized(caller, owner),
            None => false,
        };
        if !authorized {
            return Err(OracleError::Unauthorized);
        }
        self.oracle_address = new_oracle;
        Ok(())
    }

    /// Replaces the trust threshold; only the owner may do so, and only with
    /// a value in the domain `[0, 100]`.
    pub fn update_trust_threshold(&mut self, caller: &Address, new_threshold: u16) -> (r: Result<
        (),
        OracleError,
    >)
        requires
            old(self).wf(),
        ensures
            final(self).wf(),
            r is Ok <==> old(self).spec_owner() == Some(caller@) && new_threshold <= 100,
            match r {
                Ok(()) => *final(self) == old(self).with_threshold(new_threshold),
                Err(e) => {
                    &&& *final(self) == *old(self)
                    &&& if old(self).spec_owner() != Some(caller@) {
                        e == OracleError::Unauthorized
                    } else {
                        e == OracleError::InvalidScore
                    }
                },
            },
    {
        let authorized = match &self.owner {
            Some(owner) => is_authorized(caller, owner),
            None => false,
        };
        if !authorized {
            return Err(OracleError::Unauthorized);
        }
        if new_threshold > 100 {
            return Err(OracleError::InvalidScore);
        }
        self.trust_threshold = new_threshold;
        Ok(())
    }
}

} // verus!
