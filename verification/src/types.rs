use vstd::prelude::*;

verus! {

/// A 20-byte account identifier, the canonical form of an address.
#[derive(Clone, Copy, Debug)]
pub struct Address {
    pub bytes: [u8; 20],
}

impl View for Address {
    type V = Seq<u8>;

    open spec fn view(&self) -> Seq<u8> {
        self.bytes@
    }
}

impl Address {
    /// The identifier made of the given 20 bytes.
    pub fn new(bytes: [u8; 20]) -> (a: Address)
        ensures
            a@ == bytes@,
    {
        Address { bytes }
    }

    /// The all-zero identifier, the state of an unset address slot.
    pub open spec fn zero_spec() -> Seq<u8> {
        Seq::new(20, |i: int| 0u8)
    }

    /// The all-zero identifier.
    pub fn zero() -> (a: Address)
        ensures
            a@ == Address::zero_spec(),
    {
        let a = Address { bytes: [0u8; 20] };
        proof {
            assert(a@ =~= Address::zero_spec());
        }
        a
    }

    /// Whether the two identifiers hold the same bytes.
    pub fn same_as(&self, other: &Address) -> (r: bool)
        ensures
            r == (self@ == other@),
    {
        let mut i: usize = 0;
        while i < 20
            invariant
                i <= 20,
                forall|j: int| 0 <= j < i ==> self.bytes@[j] == other.bytes@[j],
            decreases 20 - i,
        {
            if self.bytes[i] != other.bytes[i] {
                assert(self@[i as int] != other@[i as int]);
                return false;
            }
            i += 1;
        }
        proof {
            assert(self@ =~= other@);
        }
        true
    }
}

/// An opaque 32-byte value: a source identifier or a metadata digest.
#[derive(Clone, Copy, Debug)]
pub struct Bytes32 {
    pub bytes: [u8; 32],
}

impl View for Bytes32 {
    type V = Seq<u8>;

    open spec fn view(&self) -> Seq<u8> {
        self.bytes@
    }
}

impl Bytes32 {
    /// The value made of the given 32 bytes.
    pub fn new(bytes: [u8; 32]) -> (b: Bytes32)
        ensures
            b@ == bytes@,
    {
        Bytes32 { bytes }
    }

    /// The all-zero value, the state of an unset 32-byte slot.
    pub open spec fn zero_spec() -> Seq<u8> {
        Seq::new(32, |i: int| 0u8)
    }

    /// The all-zero value.
    pub fn zero() -> (b: Bytes32)
        ensures
            b@ == Bytes32::zero_spec(),
    {
        let b = Bytes32 { bytes: [0u8; 32] };
        proof {
            assert(b@ =~= Bytes32::zero_spec());
        }
        b
    }
}

/// An unsigned 256-bit integer held as four 64-bit words, most significant
/// first.  Nonces have this width so that a nonce never repeats in practice.
#[derive(Clone, Copy, PartialEq, Eq, Structural, Debug)]
pub struct U256 {
    pub w0: u64,
    pub w1: u64,
    pub w2: u64,
    pub w3: u64,
}

/// One more than the largest value a 256-bit integer can hold.
pub open spec fn u256_modulus() -> nat {
    0x10000000000000000000000000000000000000000000000000000000000000000nat
}

impl U256 {
    /// The number this value stands for.
    pub open spec fn as_nat(self) -> nat {
        (self.w0 * 0x1000000000000000000000000000000000000000000000000int
            + self.w1 * 0x100000000000000000000000000000000int + self.w2 * 0x10000000000000000int
            + self.w3) as nat
    }

    /// Zero.
    pub fn zero() -> (r: U256)
        ensures
            r.as_nat() == 0,
    {
        U256 { w0: 0, w1: 0, w2: 0, w3: 0 }
    }

    /// The 256-bit value of a 64-bit number.
    pub fn from_u64(x: u64) -> (r: U256)
        ensures
            r.as_nat() == x,
    {
        U256 { w0: 0, w1: 0, w2: 0, w3: x }
    }

    /// Every value lies below the modulus.
    pub proof fn lemma_below_modulus(self)
        ensures
            self.as_nat() < u256_modulus(),
    {
    }

    /// The next value, wrapping to zero only above the 256-bit maximum.
    pub fn succ(self) -> (r: U256)
        ensures
            r.as_nat() == if self.as_nat() + 1 < u256_modulus() {
                self.as_nat() + 1
            } else {
                0
            },
    {
        if self.w3 < u64::MAX {
            U256 { w3: self.w3 + 1, ..self }
        } else if self.w2 < u64::MAX {
            U256 { w2: self.w2 + 1, w3: 0, ..self }
        } else if self.w1 < u64::MAX {
            U256 { w1: self.w1 + 1, w2: 0, w3: 0, ..self }
        } else if self.w0 < u64::MAX {
            U256 { w0: self.w0 + 1, w1: 0, w2: 0, w3: 0 }
        } else {
            U256 { w0: 0, w1: 0, w2: 0, w3: 0 }
        }
    }
}

} // verus!
