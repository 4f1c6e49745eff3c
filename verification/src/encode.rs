use vstd::prelude::*;
use vstd::arithmetic::div_mod::{
    lemma_fundamental_div_mod, lemma_fundamental_div_mod_converse, lemma_multiply_divide_lt,
};
use crate::types::{Address, Bytes32, U256, u256_modulus};

verus! {

/// 256 to the power `len`: the number of byte strings of length `len`.
pub open spec fn pow256(len: nat) -> nat
    decreases len,
{
    if len == 0 {
        1
    } else {
        256 * pow256((len - 1) as nat)
    }
}

/// The number `n` written as `len` big-endian bytes; bits beyond the
/// `len`-byte width are dropped.
pub open spec fn be_bytes(n: nat, len: nat) -> Seq<u8>
    decreases len,
{
    if len == 0 {
        Seq::empty()
    } else {
        be_bytes(n / 256, (len - 1) as nat).push((n % 256) as u8)
    }
}

/// The canonical message for an update: each field in its fixed-width
/// big-endian form, concatenated in this exact order, with no separators
/// and no length prefixes.
pub open spec fn encode_spec(
    wallet: Seq<u8>,
    score: u16,
    timestamp: u32,
    source: Seq<u8>,
    metadata_hash: Seq<u8>,
    nonce: nat,
) -> Seq<u8> {
    wallet + be_bytes(score as nat, 2) + be_bytes(timestamp as nat, 4) + source + metadata_hash
        + be_bytes(nonce, 32)
}

pub proof fn lemma_be_bytes_len(n: nat, len: nat)
    ensures
        be_bytes(n, len).len() == len,
    decreases len,
{
    if len > 0 {
        lemma_be_bytes_len(n / 256, (len - 1) as nat);
    }
}

/// The word widths this module writes out, as powers of 256.
pub proof fn lemma_pow256_words()
    ensures
        pow256(8) == 0x10000000000000000,
        pow256(16) == 0x100000000000000000000000000000000,
        pow256(24) == 0x1000000000000000000000000000000000000000000000000,
        pow256(32) == u256_modulus(),
{
    reveal_with_fuel(pow256, 33);
}

/// Writing `hi` on `hl` bytes and `lo` on `ll` bytes side by side is the
/// same as writing `hi * 256^ll + lo` on `hl + ll` bytes.
pub proof fn lemma_be_bytes_concat(hi: nat, lo: nat, hl: nat, ll: nat)
    requires
        lo < pow256(ll),
    ensures
        be_bytes(hi, hl) + be_bytes(lo, ll) == be_bytes(hi * pow256(ll) + lo, (hl + ll) as nat),
    decreases ll,
{
    if ll == 0 {
        assert(lo == 0);
        assert(hi * 1 + 0 == hi);
        assert(be_bytes(hi, hl) + be_bytes(0, 0) =~= be_bytes(hi, hl));
    } else {
        let rest = pow256((ll - 1) as nat);
        let n = hi * pow256(ll) + lo;
        let q = lo / 256;
        let r = lo % 256;
        lemma_fundamental_div_mod(lo as int, 256);
        assert(n == (hi * rest + q) * 256 + r) by (nonlinear_arith)
            requires
                n == hi * (256 * rest) + lo,
                lo == 256 * q + r,
        ;
        lemma_fundamental_div_mod_converse(n as int, 256, (hi * rest + q) as int, r as int);
        lemma_multiply_divide_lt(lo as int, 256, rest as int);
        lemma_be_bytes_concat(hi, q, hl, (ll - 1) as nat);
        assert(be_bytes(hi, hl) + be_bytes(lo, ll) =~= (be_bytes(hi, hl) + be_bytes(
            q,
            (ll - 1) as nat,
        )).push(r as u8));
    }
}

/// Two different numbers that both fit in `len` bytes have different
/// `len`-byte forms.
pub proof fn lemma_be_bytes_injective(n1: nat, n2: nat, len: nat)
    requires
        n1 < pow256(len),
        n2 < pow256(len),
        be_bytes(n1, len) == be_bytes(n2, len),
    ensures
        n1 == n2,
    decreases len,
{
    if len > 0 {
        let l1 = (len - 1) as nat;
        let s1 = be_bytes(n1 / 256, l1);
        let s2 = be_bytes(n2 / 256, l1);
        lemma_be_bytes_len(n1 / 256, l1);
        lemma_be_bytes_len(n2 / 256, l1);
        assert(s1.push((n1 % 256) as u8).last() == (n1 % 256) as u8);
        assert(s2.push((n2 % 256) as u8).last() == (n2 % 256) as u8);
        assert(n1 % 256 == n2 % 256);
        assert forall|i: int| 0 <= i < l1 implies s1[i] == s2[i] by {
            assert(s1.push((n1 % 256) as u8)[i] == s1[i]);
            assert(s2.push((n2 % 256) as u8)[i] == s2[i]);
            assert(be_bytes(n1, len)[i] == be_bytes(n2, len)[i]);
        }
        assert(s1 =~= s2);
        lemma_multiply_divide_lt(n1 as int, 256, pow256(l1) as int);
        lemma_multiply_divide_lt(n2 as int, 256, pow256(l1) as int);
        lemma_be_bytes_injective(n1 / 256, n2 / 256, l1);
        lemma_fundamental_div_mod(n1 as int, 256);
        lemma_fundamental_div_mod(n2 as int, 256);
    }
}

/// Appends the `len`-byte big-endian form of `x` to `out`.
pub fn push_be(out: &mut Vec<u8>, x: u64, len: usize)
    ensures
        final(out)@ == old(out)@ + be_bytes(x as nat, len as nat),
    decreases len,
{
    if len == 0 {
        proof {
            assert(old(out)@ + be_bytes(x as nat, 0) =~= old(out)@);
        }
    } else {
        push_be(out, x / 256, len - 1);
        out.push((x % 256) as u8);
        proof {
            assert(old(out)@ + be_bytes(x as nat, len as nat) =~= (old(out)@ + be_bytes(
                (x / 256) as nat,
                (len - 1) as nat,
            )).push((x % 256) as u8));
        }
    }
}

/// Appends the bytes of a fixed-size array to `out`.
pub fn push_array<const N: usize>(out: &mut Vec<u8>, a: &[u8; N])
    ensures
        final(out)@ == old(out)@ + a@,
{
    let ghost orig: Seq<u8> = out@;
    let mut i: usize = 0;
    while i < N
        invariant
            i <= N,
            out@ == orig + a@.subrange(0, i as int),
        decreases N - i,
    {
        let b: u8 = a[i];
        out.push(b);
        proof {
            assert(a@.subrange(0, (i + 1) as int) =~= a@.subrange(0, i as int).push(a@[i as int]));
            assert(out@ =~= orig + a@.subrange(0, (i + 1) as int));
        }
        i += 1;
    }
    proof {
        assert(a@.subrange(0, N as int) =~= a@);
    }
}

/// Appends the 32-byte big-endian form of a 256-bit value to `out`.
pub fn push_be_u256(out: &mut Vec<u8>, x: &U256)
    ensures
        final(out)@ == old(out)@ + be_bytes(x.as_nat(), 32),
{
    let ghost orig: Seq<u8> = out@;
    push_be(out, x.w0, 8);
    push_be(out, x.w1, 8);
    push_be(out, x.w2, 8);
    push_be(out, x.w3, 8);
    proof {
        lemma_pow256_words();
        let n01 = x.w0 * 0x10000000000000000 + x.w1;
        let n012 = n01 * 0x10000000000000000 + x.w2;
        let n0123 = n012 * 0x10000000000000000 + x.w3;
        lemma_be_bytes_concat(x.w0 as nat, x.w1 as nat, 8, 8);
        lemma_be_bytes_concat(n01 as nat, x.w2 as nat, 16, 8);
        lemma_be_bytes_concat(n012 as nat, x.w3 as nat, 24, 8);
        assert(n0123 == x.as_nat());
        assert(orig + be_bytes(x.w0 as nat, 8) + be_bytes(x.w1 as nat, 8) =~= orig + (be_bytes(
            x.w0 as nat,
            8,
        ) + be_bytes(x.w1 as nat, 8)));
        assert(orig + be_bytes(n01 as nat, 16) + be_bytes(x.w2 as nat, 8) =~= orig + (be_bytes(
            n01 as nat,
            16,
        ) + be_bytes(x.w2 as nat, 8)));
        assert(orig + be_bytes(n012 as nat, 24) + be_bytes(x.w3 as nat, 8) =~= orig + (be_bytes(
            n012 as nat,
            24,
        ) + be_bytes(x.w3 as nat, 8)));
    }
}

/// Builds the canonical message for an update in one byte vector.
pub fn encode_message(
    wallet: &Address,
    score: u16,
    timestamp: u32,
    source: &Bytes32,
    metadata_hash: &Bytes32,
    nonce: &U256,
) -> (msg: Vec<u8>)
    ensures
        msg@ == encode_spec(wallet@, score, timestamp, source@, metadata_hash@, nonce.as_nat()),
{
    let mut msg: Vec<u8> = Vec::new();
    push_array(&mut msg, &wallet.bytes);
    push_be(&mut msg, score as u64, 2);
    push_be(&mut msg, timestamp as u64, 4);
    push_array(&mut msg, &source.bytes);
    push_array(&mut msg, &metadata_hash.bytes);
    push_be_u256(&mut msg, nonce);
    proof {
        assert(msg@ =~= encode_spec(
            wallet@,
            score,
            timestamp,
            source@,
            metadata_hash@,
            nonce.as_nat(),
        ));
    }
    msg
}

} // verus!
