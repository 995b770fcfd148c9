use crate::keccakf::{keccak_f, lemma_rounds_len, KeccakF64, State};
use crate::utils::{byte_of_u64, from_u64_to_u8, from_u8_to_u64, le_u64};
use vstd::arithmetic::div_mod::lemma_fundamental_div_mod;
use vstd::prelude::*;
use vstd::slice::slice_to_vec;

verus! {

/// The all-zero state that every hash computation starts from.
pub open spec fn zero_state() -> Seq<u64> {
    Seq::new(25, |j: int| 0u64)
}

/// Xors a block, read as little-endian 64-bit words, into the first
/// `block.len() / 8` lanes; the remaining lanes are left as they are.
pub open spec fn absorb_block(s: Seq<u64>, block: Seq<u8>) -> Seq<u64> {
    Seq::new(
        25,
        |j: int|
            if j < block.len() / 8 {
                s[j] ^ le_u64(block, 8 * j)
            } else {
                s[j]
            },
    )
}

/// The state after absorbing the first `n` blocks of `rate` bytes of
/// `padded`: each block is xored in, then the permutation is applied.
pub open spec fn absorb(padded: Seq<u8>, rate: nat, n: nat) -> Seq<u64>
    decreases n,
{
    if n == 0 {
        zero_state()
    } else {
        keccak_f(
            absorb_block(
                absorb(padded, rate, (n - 1) as nat),
                padded.subrange((n - 1) * rate, (n * rate) as int),
            ),
        )
    }
}

/// The state as bytes: lane after lane, each lane little-endian.
pub open spec fn state_bytes(s: Seq<u64>) -> Seq<u8> {
    Seq::new(8 * s.len(), |i: int| byte_of_u64(s[i / 8], (i % 8) as nat))
}

/// Absorbs every block of `padded` and returns the first `out_len` bytes of
/// the final state.
pub open spec fn sponge(padded: Seq<u8>, rate: nat, out_len: nat) -> Seq<u8> {
    state_bytes(absorb(padded, rate, padded.len() / rate)).take(out_len as int)
}

/// Absorbing keeps the state at 25 lanes.
pub proof fn lemma_absorb_len(padded: Seq<u8>, rate: nat, n: nat)
    ensures
        absorb(padded, rate, n).len() == 25,
    decreases n,
{
    if n > 0 {
        lemma_absorb_len(padded, rate, (n - 1) as nat);
        let prev = absorb(padded, rate, (n - 1) as nat);
        let block = padded.subrange((n - 1) * rate, (n * rate) as int);
        lemma_rounds_len(absorb_block(prev, block), 24);
    }
}

proof fn lemma_le_u64_subrange(s: Seq<u8>, lo: int, hi: int, off: int)
    requires
        0 <= lo <= hi <= s.len(),
        0 <= off,
        off + 8 <= hi - lo,
    ensures
        le_u64(s.subrange(lo, hi), off) == le_u64(s, lo + off),
{
    let t = s.subrange(lo, hi);
    assert(t[off] == s[lo + off]);
    assert(t[off + 1] == s[lo + off + 1]);
    assert(t[off + 2] == s[lo + off + 2]);
    assert(t[off + 3] == s[lo + off + 3]);
    assert(t[off + 4] == s[lo + off + 4]);
    assert(t[off + 5] == s[lo + off + 5]);
    assert(t[off + 6] == s[lo + off + 6]);
    assert(t[off + 7] == s[lo + off + 7]);
}

/// The sponge: absorbs `padded` block by block into a zero state, then
/// returns the first `output_bytes` bytes of the state.
pub fn squeeze(padded: &[u8], rate_bytes: usize, output_bytes: usize) -> (r: Vec<u8>)
    requires
        0 < rate_bytes <= 200,
        rate_bytes % 8 == 0,
        padded.len() % rate_bytes == 0,
        output_bytes <= rate_bytes,
    ensures
        r@ == sponge(padded@, rate_bytes as nat, output_bytes as nat),
        r.len() == output_bytes,
{
    let lanes_per_block = rate_bytes / 8;
    let num_blocks = padded.len() / rate_bytes;
    proof {
        lemma_fundamental_div_mod(padded.len() as int, rate_bytes as int);
        assert(rate_bytes * num_blocks == num_blocks * rate_bytes) by (nonlinear_arith);
    }
    let padded_u64 = from_u8_to_u64(padded);
    let mut m: State = [0u64; 25];
    assert(m@ =~= absorb(padded@, rate_bytes as nat, 0));
    let mut i: usize = 0;
    while i < num_blocks
        invariant
            i <= num_blocks,
            num_blocks == padded.len() / rate_bytes,
            padded.len() == num_blocks * rate_bytes,
            rate_bytes == 8 * lanes_per_block,
            0 < lanes_per_block <= 25,
            padded_u64.len() == padded.len() / 8,
            forall|k: int|
                0 <= k < padded_u64.len() ==> padded_u64@[k] == le_u64(padded@, 8 * k),
            m@ == absorb(padded@, rate_bytes as nat, i as nat),
        decreases num_blocks - i,
    {
        let ghost base = m@;
        let ghost block = padded@.subrange(i * rate_bytes, (i + 1) * rate_bytes);
        proof {
            assert((i + 1) * rate_bytes <= num_blocks * rate_bytes) by (nonlinear_arith)
                requires
                    i < num_blocks,
            ;
            assert((i + 1) * rate_bytes == i * rate_bytes + rate_bytes) by (nonlinear_arith);
            assert(i * lanes_per_block + lanes_per_block <= num_blocks * lanes_per_block)
                by (nonlinear_arith)
                requires
                    i < num_blocks,
            ;
            assert(num_blocks * rate_bytes == 8 * (num_blocks * lanes_per_block))
                by (nonlinear_arith)
                requires
                    rate_bytes == 8 * lanes_per_block,
            ;
        }
        let mut j: usize = 0;
        while j < lanes_per_block
            invariant
                i < num_blocks,
                j <= lanes_per_block <= 25,
                rate_bytes == 8 * lanes_per_block,
                i * lanes_per_block + lanes_per_block <= padded_u64.len(),
                (i + 1) * rate_bytes <= padded.len(),
                (i + 1) * rate_bytes == i * rate_bytes + rate_bytes,
                block == padded@.subrange(i * rate_bytes, (i + 1) * rate_bytes),
                forall|k: int|
                    0 <= k < padded_u64.len() ==> padded_u64@[k] == le_u64(padded@, 8 * k),
                forall|k: int|
                    0 <= k < 25 ==> m@[k] == if k < j {
                        base[k] ^ le_u64(block, 8 * k)
                    } else {
                        base[k]
                    },
            decreases lanes_per_block - j,
        {
            proof {
                assert(8 * (i * lanes_per_block + j) == i * rate_bytes + 8 * j)
                    by (nonlinear_arith)
                    requires
                        rate_bytes == 8 * lanes_per_block,
                ;
                lemma_le_u64_subrange(
                    padded@,
                    i * rate_bytes,
                    (i + 1) * rate_bytes,
                    8 * j,
                );
            }
            m[j] = m[j] ^ padded_u64[i * lanes_per_block + j];
            j += 1;
        }
        assert(m@ =~= absorb_block(base, block));
        m = KeccakF64::keccakf(m);
        i += 1;
    }
    let lanes = slice_to_vec(m.as_slice());
    let mut out = from_u64_to_u8(&lanes);
    out.truncate(output_bytes);
    assert(padded.len() / rate_bytes == num_blocks);
    assert(out@ =~= sponge(padded@, rate_bytes as nat, output_bytes as nat));
    out
}

} // verus!
