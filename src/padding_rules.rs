use crate::params::KECCAK_F_DELIM;
use vstd::arithmetic::div_mod::{lemma_fundamental_div_mod, lemma_mod_multiples_basic};
use vstd::prelude::*;
use vstd::slice::slice_to_vec;

verus! {

/// Length of a message of `n` bytes after padding to blocks of `r` bytes:
/// the least multiple of `r` strictly greater than `n`.
pub open spec fn padded_len(n: nat, r: nat) -> nat {
    ((n / r + 1) * r) as nat
}

/// The pad10*1 rule with the classic delimiter: the message, then the
/// delimiter byte, then zero bytes up to a whole number of blocks, with
/// `0x80` xored into the last byte (so a single padding byte is `0x81`).
pub open spec fn pad(x: Seq<u8>, r: nat) -> Seq<u8> {
    let total = padded_len(x.len(), r);
    Seq::new(
        total,
        |i: int|
            if i < x.len() {
                x[i]
            } else {
                (if i == x.len() {
                    KECCAK_F_DELIM
                } else {
                    0u8
                }) ^ (if i == total - 1 {
                    0x80u8
                } else {
                    0u8
                })
            },
    )
}

/// The padded length is a whole number of blocks, and padding never adds
/// nothing: it is strictly longer than the message.
pub proof fn lemma_pad_length(x: Seq<u8>, r: nat)
    requires
        r > 0,
    ensures
        pad(x, r).len() % r == 0,
        pad(x, r).len() > x.len(),
        pad(x, r).len() <= x.len() + r,
{
    let n = x.len() as int;
    let q = n / (r as int);
    lemma_fundamental_div_mod(n, r as int);
    lemma_mod_multiples_basic(q + 1, r as int);
    assert((q + 1) * (r as int) == q * (r as int) + r) by (nonlinear_arith);
    assert((r as int) * q == q * (r as int)) by (nonlinear_arith);
}

/// A message whose length is already a whole number of blocks gets a whole
/// extra block of padding, which starts with the delimiter.
pub proof fn lemma_pad_full_block(x: Seq<u8>, r: nat)
    requires
        r > 0,
        x.len() % r == 0,
    ensures
        pad(x, r).len() == x.len() + r,
        pad(x, r).subrange(0, x.len() as int) == x,
{
    let n = x.len() as int;
    let q = n / (r as int);
    lemma_fundamental_div_mod(n, r as int);
    assert((q + 1) * (r as int) == q * (r as int) + r) by (nonlinear_arith);
    assert((r as int) * q == q * (r as int)) by (nonlinear_arith);
    assert(pad(x, r).subrange(0, x.len() as int) =~= x);
}

/// Pads `input` to a whole number of blocks of `block_size` bytes with the
/// pad10*1 rule and the delimiter `0x01`.
pub fn padding(input: &[u8], block_size: usize) -> (r: Vec<u8>)
    requires
        block_size > 0,
        padded_len(input.len() as nat, block_size as nat) <= usize::MAX,
    ensures
        r@ == pad(input@, block_size as nat),
{
    proof {
        let q = input.len() as int / block_size as int;
        assert((q + 1) * block_size as int >= q + 1) by (nonlinear_arith)
            requires
                block_size > 0,
                q >= 0,
        ;
    }
    let num_blocks = input.len() / block_size + 1;
    proof {
        lemma_pad_length(input@, block_size as nat);
        assert(block_size * num_blocks == (num_blocks * block_size)) by (nonlinear_arith);
    }
    let target_len = block_size * num_blocks;
    let mut padded = slice_to_vec(input);
    padded.push(KECCAK_F_DELIM);
    while padded.len() < target_len
        invariant
            input.len() < padded.len() <= target_len,
            target_len == pad(input@, block_size as nat).len(),
            padded@.subrange(0, input.len() as int) == input@,
            padded@[input.len() as int] == KECCAK_F_DELIM,
            forall|i: int| input.len() < i < padded.len() ==> padded@[i] == 0u8,
        decreases target_len - padded.len(),
    {
        padded.push(0);
    }
    let last = target_len - 1;
    let v = padded[last] ^ 0x80;
    padded.set(last, v);
    proof {
        let spec = pad(input@, block_size as nat);
        assert forall|i: int| 0 <= i < target_len implies padded@[i] == spec[i] by {
            if i < input.len() {
                assert(padded@[i] == padded@.subrange(0, input.len() as int)[i]);
            } else if i < last {
                if i == input.len() {
                    assert(KECCAK_F_DELIM ^ 0u8 == KECCAK_F_DELIM) by (bit_vector);
                } else {
                    assert(0u8 ^ 0u8 == 0u8) by (bit_vector);
                }
            } else if i > input.len() {
                assert(0u8 ^ 0x80u8 == 0x80u8) by (bit_vector);
            }
        }
        assert(padded@ =~= spec);
    }
    padded
}

} // verus!
