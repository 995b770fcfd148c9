use crate::keccak::{is_supported_output_bits, keccak_hash};
use crate::padding_rules::{lemma_pad_length, padding};
use crate::params::KECCAK_RATE;
use crate::sponge::squeeze;
use crate::utils::{bits_to_rate, rate_of};
use vstd::prelude::*;

verus! {

/// A hash configuration that runs the sponge block by block.
#[derive(Clone)]
pub struct Keccak {
    // The block length (in bytes) of the sponge construction.
    rate: usize,
    // The output length in bits.
    output_bits_len: usize,
}

impl Keccak {
    /// The output length in bits.
    pub closed spec fn output_bits(&self) -> nat {
        self.output_bits_len as nat
    }

    /// The block length of the sponge in bytes.
    pub closed spec fn rate_bytes(&self) -> nat {
        self.rate as nat
    }

    pub open spec fn wf(&self) -> bool {
        &&& is_supported_output_bits(self.output_bits() as int)
        &&& self.rate_bytes() == rate_of(self.output_bits() as int)
    }

    pub fn v256() -> (r: Keccak)
        ensures
            r.wf(),
            r.output_bits() == 256,
    {
        Keccak::new(256)
    }

    pub fn new(output_bits_len: usize) -> (r: Self)
        requires
            is_supported_output_bits(output_bits_len as int),
        ensures
            r.wf(),
            r.output_bits() == output_bits_len,
    {
        Self { rate: bits_to_rate(output_bits_len), output_bits_len }
    }

    /// Hashes `input` to `output_bits() / 8` bytes.
    pub fn keccak256(&self, input: &[u8]) -> (r: Vec<u8>)
        requires
            self.wf(),
            input.len() <= usize::MAX - 200,
        ensures
            r@ == keccak_hash(self.output_bits(), input@),
    {
        let block_size = self.rate;
        proof {
            lemma_pad_length(input@, block_size as nat);
        }
        let padded = padding(input, block_size);
        squeeze(padded.as_slice(), block_size, self.output_bits_len / 8)
    }
}

/// Keccak-256 of `input`: blocks of 136 bytes, 32 bytes of output.
pub fn keccak256(input: &[u8]) -> (r: Vec<u8>)
    requires
        input.len() <= usize::MAX - 200,
    ensures
        r@ == keccak_hash(256, input@),
{
    let block_size = KECCAK_RATE;
    proof {
        lemma_pad_length(input@, block_size as nat);
    }
    let padded = padding(input, block_size);
    squeeze(padded.as_slice(), block_size, 32)
}

} // verus!
