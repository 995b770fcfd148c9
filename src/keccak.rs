use crate::padding_rules::{lemma_pad_length, pad, padding};
use crate::sponge::{lemma_absorb_len, squeeze, sponge};
use crate::utils::{bits_to_rate, rate_of};
use vstd::prelude::*;

verus! {

/// The output lengths, in bits, that the hash supports.
pub open spec fn is_supported_output_bits(bits: int) -> bool {
    bits == 256 || bits == 384 || bits == 512
}

/// Classic Keccak with an output of `bits` bits: pad the input to blocks of
/// `200 - bits / 4` bytes, absorb them, and keep the first `bits / 8` bytes.
pub open spec fn keccak_hash(bits: nat, input: Seq<u8>) -> Seq<u8> {
    let rate = rate_of(bits as int) as nat;
    sponge(pad(input, rate), rate, bits / 8)
}

/// The only error of the hash: an output length that is not supported.
#[derive(Debug, Clone, Copy, PartialEq, Eq)]
pub enum KeccakError {
    InvalidParameter,
}

/// A hash configuration: the sponge's rate and the output length.
#[derive(Clone)]
pub struct Keccak {
    // The block length (in bytes) of the sponge construction.
    rate: usize,
    // The output length in bits.
    output_bits_len: usize,
}

impl Keccak {
    /// The output length in bits.
    pub closed spec fn output_bits(&self) -> nat {
        self.output_bits_len as nat
    }

    /// The block length of the sponge in bytes.
    pub closed spec fn rate_bytes(&self) -> nat {
        self.rate as nat
    }

    pub open spec fn wf(&self) -> bool {
        &&& is_supported_output_bits(self.output_bits() as int)
        &&& self.rate_bytes() == rate_of(self.output_bits() as int)
    }

    pub fn v256() -> (r: Keccak)
        ensures
            r.wf(),
            r.output_bits() == 256,
    {
        Keccak::new(256)
    }

    pub fn v384() -> (r: Keccak)
        ensures
            r.wf(),
            r.output_bits() == 384,
    {
        Keccak::new(384)
    }

    pub fn v512() -> (r: Keccak)
        ensures
            r.wf(),
            r.output_bits() == 512,
    {
        Keccak::new(512)
    }

    pub fn new(output_bits_len: usize) -> (r: Self)
        requires
            is_supported_output_bits(output_bits_len as int),
        ensures
            r.wf(),
            r.output_bits() == output_bits_len,
    {
        Self { rate: bits_to_rate(output_bits_len), output_bits_len }
    }

    /// Hashes `input` on a state of 25 64-bit lanes.
    pub fn hash_64bits(&self, input: &[u8]) -> (r: Vec<u8>)
        requires
            self.wf(),
            input.len() <= usize::MAX - 200,
        ensures
            r@ == keccak_hash(self.output_bits(), input@),
            r.len() == self.output_bits() / 8,
    {
        proof {
            lemma_pad_length(input@, self.rate as nat);
        }
        let padded = padding(input, self.rate);
        squeeze(padded.as_slice(), self.rate, self.output_bits_len / 8)
    }
}

pub fn u8_xor(a: u8, b: u8) {
}

/// Hashes `input` with classic Keccak to `output_bits` bits, which must be
/// 256, 384 or 512.
pub fn hash(output_bits: usize, input: &[u8]) -> (r: Result<Vec<u8>, KeccakError>)
    requires
        input.len() <= usize::MAX - 200,
    ensures
        match r {
            Ok(out) => is_supported_output_bits(output_bits as int) && out@ == keccak_hash(
                output_bits as nat,
                input@,
            ) && out.len() == output_bits / 8,
            Err(e) => !is_supported_output_bits(output_bits as int) && e
                == KeccakError::InvalidParameter,
        },
{
    if output_bits != 256 && output_bits != 384 && output_bits != 512 {
        return Err(KeccakError::InvalidParameter);
    }
    let keccak = Keccak::new(output_bits);
    Ok(keccak.hash_64bits(input))
}

/// The hash is a function of the output length and the input alone: equal
/// inputs give equal digests.
pub proof fn lemma_hash_deterministic(bits: nat, x: Seq<u8>, y: Seq<u8>)
    requires
        is_supported_output_bits(bits as int),
        x == y,
    ensures
        keccak_hash(bits, x) == keccak_hash(bits, y),
{
}

/// A digest of `bits` bits is `bits / 8` bytes long, whatever the input.
pub proof fn lemma_hash_length(bits: nat, x: Seq<u8>)
    requires
        is_supported_output_bits(bits as int),
    ensures
        keccak_hash(bits, x).len() == bits / 8,
{
    let rate = rate_of(bits as int) as nat;
    let padded = pad(x, rate);
    lemma_absorb_len(padded, rate, padded.len() / rate);
}

} // verus!
