pub mod keccak;
pub mod keccak256;
pub mod keccakf;
pub mod padding_rules;
pub mod params;
pub mod sponge;
pub mod utils;

use crate::keccak::{keccak_hash, Keccak};
use vstd::prelude::*;

verus! {

/// Keccak-256 of `input`, with the classic delimiter.
pub fn keccak256(input: &[u8]) -> (r: Vec<u8>)
    requires
        input.len() <= usize::MAX - 200,
    ensures
        r@ == keccak_hash(256, input@),
        r.len() == 32,
{
    let keccak = Keccak::v256();
    keccak.hash_64bits(input)
}

} // verus!
