use crate::keccakf::{KeccakF32, KeccakF64};
use vstd::prelude::*;

verus! {

/// Width of the Keccak-f[1600] state in bits.
pub const WIDTH: usize = 1600;

/// Width of the state in bytes.
pub const WIDTH_IN_BYTES: usize = 200;

/// Number of 64-bit lanes in the state.
pub const WIDTH_IN_WORDS: usize = 25;

/// Number of 32-bit words in the state.
pub const WIDTH_IN_U32: usize = 50;

/// Number of rounds of Keccak-f[1600].
pub const ROUNDS: usize = 24;

/// Domain-separation delimiter of classic Keccak.
pub const KECCAK_F_DELIM: u8 = 0x01;

/// Rate in bytes of the 256-bit configuration.
pub const KECCAK_RATE: usize = 136;

impl KeccakF64 {
    /// Rotation offsets of the rho step, indexed by lane position `x + 5 * y`.
    pub const ROTR: [usize; 25] = [
        0, 1, 62, 28, 27, 36, 44, 6, 55, 20, 3, 10, 43, 25, 39, 41, 45, 15, 21, 8, 18, 2, 61, 56,
        14,
    ];

    /// Round constants of the iota step, one per round.
    pub const RC_64_BITS: [u64; 24] = [
        1,
        0x8082,
        0x800000000000808a,
        0x8000000080008000,
        0x808b,
        0x80000001,
        0x8000000080008081,
        0x8000000000008009,
        0x8a,
        0x88,
        0x80008009,
        0x8000000a,
        0x8000808b,
        0x800000000000008b,
        0x8000000000008089,
        0x8000000000008003,
        0x8000000000008002,
        0x8000000000000080,
        0x800a,
        0x800000008000000a,
        0x8000000080008081,
        0x8000000000008080,
        0x80000001,
        0x8000000080008008,
    ];
}

impl KeccakF32 {
    /// Rotation offsets of the rho step, indexed by lane position `x + 5 * y`.
    pub const ROTR: [usize; 25] = [
        0, 1, 62, 28, 27, 36, 44, 6, 55, 20, 3, 10, 43, 25, 39, 41, 45, 15, 21, 8, 18, 2, 61, 56,
        14,
    ];

    /// Round constants in bit-interleaved form: for each round, the word of
    /// even bits followed by the word of odd bits.
    pub const RC_32_BITS: [u32; 48] = [
        0x00000001, 0x00000000, 0x00000000, 0x00000089, 0x00000000, 0x8000008B, 0x00000000,
        0x80008080, 0x00000001, 0x0000008B, 0x00000001, 0x00008000, 0x00000001, 0x80008088,
        0x00000001, 0x80000082, 0x00000000, 0x0000000B, 0x00000000, 0x0000000A, 0x00000001,
        0x00008082, 0x00000000, 0x00008003, 0x00000001, 0x0000808B, 0x00000001, 0x8000000B,
        0x00000001, 0x8000008A, 0x00000001, 0x80000081, 0x00000000, 0x80000081, 0x00000000,
        0x80000008, 0x00000000, 0x00000083, 0x00000000, 0x80008003, 0x00000001, 0x80008088,
        0x00000000, 0x80000088, 0x00000001, 0x00008000, 0x00000000, 0x80008082,
    ];
}

} // verus!
