use vstd::prelude::*;

verus! {

/// Left rotation of a 64-bit word by `n` positions, for `n < 64`.
pub open spec fn rotl(x: u64, n: nat) -> u64 {
    if n == 0 {
        x
    } else {
        (x << n) | (x >> ((64 - n) as nat))
    }
}

/// Bit `k` of a byte, counted from the least significant bit.
pub open spec fn bit8(x: u8, k: u8) -> bool {
    (x >> k) & 1 == 1
}

/// Bit `k` of a 64-bit word, counted from the least significant bit.
pub open spec fn bit64(x: u64, k: u64) -> bool {
    (x >> k) & 1 == 1
}

/// Byte `k` of a 64-bit word in little-endian order.
pub open spec fn byte_of_u64(w: u64, k: nat) -> u8 {
    (w >> (8 * k)) as u8
}

/// Byte `k` of a 32-bit word in little-endian order.
pub open spec fn byte_of_u32(w: u32, k: nat) -> u8 {
    (w >> (8 * k)) as u8
}

/// The 64-bit word read little-endian from the eight bytes of `b` at `off`.
pub open spec fn le_u64(b: Seq<u8>, off: int) -> u64 {
    (b[off] as u64) | (b[off + 1] as u64) << 8u64 | (b[off + 2] as u64) << 16u64 | (b[off + 3] as u64)
        << 24u64 | (b[off + 4] as u64) << 32u64 | (b[off + 5] as u64) << 40u64 | (b[off + 6] as u64)
        << 48u64 | (b[off + 7] as u64) << 56u64
}

/// The 32-bit word read little-endian from the four bytes of `b` at `off`.
pub open spec fn le_u32(b: Seq<u8>, off: int) -> u32 {
    (b[off] as u32) | (b[off + 1] as u32) << 8u32 | (b[off + 2] as u32) << 16u32 | (b[off + 3] as u32)
        << 24u32
}

/// Block length in bytes of the sponge for an output of `bits` bits.
pub open spec fn rate_of(bits: int) -> int {
    200 - bits / 4
}

/// Calculates the block length (in bytes) of the sponge construction:
/// `(1600 - 2 * bits) / 8`, the capacity being twice the output length.
pub fn bits_to_rate(bits: usize) -> (r: usize)
    requires
        bits / 4 <= 200,
    ensures
        r == rate_of(bits as int),
{
    200 - bits / 4
}

pub fn xor(x: u64, y: u64) -> (r: u64)
    ensures
        r == x ^ y,
{
    x ^ y
}

pub fn rot(x: u64, i: usize) -> (r: u64)
    requires
        i < 64,
    ensures
        r == rotl(x, i as nat),
{
    if i == 0 {
        x
    } else {
        (x << i) | (x >> (64 - i))
    }
}

pub fn and(x: u64, y: u64) -> (r: u64)
    ensures
        r == x & y,
{
    x & y
}

pub fn not(x: u64) -> (r: u64)
    ensures
        r == !x,
{
    !x
}

proof fn lemma_set_bit8(x: u8, s: u8, k: u8)
    by (bit_vector)
    requires
        s < 8,
        k < 8,
    ensures
        bit8(x | (1u8 << s), k) == (k == s || bit8(x, k)),
{
}

proof fn lemma_set_bit64(x: u64, s: u64, k: u64)
    by (bit_vector)
    requires
        s < 64,
        k < 64,
    ensures
        bit64(x | (1u64 << s), k) == (k == s || bit64(x, k)),
{
}

proof fn lemma_zero_bits()
    ensures
        forall|k: u8| k < 8 ==> !bit8(0u8, k),
        forall|k: u64| k < 64 ==> !bit64(0u64, k),
{
    assert forall|k: u8| k < 8 implies !bit8(0u8, k) by {
        assert((0u8 >> k) & 1 == 0) by (bit_vector);
    }
    assert forall|k: u64| k < 64 implies !bit64(0u64, k) by {
        assert((0u64 >> k) & 1 == 0) by (bit_vector);
    }
}

proof fn lemma_shr_step64(x: u64, i: u64)
    by (bit_vector)
    requires
        i < 64,
    ensures
        x >> 0u64 == x,
        (x >> i) >> 1u64 == x >> ((i + 1) as u64),
{
}

proof fn lemma_shr_step8(x: u8, i: u8)
    by (bit_vector)
    requires
        i < 8,
    ensures
        x >> 0u8 == x,
        (x >> i) >> 1u8 == x >> ((i + 1) as u8),
{
}

/// Packs eight bits, least significant first, into a byte.
pub fn from_bits_to_u8(bools: &[bool]) -> (r: u8)
    requires
        bools.len() == 8,
    ensures
        forall|k: u8| k < 8 ==> #[trigger] bit8(r, k) == bools@[k as int],
{
    let mut result: u8 = 0;
    let mut shift: u8 = 0;
    proof {
        lemma_zero_bits();
    }
    while shift < 8
        invariant
            shift <= 8,
            bools.len() == 8,
            forall|k: u8| k < shift ==> #[trigger] bit8(result, k) == bools@[k as int],
            forall|k: u8| shift <= k < 8 ==> !#[trigger] bit8(result, k),
        decreases 8 - shift,
    {
        let ghost prev = result;
        if bools[shift as usize] {
            result = result | (1u8 << shift);
            assert forall|k: u8| k < 8 implies #[trigger] bit8(result, k) == (k == shift || bit8(
                prev,
                k,
            )) by {
                lemma_set_bit8(prev, shift, k);
            }
        }
        shift += 1;
    }
    result
}

/// Packs up to 64 bits, least significant first, into a word; bits past the
/// 64th are ignored and missing ones are zero.
pub fn from_bits_to_u64(bools: &[bool]) -> (r: u64)
    ensures
        forall|k: u64| k < 64 ==> #[trigger] bit64(r, k) == (k < bools.len() && bools@[k as int]),
{
    let mut result: u64 = 0;
    let mut shift: u64 = 0;
    let n: u64 = if bools.len() < 64 {
        bools.len() as u64
    } else {
        64
    };
    proof {
        lemma_zero_bits();
    }
    while shift < n
        invariant
            shift <= n <= 64,
            n == bools.len() || (n == 64 && bools.len() >= 64),
            forall|k: u64| k < shift ==> #[trigger] bit64(result, k) == bools@[k as int],
            forall|k: u64| shift <= k < 64 ==> !#[trigger] bit64(result, k),
        decreases n - shift,
    {
        let ghost prev = result;
        if bools[shift as usize] {
            result = result | (1u64 << shift);
            assert forall|k: u64| k < 64 implies #[trigger] bit64(result, k) == (k == shift
                || bit64(prev, k)) by {
                lemma_set_bit64(prev, shift, k);
            }
        }
        shift += 1;
    }
    result
}

/// Unpacks a word into its 64 bits, least significant first.
pub fn from_u64_to_bits(num: u64) -> (r: Vec<bool>)
    ensures
        r.len() == 64,
        forall|k: u64| k < 64 ==> r@[k as int] == #[trigger] bit64(num, k),
{
    let mut result: Vec<bool> = Vec::with_capacity(64);
    let mut n = num;
    let mut i: u64 = 0;
    proof {
        lemma_shr_step64(num, 0);
    }
    while i < 64
        invariant
            i <= 64,
            result.len() == i,
            n == num >> i,
            forall|k: u64| k < i ==> result@[k as int] == #[trigger] bit64(num, k),
        decreases 64 - i,
    {
        result.push(n & 1 == 1);
        proof {
            lemma_shr_step64(num, i);
        }
        n = n >> 1;
        i += 1;
    }
    result
}

/// Unpacks a byte into its 8 bits, least significant first.
pub fn from_u8_to_bits(num: u8) -> (r: Vec<bool>)
    ensures
        r.len() == 8,
        forall|k: u8| k < 8 ==> r@[k as int] == #[trigger] bit8(num, k),
{
    let mut result: Vec<bool> = Vec::with_capacity(8);
    let mut n = num;
    let mut i: u8 = 0;
    proof {
        lemma_shr_step8(num, 0);
    }
    while i < 8
        invariant
            i <= 8,
            result.len() == i,
            n == num >> i,
            forall|k: u8| k < i ==> result@[k as int] == #[trigger] bit8(num, k),
        decreases 8 - i,
    {
        result.push(n & 1 == 1);
        proof {
            lemma_shr_step8(num, i);
        }
        n = n >> 1;
        i += 1;
    }
    result
}

/// Reads the little-endian 64-bit word at `off`.
fn read_le_u64(bytes: &[u8], off: usize) -> (r: u64)
    requires
        off + 8 <= bytes.len(),
    ensures
        r == le_u64(bytes@, off as int),
{
    (bytes[off] as u64) | (bytes[off + 1] as u64) << 8u64 | (bytes[off + 2] as u64) << 16u64 | (
    bytes[off + 3] as u64) << 24u64 | (bytes[off + 4] as u64) << 32u64 | (bytes[off + 5] as u64)
        << 40u64 | (bytes[off + 6] as u64) << 48u64 | (bytes[off + 7] as u64) << 56u64
}

/// Reads the little-endian 32-bit word at `off`.
fn read_le_u32(bytes: &[u8], off: usize) -> (r: u32)
    requires
        off + 4 <= bytes.len(),
    ensures
        r == le_u32(bytes@, off as int),
{
    (bytes[off] as u32) | (bytes[off + 1] as u32) << 8u32 | (bytes[off + 2] as u32) << 16u32 | (
    bytes[off + 3] as u32) << 24u32
}

/// Reads consecutive 4-byte chunks as little-endian words; a trailing
/// partial chunk is ignored.
pub fn from_u8_to_u32(bytes: &Vec<u8>) -> (r: Vec<u32>)
    ensures
        r.len() == bytes.len() / 4,
        forall|i: int| 0 <= i < r.len() ==> r@[i] == le_u32(bytes@, 4 * i),
{
    let n = bytes.len() / 4;
    let mut result: Vec<u32> = Vec::with_capacity(n);
    let mut i: usize = 0;
    while i < n
        invariant
            i <= n,
            n == bytes.len() / 4,
            result.len() == i,
            forall|j: int| 0 <= j < i ==> result@[j] == le_u32(bytes@, 4 * j),
        decreases n - i,
    {
        result.push(read_le_u32(bytes.as_slice(), 4 * i));
        i += 1;
    }
    result
}

/// Writes each word as four little-endian bytes.
pub fn from_u32_to_u8(words: &Vec<u32>) -> (r: Vec<u8>)
    ensures
        r.len() == 4 * words.len(),
        forall|i: int| 0 <= i < r.len() ==> r@[i] == byte_of_u32(words@[i / 4], (i % 4) as nat),
{
    let mut result: Vec<u8> = Vec::new();
    let mut i: usize = 0;
    while i < words.len()
        invariant
            i <= words.len(),
            result.len() == 4 * i,
            forall|j: int| 0 <= j < result.len() ==> result@[j] == byte_of_u32(words@[j / 4], (j % 4) as nat),
        decreases words.len() - i,
    {
        let w = words[i];
        let mut k: u32 = 0;
        while k < 4
            invariant
                i < words.len(),
                w == words@[i as int],
                k <= 4,
                result.len() == 4 * i + k,
                forall|j: int| 0 <= j < result.len() ==> result@[j] == byte_of_u32(words@[j / 4], (j % 4) as nat),
            decreases 4 - k,
        {
            result.push((w >> (8 * k)) as u8);
            k += 1;
        }
        i += 1;
    }
    result
}

/// Writes each word as eight little-endian bytes.
pub fn from_u64_to_u8(words: &Vec<u64>) -> (r: Vec<u8>)
    ensures
        r.len() == 8 * words.len(),
        forall|i: int| 0 <= i < r.len() ==> r@[i] == byte_of_u64(words@[i / 8], (i % 8) as nat),
{
    let mut result: Vec<u8> = Vec::new();
    let mut i: usize = 0;
    while i < words.len()
        invariant
            i <= words.len(),
            result.len() == 8 * i,
            forall|j: int| 0 <= j < result.len() ==> result@[j] == byte_of_u64(words@[j / 8], (j % 8) as nat),
        decreases words.len() - i,
    {
        let w = words[i];
        let mut k: u64 = 0;
        while k < 8
            invariant
                i < words.len(),
                w == words@[i as int],
                k <= 8,
                result.len() == 8 * i + k,
                forall|j: int| 0 <= j < result.len() ==> result@[j] == byte_of_u64(words@[j / 8], (j % 8) as nat),
            decreases 8 - k,
        {
            result.push((w >> (8 * k)) as u8);
            k += 1;
        }
        i += 1;
    }
    result
}

/// Reads consecutive 8-byte chunks as little-endian words; a trailing
/// partial chunk is ignored.
pub fn from_u8_to_u64(bytes: &[u8]) -> (r: Vec<u64>)
    ensures
        r.len() == bytes.len() / 8,
        forall|i: int| 0 <= i < r.len() ==> r@[i] == le_u64(bytes@, 8 * i),
{
    let n = bytes.len() / 8;
    let mut result: Vec<u64> = Vec::with_capacity(n);
    let mut i: usize = 0;
    while i < n
        invariant
            i <= n,
            n == bytes.len() / 8,
            result.len() == i,
            forall|j: int| 0 <= j < i ==> result@[j] == le_u64(bytes@, 8 * j),
        decreases n - i,
    {
        result.push(read_le_u64(bytes, 8 * i));
        i += 1;
    }
    result
}

proof fn lemma_le_u32_of_u64_half(w: u64, h: u64)
    by (bit_vector)
    requires
        h < 2,
    ensures
        (((w >> (32 * h)) as u8) as u32) | (((w >> (32 * h + 8)) as u8) as u32) << 8u32 | (((w >> (32
            * h + 16)) as u8) as u32) << 16u32 | (((w >> (32 * h + 24)) as u8) as u32) << 24u32 == (w
            >> (32 * h)) as u32,
{
}

proof fn lemma_le_u64_of_u32_pair(lo: u32, hi: u32)
    by (bit_vector)
    ensures
        (((lo >> 0u32) as u8) as u64) | (((lo >> 8u32) as u8) as u64) << 8u64 | (((lo >> 16u32) as u8)
            as u64) << 16u64 | (((lo >> 24u32) as u8) as u64) << 24u64 | (((hi >> 0u32) as u8) as u64)
            << 32u64 | (((hi >> 8u32) as u8) as u64) << 40u64 | (((hi >> 16u32) as u8) as u64) << 48u64
            | (((hi >> 24u32) as u8) as u64) << 56u64 == (lo as u64) | ((hi as u64) << 32u64),
{
}

/// Splits each 64-bit word into its low and high 32-bit halves, in that order.
pub fn from_u64_to_u32(words: &Vec<u64>) -> (r: Vec<u32>)
    ensures
        r.len() == 2 * words.len(),
        forall|i: int|
            0 <= i < r.len() ==> r@[i] == (words@[i / 2] >> (32 * (i % 2)) as nat) as u32,
{
    let bytes = from_u64_to_u8(words);
    let r = from_u8_to_u32(&bytes);
    assert forall|i: int| 0 <= i < r.len() implies r@[i] == (words@[i / 2] >> (32 * (i % 2)) as nat)
        as u32 by {
        let w = words@[i / 2];
        let h = (i % 2) as u64;
        assert(bytes@[4 * i] == (w >> (32 * h)) as u8);
        assert(bytes@[4 * i + 1] == (w >> (32 * h + 8)) as u8);
        assert(bytes@[4 * i + 2] == (w >> (32 * h + 16)) as u8);
        assert(bytes@[4 * i + 3] == (w >> (32 * h + 24)) as u8);
        lemma_le_u32_of_u64_half(w, h);
    }
    r
}

/// Joins consecutive pairs of 32-bit words, low half first, into 64-bit
/// words; a trailing unpaired word is ignored.
pub fn from_u32_to_u64(words: &Vec<u32>) -> (r: Vec<u64>)
    ensures
        r.len() == words.len() / 2,
        forall|i: int|
            0 <= i < r.len() ==> r@[i] == (words@[2 * i] as u64) | ((words@[2 * i + 1] as u64)
                << 32u64),
{
    let bytes = from_u32_to_u8(words);
    let r = from_u8_to_u64(bytes.as_slice());
    assert forall|i: int| 0 <= i < r.len() implies r@[i] == (words@[2 * i] as u64) | ((words@[2 * i
        + 1] as u64) << 32u64) by {
        let lo = words@[2 * i];
        let hi = words@[2 * i + 1];
        assert(bytes@[8 * i] == (lo >> 0u32) as u8);
        assert(bytes@[8 * i + 1] == (lo >> 8u32) as u8);
        assert(bytes@[8 * i + 2] == (lo >> 16u32) as u8);
        assert(bytes@[8 * i + 3] == (lo >> 24u32) as u8);
        assert(bytes@[8 * i + 4] == (hi >> 0u32) as u8);
        assert(bytes@[8 * i + 5] == (hi >> 8u32) as u8);
        assert(bytes@[8 * i + 6] == (hi >> 16u32) as u8);
        assert(bytes@[8 * i + 7] == (hi >> 24u32) as u8);
        lemma_le_u64_of_u32_pair(lo, hi);
    }
    r
}

} // verus!
