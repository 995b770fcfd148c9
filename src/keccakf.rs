//! Keccak-f[b] permutations, b = 25 * 2^l for l in 0..=6. The hash uses
//! Keccak-f[1600] only: l = 6, 64-bit lanes, b = 1600.
use crate::params::ROUNDS;
use crate::utils::{and, not, rot, rotl, xor};
use vstd::prelude::*;

verus! {

/// The 1600-bit state as 25 lanes, lane `(x, y)` at index `x + 5 * y`.
pub type State = [u64; 25];

/// Keccak-f[1600] on 64-bit lanes.
pub struct KeccakF64;

/// Marker for a 32-bit lane form of the permutation, which needs
/// bit-interleaved lanes and round constants; only its tables are provided.
pub struct KeccakF32;

/// Parity of column `x`: the xor of its five lanes.
pub open spec fn column_parity(a: Seq<u64>, x: int) -> u64 {
    a[x] ^ a[x + 5] ^ a[x + 10] ^ a[x + 15] ^ a[x + 20]
}

/// What theta xors into every lane of column `x`.
pub open spec fn theta_effect(a: Seq<u64>, x: int) -> u64 {
    column_parity(a, (x + 4) % 5) ^ rotl(column_parity(a, (x + 1) % 5), 1)
}

pub open spec fn theta_spec(a: Seq<u64>) -> Seq<u64> {
    Seq::new(25, |i: int| a[i] ^ theta_effect(a, i % 5))
}

/// The lane that rho and pi move to position `i`: lane `(x, y)` goes to
/// `(y, (2x + 3y) mod 5)`, so position `(X, Y)` is fed by `((X + 3Y) mod 5, X)`.
pub open spec fn pi_source(i: int) -> int {
    (i % 5 + 3 * (i / 5)) % 5 + 5 * (i % 5)
}

pub open spec fn rho_pi_spec(a: Seq<u64>) -> Seq<u64> {
    Seq::new(
        25,
        |i: int| rotl(a[pi_source(i)], KeccakF64::ROTR@[pi_source(i)] as nat),
    )
}

pub open spec fn chi_spec(b: Seq<u64>) -> Seq<u64> {
    Seq::new(
        25,
        |i: int|
            b[i] ^ (!b[(i % 5 + 1) % 5 + 5 * (i / 5)] & b[(i % 5 + 2) % 5 + 5 * (i / 5)]),
    )
}

pub open spec fn iota_spec(a: Seq<u64>, round: int) -> Seq<u64> {
    a.update(0, a[0] ^ KeccakF64::RC_64_BITS@[round])
}

/// One round with index `round`: theta, rho and pi, chi, iota.
pub open spec fn round_spec(a: Seq<u64>, round: int) -> Seq<u64> {
    iota_spec(chi_spec(rho_pi_spec(theta_spec(a))), round)
}

/// The first `n` rounds, with indices `0..n`, applied in order.
pub open spec fn rounds_spec(a: Seq<u64>, n: nat) -> Seq<u64>
    decreases n,
{
    if n == 0 {
        a
    } else {
        round_spec(rounds_spec(a, (n - 1) as nat), n - 1)
    }
}

/// Keccak-f[1600]: all 24 rounds.
pub open spec fn keccak_f(a: Seq<u64>) -> Seq<u64> {
    rounds_spec(a, 24)
}

/// Every round keeps the state at 25 lanes.
pub proof fn lemma_rounds_len(a: Seq<u64>, n: nat)
    requires
        a.len() == 25,
    ensures
        rounds_spec(a, n).len() == 25,
    decreases n,
{
    if n > 0 {
        lemma_rounds_len(a, (n - 1) as nat);
    }
}

proof fn lemma_pi_source_inverts(x: u64, y: u64)
    by (bit_vector)
    requires
        x < 5,
        y < 5,
    ensures
        ((y + 3 * ((2 * x + 3 * y) % 5)) % 5) == x,
{
}

impl KeccakF64 {
    /// Theta: xor into every lane the parities of two neighbouring columns,
    /// `D[x] = C[x - 1] ^ rot(C[x + 1], 1)`.
    pub fn theta(a: State) -> (r: State)
        ensures
            r@ == theta_spec(a@),
    {
        let mut c = [0u64; 5];
        for x in 0..5
            invariant
                forall|k: int| 0 <= k < x ==> c@[k] == column_parity(a@, k),
        {
            c[x] = a[x] ^ a[x + 5] ^ a[x + 2 * 5] ^ a[x + 3 * 5] ^ a[x + 4 * 5];
        }
        let mut d = [0u64; 5];
        for x in 0..5
            invariant
                forall|k: int| 0 <= k < 5 ==> c@[k] == column_parity(a@, k),
                forall|k: int| 0 <= k < x ==> d@[k] == theta_effect(a@, k),
        {
            d[x] = xor(c[(x + 4) % 5], rot(c[(x + 1) % 5], 1));
        }
        let mut res = [0u64; 25];
        for x in 0..5
            invariant
                forall|k: int| 0 <= k < 5 ==> d@[k] == theta_effect(a@, k),
                forall|i: int| 0 <= i < 25 && i % 5 < x ==> res@[i] == a@[i] ^ theta_effect(a@, i % 5),
        {
            for y in 0..5
                invariant
                    0 <= x < 5,
                    forall|k: int| 0 <= k < 5 ==> d@[k] == theta_effect(a@, k),
                    forall|i: int|
                        0 <= i < 25 && (i % 5 < x || (i % 5 == x && i / 5 < y)) ==> res@[i] == a@[i]
                            ^ theta_effect(a@, i % 5),
            {
                res[x + y * 5] = xor(a[x + y * 5], d[x]);
            }
        }
        assert(res@ =~= theta_spec(a@));
        res
    }

    /// Rho and pi: rotate every lane by its offset and move lane `(x, y)` to
    /// `(y, 2x + 3y)`.
    pub fn rho_phi(a: State) -> (r: State)
        ensures
            r@ == rho_pi_spec(a@),
    {
        let mut res = [0u64; 25];
        for x in 0..5
            invariant
                forall|i: int|
                    0 <= i < 25 && pi_source(i) % 5 < x ==> res@[i] == rho_pi_spec(a@)[i],
        {
            for y in 0..5
                invariant
                    0 <= x < 5,
                    forall|i: int|
                        0 <= i < 25 && (pi_source(i) % 5 < x || (pi_source(i) % 5 == x
                            && pi_source(i) / 5 < y)) ==> res@[i] == rho_pi_spec(a@)[i],
            {
                let dst = y + ((2 * x + 3 * y) % 5) * 5;
                proof {
                    lemma_pi_source_inverts(x as u64, y as u64);
                    assert(pi_source(dst as int) == x + 5 * y);
                }
                res[dst] = rot(a[x + y * 5], Self::ROTR[x + y * 5]);
            }
        }
        assert(res@ =~= rho_pi_spec(a@));
        res
    }

    /// Chi: `A[x, y] = B[x, y] ^ (!B[x + 1, y] & B[x + 2, y])`.
    pub fn chi(b: State) -> (r: State)
        ensures
            r@ == chi_spec(b@),
    {
        let mut res = [0u64; 25];
        for x in 0..5
            invariant
                forall|i: int| 0 <= i < 25 && i % 5 < x ==> res@[i] == chi_spec(b@)[i],
        {
            for y in 0..5
                invariant
                    0 <= x < 5,
                    forall|i: int|
                        0 <= i < 25 && (i % 5 < x || (i % 5 == x && i / 5 < y)) ==> res@[i]
                            == chi_spec(b@)[i],
            {
                res[x + y * 5] = xor(
                    b[x + y * 5],
                    and(not(b[(x + 1) % 5 + y * 5]), b[(x + 2) % 5 + y * 5]),
                );
            }
        }
        assert(res@ =~= chi_spec(b@));
        res
    }

    /// Iota: xor the round constant into lane `(0, 0)`.
    pub fn iota(c: State, round: usize) -> (r: State)
        requires
            round < ROUNDS,
        ensures
            r@ == iota_spec(c@, round as int),
    {
        let mut c = c;
        c[0] = xor(c[0], Self::RC_64_BITS[round]);
        c
    }

    /// One round of Keccak-f[1600] with round index `round`.
    pub fn round(a: State, round: usize) -> (r: State)
        requires
            round < ROUNDS,
        ensures
            r@ == round_spec(a@, round as int),
    {
        let a = Self::theta(a);
        let b = Self::rho_phi(a);
        let c = Self::chi(b);
        Self::iota(c, round)
    }

    /// The permutation Keccak-f[1600]: rounds `0..24` in order.
    pub fn keccakf(input: State) -> (r: State)
        ensures
            r@ == keccak_f(input@),
    {
        let mut a = input;
        for i in 0..ROUNDS
            invariant
                a@ == rounds_spec(input@, i as nat),
        {
            a = Self::round(a, i);
        }
        a
    }
}

} // verus!
