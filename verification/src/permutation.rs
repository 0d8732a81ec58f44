//! The Keccak-f[1600, 24] permutation.
//!
//! The state is 25 lanes of 64 bits, a 5 by 5 grid in which lane (x, y) sits
//! at flat index `x + 5 * y`.  One round applies theta, rho, pi, chi and iota
//! in that order; the permutation is 24 rounds.  The specification below
//! states each step over a `Seq<u64>`, and `keccakf` is proved to compute
//! exactly `keccak_p` of its input state.

use vstd::prelude::*;

verus! {

/// Left rotation of a 64-bit lane by `n` bits.
pub open spec fn rotl64(x: u64, n: u64) -> u64
    recommends
        n < 64,
{
    if n == 0 {
        x
    } else {
        (x << n) | (x >> ((64 - n) as u64))
    }
}

/// The round constant XORed into lane (0, 0) by iota in round `i`.
pub open spec fn round_constant(i: int) -> u64 {
    if i == 0 {
        0x0000000000000001
    } else if i == 1 {
        0x0000000000008082
    } else if i == 2 {
        0x800000000000808a
    } else if i == 3 {
        0x8000000080008000
    } else if i == 4 {
        0x000000000000808b
    } else if i == 5 {
        0x0000000080000001
    } else if i == 6 {
        0x8000000080008081
    } else if i == 7 {
        0x8000000000008009
    } else if i == 8 {
        0x000000000000008a
    } else if i == 9 {
        0x0000000000000088
    } else if i == 10 {
        0x0000000080008009
    } else if i == 11 {
        0x000000008000000a
    } else if i == 12 {
        0x000000008000808b
    } else if i == 13 {
        0x800000000000008b
    } else if i == 14 {
        0x8000000000008089
    } else if i == 15 {
        0x8000000000008003
    } else if i == 16 {
        0x8000000000008002
    } else if i == 17 {
        0x8000000000000080
    } else if i == 18 {
        0x000000000000800a
    } else if i == 19 {
        0x800000008000000a
    } else if i == 20 {
        0x8000000080008081
    } else if i == 21 {
        0x8000000000008080
    } else if i == 22 {
        0x0000000080000001
    } else {
        0x8000000080008008
    }
}

/// XOR of the five lanes of column `x`.
pub open spec fn column_parity(a: Seq<u64>, x: int) -> u64
    recommends
        a.len() == 25,
        0 <= x < 5,
{
    a[x] ^ a[x + 5] ^ a[x + 10] ^ a[x + 15] ^ a[x + 20]
}

/// The value theta XORs into every lane of column `x`: the parity of the
/// column to the left, XOR the parity of the column to the right rotated by 1.
pub open spec fn theta_d(a: Seq<u64>, x: int) -> u64
    recommends
        a.len() == 25,
        0 <= x < 5,
{
    column_parity(a, (x + 4) % 5) ^ rotl64(column_parity(a, (x + 1) % 5), 1)
}

/// Theta: XOR `theta_d` of a lane's column into the lane.
pub open spec fn theta(a: Seq<u64>) -> Seq<u64>
    recommends
        a.len() == 25,
{
    Seq::new(25, |i: int| a[i] ^ theta_d(a, i % 5))
}

/// The flat index of the lane that rho-then-pi moves to flat index `j`:
/// pi sends lane (x, y) to (y, 2x + 3y mod 5), so position (X, Y) receives
/// lane (X + 3Y mod 5, X).
pub open spec fn pi_source(j: int) -> int
    recommends
        0 <= j < 25,
{
    (j % 5 + 3 * (j / 5)) % 5 + 5 * (j % 5)
}

/// The rotation amount rho applies to the lane at flat index `i`.
pub open spec fn rho_offset(i: int) -> u64 {
    if i == 0 {
        0
    } else if i == 1 {
        1
    } else if i == 2 {
        62
    } else if i == 3 {
        28
    } else if i == 4 {
        27
    } else if i == 5 {
        36
    } else if i == 6 {
        44
    } else if i == 7 {
        6
    } else if i == 8 {
        55
    } else if i == 9 {
        20
    } else if i == 10 {
        3
    } else if i == 11 {
        10
    } else if i == 12 {
        43
    } else if i == 13 {
        25
    } else if i == 14 {
        39
    } else if i == 15 {
        41
    } else if i == 16 {
        45
    } else if i == 17 {
        15
    } else if i == 18 {
        21
    } else if i == 19 {
        8
    } else if i == 20 {
        18
    } else if i == 21 {
        2
    } else if i == 22 {
        61
    } else if i == 23 {
        56
    } else {
        14
    }
}

/// Rho and pi together: position `j` receives its source lane rotated by that
/// lane's rho offset.
pub open spec fn rho_pi(a: Seq<u64>) -> Seq<u64>
    recommends
        a.len() == 25,
{
    Seq::new(25, |j: int| rotl64(a[pi_source(j)], rho_offset(pi_source(j))))
}

/// Chi: XOR each lane with the AND of the complement of its row successor and
/// its row second successor.
pub open spec fn chi(a: Seq<u64>) -> Seq<u64>
    recommends
        a.len() == 25,
{
    Seq::new(
        25,
        |i: int| a[i] ^ (!a[5 * (i / 5) + (i + 1) % 5] & a[5 * (i / 5) + (i + 2) % 5]),
    )
}

/// Iota: XOR the round constant of round `i` into lane (0, 0).
pub open spec fn iota(a: Seq<u64>, i: int) -> Seq<u64>
    recommends
        a.len() == 25,
        0 <= i < 24,
{
    a.update(0, a[0] ^ round_constant(i))
}

/// One full Keccak round.
pub open spec fn keccak_round(a: Seq<u64>, i: int) -> Seq<u64>
    recommends
        a.len() == 25,
        0 <= i < 24,
{
    iota(chi(rho_pi(theta(a))), i)
}

/// The state after the first `n` rounds.
pub open spec fn keccak_rounds(a: Seq<u64>, n: nat) -> Seq<u64>
    recommends
        a.len() == 25,
        n <= 24,
    decreases n,
{
    if n == 0 {
        a
    } else {
        keccak_round(keccak_rounds(a, (n - 1) as nat), n - 1)
    }
}

/// The whole permutation: 24 rounds.
pub open spec fn keccak_p(a: Seq<u64>) -> Seq<u64>
    recommends
        a.len() == 25,
{
    keccak_rounds(a, 24)
}

/// Rotate `x` left by `n` bits.
fn rol(x: u64, n: u64) -> (r: u64)
    requires
        n < 64,
    ensures
        r == rotl64(x, n),
{
    if n == 0 {
        x
    } else {
        (x << n) | (x >> (64 - n))
    }
}

/// The round constant of round `i`, as `round_constant` gives it.
fn round_constant_at(i: usize) -> (r: u64)
    requires
        i < 24,
    ensures
        r == round_constant(i as int),
{
    if i == 0 {
        0x0000000000000001
    } else if i == 1 {
        0x0000000000008082
    } else if i == 2 {
        0x800000000000808a
    } else if i == 3 {
        0x8000000080008000
    } else if i == 4 {
        0x000000000000808b
    } else if i == 5 {
        0x0000000080000001
    } else if i == 6 {
        0x8000000080008081
    } else if i == 7 {
        0x8000000000008009
    } else if i == 8 {
        0x000000000000008a
    } else if i == 9 {
        0x0000000000000088
    } else if i == 10 {
        0x0000000080008009
    } else if i == 11 {
        0x000000008000000a
    } else if i == 12 {
        0x000000008000808b
    } else if i == 13 {
        0x800000000000008b
    } else if i == 14 {
        0x8000000000008089
    } else if i == 15 {
        0x8000000000008003
    } else if i == 16 {
        0x8000000000008002
    } else if i == 17 {
        0x8000000000000080
    } else if i == 18 {
        0x000000000000800a
    } else if i == 19 {
        0x800000008000000a
    } else if i == 20 {
        0x8000000080008081
    } else if i == 21 {
        0x8000000000008080
    } else if i == 22 {
        0x0000000080000001
    } else {
        0x8000000080008008
    }
}

/// The source index that rho-then-pi moves to position `j`.
fn pi_source_at(j: usize) -> (s: usize)
    requires
        j < 25,
    ensures
        s == pi_source(j as int),
        s < 25,
{
    (j % 5 + 3 * (j / 5)) % 5 + 5 * (j % 5)
}

/// The rho rotation of the lane at flat index `i`, as `rho_offset` gives it.
fn rho_offset_at(i: usize) -> (r: u64)
    requires
        i < 25,
    ensures
        r == rho_offset(i as int),
        r < 64,
{
    if i == 0 {
        0
    } else if i == 1 {
        1
    } else if i == 2 {
        62
    } else if i == 3 {
        28
    } else if i == 4 {
        27
    } else if i == 5 {
        36
    } else if i == 6 {
        44
    } else if i == 7 {
        6
    } else if i == 8 {
        55
    } else if i == 9 {
        20
    } else if i == 10 {
        3
    } else if i == 11 {
        10
    } else if i == 12 {
        43
    } else if i == 13 {
        25
    } else if i == 14 {
        39
    } else if i == 15 {
        41
    } else if i == 16 {
        45
    } else if i == 17 {
        15
    } else if i == 18 {
        21
    } else if i == 19 {
        8
    } else if i == 20 {
        18
    } else if i == 21 {
        2
    } else if i == 22 {
        61
    } else if i == 23 {
        56
    } else {
        14
    }
}

/// Keccak-f[1600, 24]: apply 24 rounds in place.
pub fn keccakf(state: &mut [u64; 25])
    ensures
        final(state)@ == keccak_p(old(state)@),
{
    let mut r: usize = 0;
    while r < 24
        invariant
            r <= 24,
            state@ == keccak_rounds(old(state)@, r as nat),
        decreases 24 - r,
    {
        let ghost a0 = state@;

        // Theta: column parities ...
        let mut c = [0u64; 5];
        let mut x: usize = 0;
        while x < 5
            invariant
                x <= 5,
                state@ == a0,
                forall|k: int| 0 <= k < x ==> c@[k] == column_parity(a0, k),
            decreases 5 - x,
        {
            c[x] = state[x] ^ state[x + 5] ^ state[x + 10] ^ state[x + 15] ^ state[x + 20];
            x += 1;
        }

        // ... the per-column XOR masks ...
        let mut d = [0u64; 5];
        x = 0;
        while x < 5
            invariant
                x <= 5,
                state@ == a0,
                forall|k: int| 0 <= k < 5 ==> c@[k] == column_parity(a0, k),
                forall|k: int| 0 <= k < x ==> d@[k] == theta_d(a0, k),
            decreases 5 - x,
        {
            d[x] = c[(x + 4) % 5] ^ rol(c[(x + 1) % 5], 1);
            x += 1;
        }

        // ... and the XOR into every lane.
        x = 0;
        while x < 25
            invariant
                x <= 25,
                forall|k: int| 0 <= k < 5 ==> d@[k] == theta_d(a0, k),
                forall|k: int| 0 <= k < x ==> state@[k] == theta(a0)[k],
                forall|k: int| x <= k < 25 ==> state@[k] == a0[k],
            decreases 25 - x,
        {
            state[x] = state[x] ^ d[x % 5];
            x += 1;
        }
        proof {
            assert(state@ =~= theta(a0));
        }

        // Rho and pi, into a scratch state.
        let ghost a1 = state@;
        let mut b = [0u64; 25];
        x = 0;
        while x < 25
            invariant
                x <= 25,
                state@ == a1,
                forall|k: int| 0 <= k < x ==> b@[k] == rho_pi(a1)[k],
            decreases 25 - x,
        {
            let s = pi_source_at(x);
            b[x] = rol(state[s], rho_offset_at(s));
            x += 1;
        }
        proof {
            assert(b@ =~= rho_pi(a1));
        }

        // Chi, back into the state.
        let ghost a2 = b@;
        x = 0;
        while x < 25
            invariant
                x <= 25,
                b@ == a2,
                forall|k: int| 0 <= k < x ==> state@[k] == chi(a2)[k],
            decreases 25 - x,
        {
            let row = 5 * (x / 5);
            state[x] = b[x] ^ (!b[row + (x + 1) % 5] & b[row + (x + 2) % 5]);
            x += 1;
        }
        proof {
            assert(state@ =~= chi(a2));
        }

        // Iota.
        let rc = round_constant_at(r);
        state[0] = state[0] ^ rc;
        proof {
            assert(state@ =~= keccak_round(a0, r as int));
            assert(state@ == keccak_rounds(old(state)@, (r + 1) as nat));
        }
        r += 1;
    }
}

} // verus!
