use tiny_keccak::keccak256;
use tiny_keccak::keccakf;

// An independent expression of the same permutation, in the classic
// rotation-table and position-table formulation with the rho-pi lane chain,
// used as a cross-check oracle against the library's table-free version.
fn oracle_keccakf(a: &mut [u64; 25]) {
    let rc: [u64; 24] = [
        0x0000000000000001,
        0x0000000000008082,
        0x800000000000808a,
        0x8000000080008000,
        0x000000000000808b,
        0x0000000080000001,
        0x8000000080008081,
        0x8000000000008009,
        0x000000000000008a,
        0x0000000000000088,
        0x0000000080008009,
        0x000000008000000a,
        0x000000008000808b,
        0x800000000000008b,
        0x8000000000008089,
        0x8000000000008003,
        0x8000000000008002,
        0x8000000000000080,
        0x000000000000800a,
        0x800000008000000a,
        0x8000000080008081,
        0x8000000000008080,
        0x0000000080000001,
        0x8000000080008008,
    ];
    let rho: [u32; 24] = [
        1, 3, 6, 10, 15, 21, 28, 36, 45, 55, 2, 14, 27, 41, 56, 8, 25, 43, 62, 18, 39, 61, 20, 44,
    ];
    let pi: [usize; 24] = [
        10, 7, 11, 17, 18, 3, 5, 16, 8, 21, 24, 4, 15, 23, 19, 13, 12, 2, 20, 14, 22, 9, 6, 1,
    ];
    for round in 0usize..24 {
        let mut c = [0u64; 5];
        for x in 0usize..5 {
            c[x] = a[x] ^ a[x + 5] ^ a[x + 10] ^ a[x + 15] ^ a[x + 20];
        }
        for x in 0usize..5 {
            let d = c[(x + 4) % 5] ^ c[(x + 1) % 5].rotate_left(1);
            for y in 0usize..5 {
                a[x + 5 * y] ^= d;
            }
        }
        let mut last = a[1];
        for i in 0usize..24 {
            let t = a[pi[i]];
            a[pi[i]] = last.rotate_left(rho[i]);
            last = t;
        }
        for y in 0usize..5 {
            let row = [a[5 * y], a[5 * y + 1], a[5 * y + 2], a[5 * y + 3], a[5 * y + 4]];
            for x in 0usize..5 {
                a[5 * y + x] = row[x] ^ (!row[(x + 1) % 5] & row[(x + 2) % 5]);
            }
        }
        a[0] ^= rc[round];
    }
}

fn scrambled_state(seed: u64) -> [u64; 25] {
    let mut state = [0u64; 25];
    let mut x = seed;
    for lane in state.iter_mut() {
        x = x.wrapping_mul(6364136223846793005).wrapping_add(1442695040888963407);
        *lane = x;
    }
    state
}

#[test]
fn permutation_of_zero_state_matches_known_lanes() {
    let mut state = [0u64; 25];
    keccakf(&mut state);
    assert_eq!(state[0], 0xf1258f7940e1dde7);
    assert_eq!(state[1], 0x84d5ccf933c0478a);
    assert_eq!(state[2], 0xd598261ea65aa9ee);
    assert_eq!(state[12], 0x81a57c16dbcf555f);
    assert_eq!(state[24], 0xeaf1ff7b5ceca249);
}

#[test]
fn permutation_matches_oracle_on_zero_state() {
    let mut ours = [0u64; 25];
    let mut oracle = [0u64; 25];
    keccakf(&mut ours);
    oracle_keccakf(&mut oracle);
    assert_eq!(ours, oracle);
}

#[test]
fn permutation_matches_oracle_on_scrambled_states() {
    for seed in 1u64..=8 {
        let mut ours = scrambled_state(seed);
        let mut oracle = ours;
        keccakf(&mut ours);
        oracle_keccakf(&mut oracle);
        assert_eq!(ours, oracle);
    }
}

#[test]
fn permutation_iterated_matches_oracle() {
    let mut ours = scrambled_state(99);
    let mut oracle = ours;
    for _ in 0usize..10 {
        keccakf(&mut ours);
        oracle_keccakf(&mut oracle);
    }
    assert_eq!(ours, oracle);
}

fn bit_difference(a: &[u8; 32], b: &[u8; 32]) -> u32 {
    let mut count: u32 = 0;
    for i in 0usize..32 {
        count += (a[i] ^ b[i]).count_ones();
    }
    count
}

// Flipping any single bit of the message moves a large fraction of the 256
// output bits; anything near half is healthy, and far fewer than a quarter
// would point at a broken diffusion step.
#[test]
fn avalanche_on_single_bit_flips() {
    let base_message: [u8; 16] = *b"avalanche sample";
    let base_digest = keccak256(&base_message);
    for byte in 0usize..16 {
        for bit in 0usize..8 {
            let mut flipped = base_message;
            flipped[byte] ^= 1u8 << bit;
            let digest = keccak256(&flipped);
            assert_ne!(digest, base_digest);
            let distance = bit_difference(&digest, &base_digest);
            assert!(distance >= 64, "weak diffusion: {} bits moved", distance);
        }
    }
}
