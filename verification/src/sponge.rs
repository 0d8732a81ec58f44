//! The sponge construction over Keccak-f[1600, 24], fixed to a 32-byte digest.
//!
//! A session owns a 200-byte state, the flat little-endian view of the 25
//! lanes: lane (x, y) occupies bytes `8 * (x + 5 * y)` up to the next multiple
//! of 8, least significant byte first.  Absorption XORs message bytes into the
//! state and permutes after every `rate` bytes; padding XORs the delimiter at
//! the fill offset and 0x80 at byte `rate - 1`; squeezing copies the first 32
//! bytes out.  The specification absorbs one byte at a time, which makes the
//! state after a sequence of `update` calls a function of the concatenated
//! input alone.

use vstd::prelude::*;

use crate::permutation::keccak_p;
use crate::permutation::keccakf;

verus! {

/// The 64-bit lane stored little-endian at bytes `8k .. 8k + 8` of `b`.
pub open spec fn lane_from_bytes(b: Seq<u8>, k: int) -> u64
    recommends
        b.len() == 200,
        0 <= k < 25,
{
    (b[8 * k] as u64) | ((b[8 * k + 1] as u64) << 8) | ((b[8 * k + 2] as u64) << 16) | ((b[8 * k
        + 3] as u64) << 24) | ((b[8 * k + 4] as u64) << 32) | ((b[8 * k + 5] as u64) << 40) | ((b[8
        * k + 6] as u64) << 48) | ((b[8 * k + 7] as u64) << 56)
}

/// The 25 lanes that a 200-byte state holds.
pub open spec fn lanes_from_bytes(b: Seq<u8>) -> Seq<u64>
    recommends
        b.len() == 200,
{
    Seq::new(25, |k: int| lane_from_bytes(b, k))
}

/// Byte `j` of lane `x`, counting from the least significant.
pub open spec fn lane_byte(x: u64, j: int) -> u8
    recommends
        0 <= j < 8,
{
    (x >> ((8 * j) as u64)) as u8
}

/// The 200-byte little-endian layout of 25 lanes.
pub open spec fn bytes_from_lanes(a: Seq<u64>) -> Seq<u8>
    recommends
        a.len() == 25,
{
    Seq::new(200, |i: int| lane_byte(a[i / 8], i % 8))
}

/// The permutation on the 200-byte state: decode the lanes, apply
/// Keccak-f[1600, 24], encode them again.
pub open spec fn permute_bytes(b: Seq<u8>) -> Seq<u8>
    recommends
        b.len() == 200,
{
    bytes_from_lanes(keccak_p(lanes_from_bytes(b)))
}

/// The all-zero 200-byte state of a fresh session.
pub open spec fn zero_state() -> Seq<u8> {
    Seq::new(200, |i: int| 0u8)
}

/// Absorb one byte: XOR it at the fill offset, and permute when that
/// completes a `rate`-byte block.  Returns the new state and offset.
pub open spec fn absorb_byte(buf: Seq<u8>, off: nat, b: u8, rate: nat) -> (Seq<u8>, nat)
    recommends
        buf.len() == 200,
        off < rate <= 200,
{
    let xored = buf.update(off as int, buf[off as int] ^ b);
    if off + 1 == rate {
        (permute_bytes(xored), 0)
    } else {
        (xored, off + 1)
    }
}

/// Absorb a whole byte sequence, one byte at a time.
pub open spec fn absorb_bytes(buf: Seq<u8>, off: nat, m: Seq<u8>, rate: nat) -> (Seq<u8>, nat)
    recommends
        buf.len() == 200,
        off < rate <= 200,
    decreases m.len(),
{
    if m.len() == 0 {
        (buf, off)
    } else {
        let s = absorb_byte(buf, off, m[0], rate);
        absorb_bytes(s.0, s.1, m.drop_first(), rate)
    }
}

/// Multi-rate padding: XOR the delimiter at the fill offset and 0x80 at byte
/// `rate - 1`.  When the two land on the same byte the XORs combine.
pub open spec fn pad_bytes(buf: Seq<u8>, off: int, delim: u8, rate: int) -> Seq<u8>
    recommends
        buf.len() == 200,
        0 <= off < rate <= 200,
{
    let delimited = buf.update(off, buf[off] ^ delim);
    delimited.update(rate - 1, delimited[rate - 1] ^ 0x80)
}

/// The digest of message `m` for a sponge with the given rate and delimiter:
/// absorb, pad, permute once more, and take the first 32 bytes.
pub open spec fn sponge_digest(m: Seq<u8>, rate: nat, delim: u8) -> Seq<u8>
    recommends
        0 < rate <= 200,
{
    let s = absorb_bytes(zero_state(), 0, m, rate);
    permute_bytes(pad_bytes(s.0, s.1 as int, delim, rate as int)).take(32)
}

/// The Keccak-256 digest: rate 136, delimiter 0x01.
pub open spec fn spec_keccak256(m: Seq<u8>) -> Seq<u8> {
    sponge_digest(m, 136, 0x01)
}

/// Absorbing a message in two pieces leaves the sponge exactly where
/// absorbing their concatenation does.  With `sponge_digest` a function of
/// the absorbed bytes alone, the digest is therefore independent of how the
/// message is split across `update` calls.
pub proof fn lemma_absorb_chunking(buf: Seq<u8>, off: nat, m1: Seq<u8>, m2: Seq<u8>, rate: nat)
    ensures
        absorb_bytes(buf, off, m1 + m2, rate) == {
            let s = absorb_bytes(buf, off, m1, rate);
            absorb_bytes(s.0, s.1, m2, rate)
        },
    decreases m1.len(),
{
    if m1.len() == 0 {
        assert(m1 + m2 =~= m2);
    } else {
        let s = absorb_byte(buf, off, m1[0], rate);
        assert((m1 + m2).drop_first() =~= m1.drop_first() + m2);
        assert((m1 + m2)[0] == m1[0]);
        lemma_absorb_chunking(s.0, s.1, m1.drop_first(), m2, rate);
    }
}

/// A sponge digest is always exactly 32 bytes, whatever the message length.
pub proof fn lemma_digest_len(m: Seq<u8>, rate: nat, delim: u8)
    ensures
        sponge_digest(m, rate, delim).len() == 32,
{
}

/// Load the 25 lanes out of the 200-byte state.
fn load_lanes(buf: &[u8; 200]) -> (lanes: [u64; 25])
    ensures
        lanes@ == lanes_from_bytes(buf@),
{
    let mut lanes = [0u64; 25];
    let mut k: usize = 0;
    while k < 25
        invariant
            k <= 25,
            forall|i: int| 0 <= i < k ==> lanes@[i] == lane_from_bytes(buf@, i),
        decreases 25 - k,
    {
        lanes[k] = (buf[8 * k] as u64) | ((buf[8 * k + 1] as u64) << 8) | ((buf[8 * k
            + 2] as u64) << 16) | ((buf[8 * k + 3] as u64) << 24) | ((buf[8 * k + 4] as u64) << 32)
            | ((buf[8 * k + 5] as u64) << 40) | ((buf[8 * k + 6] as u64) << 48) | ((buf[8 * k
            + 7] as u64) << 56);
        k += 1;
    }
    proof {
        assert(lanes@ =~= lanes_from_bytes(buf@));
    }
    lanes
}

/// Store 25 lanes back into the 200-byte state, little-endian.
fn store_lanes(buf: &mut [u8; 200], lanes: &[u64; 25])
    ensures
        final(buf)@ == bytes_from_lanes(lanes@),
{
    let mut i: usize = 0;
    while i < 200
        invariant
            i <= 200,
            forall|j: int| 0 <= j < i ==> buf@[j] == lane_byte(lanes@[j / 8], j % 8),
        decreases 200 - i,
    {
        buf[i] = #[verifier::truncate] ((lanes[i / 8] >> ((8 * (i % 8)) as u64)) as u8);
        i += 1;
    }
    proof {
        assert(buf@ =~= bytes_from_lanes(lanes@));
    }
}

/// A Keccak sponge session: the 200-byte state, the fill offset, and the
/// session-fixed rate and delimiter.  `absorbed` records the bytes fed in so
/// far; `wf` ties the concrete state to absorbing exactly those bytes.
#[derive(Clone, Copy)]
pub struct Keccak {
    buffer: [u8; 200],
    offset: usize,
    rate: usize,
    delim: u8,
    absorbed: Ghost<Seq<u8>>,
}

impl Keccak {
    /// The 200-byte state.
    pub closed spec fn spec_buffer(self) -> Seq<u8> {
        self.buffer@
    }

    /// The current fill offset within the rate portion of the state.
    pub closed spec fn spec_offset(self) -> nat {
        self.offset as nat
    }

    /// The session's rate in bytes.
    pub closed spec fn spec_rate(self) -> nat {
        self.rate as nat
    }

    /// The session's padding delimiter byte.
    pub closed spec fn spec_delim(self) -> u8 {
        self.delim
    }

    /// The bytes absorbed since the session was created.
    pub closed spec fn absorbed(self) -> Seq<u8> {
        self.absorbed@
    }

    /// The rate fits the 200-byte state and is not zero.
    pub open spec fn valid_rate(self) -> bool {
        0 < self.spec_rate() <= 200
    }

    /// A session mid-absorption: the state and offset are exactly what
    /// absorbing `absorbed` into a fresh state leaves behind.
    pub open spec fn wf(self) -> bool {
        &&& self.valid_rate()
        &&& self.spec_offset() < self.spec_rate()
        &&& self.spec_buffer() == absorb_bytes(
            zero_state(),
            0,
            self.absorbed(),
            self.spec_rate(),
        ).0
        &&& self.spec_offset() == absorb_bytes(zero_state(), 0, self.absorbed(), self.spec_rate()).1
    }

    /// A fresh session with the given rate and delimiter.
    pub fn new(rate: usize, delim: u8) -> (k: Keccak)
        requires
            0 < rate <= 200,
        ensures
            k.wf(),
            k.spec_rate() == rate,
            k.spec_delim() == delim,
            k.absorbed() == Seq::<u8>::empty(),
    {
        let k = Keccak { buffer: [0u8; 200], offset: 0, rate, delim, absorbed: Ghost(Seq::empty()) };
        proof {
            assert(k.buffer@ =~= zero_state());
        }
        k
    }

    /// A fresh Keccak-256 session: rate 136, delimiter 0x01.
    pub fn new_keccak256() -> (k: Keccak)
        ensures
            k.wf(),
            k.spec_rate() == 136,
            k.spec_delim() == 0x01,
            k.absorbed() == Seq::<u8>::empty(),
    {
        Keccak::new(136, 0x01)
    }

    /// Apply the permutation to the state.
    pub fn keccakf(&mut self)
        ensures
            final(self).spec_buffer() == permute_bytes(old(self).spec_buffer()),
            final(self).spec_offset() == old(self).spec_offset(),
            final(self).spec_rate() == old(self).spec_rate(),
            final(self).spec_delim() == old(self).spec_delim(),
            final(self).absorbed() == old(self).absorbed(),
    {
        let mut lanes = load_lanes(&self.buffer);
        keccakf(&mut lanes);
        store_lanes(&mut self.buffer, &lanes);
    }

    /// Apply the permutation and reset the fill offset, as completing a block
    /// does.
    pub fn fill_block(&mut self)
        ensures
            final(self).spec_buffer() == permute_bytes(old(self).spec_buffer()),
            final(self).spec_offset() == 0,
            final(self).spec_rate() == old(self).spec_rate(),
            final(self).spec_delim() == old(self).spec_delim(),
            final(self).absorbed() == old(self).absorbed(),
    {
        self.keccakf();
        self.offset = 0;
    }

    /// Absorb `input`: XOR its bytes in from the fill offset, permuting each
    /// time a `rate`-byte block completes.  The session afterwards stands
    /// exactly as if it had absorbed the concatenation of everything fed to
    /// it, so any split of a message across calls yields the same state.
    pub fn update(&mut self, input: &[u8])
        requires
            old(self).wf(),
        ensures
            final(self).wf(),
            final(self).absorbed() == old(self).absorbed() + input@,
            final(self).spec_rate() == old(self).spec_rate(),
            final(self).spec_delim() == old(self).spec_delim(),
    {
        let ghost prefix = self.absorbed@;
        let mut i: usize = 0;
        while i < input.len()
            invariant
                i <= input@.len(),
                self.rate == old(self).rate,
                self.delim == old(self).delim,
                0 < self.rate <= 200,
                self.offset < self.rate,
                self.absorbed@ == prefix + input@.take(i as int),
                self.buffer@ == absorb_bytes(zero_state(), 0, self.absorbed@, self.rate as nat).0,
                self.offset as nat == absorb_bytes(
                    zero_state(),
                    0,
                    self.absorbed@,
                    self.rate as nat,
                ).1,
            decreases input@.len() - i,
        {
            let b = input[i];
            let off = self.offset;
            let ghost abs_pre = self.absorbed@;
            let ghost r_nat = self.rate as nat;
            let ghost s_pre = absorb_bytes(zero_state(), 0, abs_pre, r_nat);
            let ghost s_post = absorb_byte(s_pre.0, s_pre.1, b, r_nat);
            proof {
                lemma_absorb_chunking(zero_state(), 0, abs_pre, seq![b], r_nat);
                assert(seq![b].drop_first() =~= Seq::<u8>::empty());
                assert(absorb_bytes(s_post.0, s_post.1, Seq::<u8>::empty(), r_nat) == s_post);
                assert(absorb_bytes(zero_state(), 0, abs_pre + seq![b], r_nat) == s_post);
                assert(abs_pre + seq![b] =~= abs_pre.push(b));
                assert(abs_pre.push(b) =~= prefix + input@.take(i as int + 1));
            }
            self.buffer[off] = self.buffer[off] ^ b;
            self.absorbed = Ghost(abs_pre.push(b));
            if off + 1 == self.rate {
                self.keccakf();
                self.offset = 0;
            } else {
                self.offset = off + 1;
            }
            proof {
                assert(self.buffer@ == s_post.0);
                assert(self.offset as nat == s_post.1);
            }
            i += 1;
        }
        proof {
            assert(prefix + input@.take(input@.len() as int) =~= prefix + input@);
        }
    }

    /// Absorb `input`; `update` under its older name.
    pub fn absorb(&mut self, input: &[u8])
        requires
            old(self).wf(),
        ensures
            final(self).wf(),
            final(self).absorbed() == old(self).absorbed() + input@,
            final(self).spec_rate() == old(self).spec_rate(),
            final(self).spec_delim() == old(self).spec_delim(),
    {
        self.update(input);
    }

    /// Pad the absorbed message: XOR the delimiter at the fill offset and
    /// 0x80 at byte `rate - 1`.
    pub fn pad(&mut self)
        requires
            old(self).valid_rate(),
            old(self).spec_offset() < old(self).spec_rate(),
        ensures
            final(self).spec_buffer() == pad_bytes(
                old(self).spec_buffer(),
                old(self).spec_offset() as int,
                old(self).spec_delim(),
                old(self).spec_rate() as int,
            ),
            final(self).spec_offset() == old(self).spec_offset(),
            final(self).spec_rate() == old(self).spec_rate(),
            final(self).spec_delim() == old(self).spec_delim(),
            final(self).absorbed() == old(self).absorbed(),
    {
        let off = self.offset;
        self.buffer[off] = self.buffer[off] ^ self.delim;
        let last = self.rate - 1;
        self.buffer[last] = self.buffer[last] ^ 0x80;
    }

    /// Copy the first 32 bytes of the state into `output`.
    pub fn squeeze(&mut self, output: &mut [u8; 32])
        ensures
            *final(self) == *old(self),
            final(output)@ == old(self).spec_buffer().take(32),
    {
        let mut j: usize = 0;
        while j < 32
            invariant
                j <= 32,
                *self == *old(self),
                forall|t: int| 0 <= t < j ==> output@[t] == self.spec_buffer()[t],
            decreases 32 - j,
        {
            output[j] = self.buffer[j];
            j += 1;
        }
        proof {
            assert(output@ =~= old(self).spec_buffer().take(32));
        }
    }

    /// Complete the digest: pad, permute once more, and squeeze the first 32
    /// bytes.  The result is a pure function of the bytes absorbed so far;
    /// the session must not absorb again afterwards, since padding has
    /// altered the state (clone a session beforehand to branch from it, or
    /// call `reset` to start over).
    pub fn finalize(&mut self, output: &mut [u8; 32])
        requires
            old(self).wf(),
        ensures
            final(output)@ == sponge_digest(
                old(self).absorbed(),
                old(self).spec_rate(),
                old(self).spec_delim(),
            ),
            final(self).spec_rate() == old(self).spec_rate(),
            final(self).spec_delim() == old(self).spec_delim(),
    {
        self.pad();
        self.keccakf();
        self.squeeze(output);
    }

    /// Return the session to its fresh state: zero the buffer, forget the
    /// absorbed bytes.
    pub fn reset(&mut self)
        requires
            old(self).valid_rate(),
        ensures
            final(self).wf(),
            final(self).absorbed() == Seq::<u8>::empty(),
            final(self).spec_rate() == old(self).spec_rate(),
            final(self).spec_delim() == old(self).spec_delim(),
    {
        let mut i: usize = 0;
        while i < 200
            invariant
                i <= 200,
                self.rate == old(self).rate,
                self.delim == old(self).delim,
                forall|j: int| 0 <= j < i ==> self.buffer@[j] == 0u8,
            decreases 200 - i,
        {
            self.buffer[i] = 0;
            i += 1;
        }
        self.offset = 0;
        self.absorbed = Ghost(Seq::empty());
        proof {
            assert(self.buffer@ =~= zero_state());
        }
    }

    /// The Keccak-256 digest of `data`, written into `result`.
    pub fn keccak256(data: &[u8], result: &mut [u8; 32])
        ensures
            final(result)@ == spec_keccak256(data@),
    {
        let mut keccak = Keccak::new_keccak256();
        keccak.update(data);
        proof {
            assert(Seq::<u8>::empty() + data@ =~= data@);
        }
        keccak.finalize(result);
    }
}

/// The Keccak-256 digest of `data`.
pub fn keccak256(data: &[u8]) -> (result: [u8; 32])
    ensures
        result@ == spec_keccak256(data@),
{
    let mut result = [0u8; 32];
    Keccak::keccak256(data, &mut result);
    result
}

} // verus!
