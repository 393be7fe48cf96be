//! A ChaCha8 word stream held as plain values: the 32-byte seed and the
//! position of the next word to be read.
use rand::distributions::WeightedIndex;
use rand::{Rng, RngCore, SeedableRng};
use rand_chacha::ChaCha8Rng;
use vstd::prelude::*;

verus! {

/// ChaCha8's word counter is a 64-bit block counter over 16-word blocks,
/// so positions live below 2^68 and wrap around there.
pub open spec fn stream_period() -> int {
    0x10_0000_0000_0000_0000 as int
}

/// The word that `ChaCha8Rng` seeded with `seed` yields at word position `pos`.
pub uninterp spec fn chacha8_word(seed: Seq<u8>, pos: int) -> u32;

/// What a weighted draw over `weights` from the stream of `seed` at `pos`
/// gives: the chosen index and the position of the next unread word.
pub uninterp spec fn weighted_draw(seed: Seq<u8>, pos: int, weights: Seq<u32>) -> (int, int);

/// Sum of all weights.
pub open spec fn total_weight(w: Seq<u32>) -> int
    decreases w.len(),
{
    if w.len() == 0 {
        0
    } else {
        total_weight(w.drop_last()) + w.last() as int
    }
}

/// Sum of the first `n` weights.
pub open spec fn prefix_weight(w: Seq<u32>, n: int) -> int {
    total_weight(w.take(n))
}

/// Relies on rand_chacha's `ChaCha8Rng`: `from_seed` and `set_word_pos` place
/// the generator at word `pos`, `next_u32` reads that one word, and
/// `get_word_pos` then reports the following position (modulo 2^68).
#[verifier::external_body]
fn chacha8_next_u32(seed: &[u8; 32], pos: u128) -> (r: (u32, u128))
    requires
        pos < stream_period(),
    ensures
        r.0 == chacha8_word(seed@, pos as int),
        r.1 as int == (pos as int + 1) % stream_period(),
{
    let mut rng = ChaCha8Rng::from_seed(*seed);
    rng.set_word_pos(pos);
    let word = rng.next_u32();
    (word, rng.get_word_pos())
}

/// Relies on rand's `WeightedIndex::new` (fails only on an empty list or a zero
/// total for unsigned weights) and its `sample`, which draws a value `c` below
/// the total from the ChaCha8 stream and returns the index whose cumulative
/// range holds `c`; `get_word_pos` reports where the stream stands after it.
#[verifier::external_body]
fn chacha8_weighted(seed: &[u8; 32], pos: u128, weights: &Vec<u32>) -> (r: Option<(usize, u128)>)
    requires
        pos < stream_period(),
        total_weight(weights@) <= u32::MAX,
    ensures
        r.is_none() <==> (weights@.len() == 0 || total_weight(weights@) == 0),
        r matches Some((i, p)) ==> {
            &&& (i as int, p as int) == weighted_draw(seed@, pos as int, weights@)
            &&& i < weights@.len()
            &&& prefix_weight(weights@, i as int) < prefix_weight(weights@, i + 1)
            &&& p < stream_period()
        },
{
    let dist = WeightedIndex::new(weights).ok()?;
    let mut rng = ChaCha8Rng::from_seed(*seed);
    rng.set_word_pos(pos);
    let i = rng.sample(&dist);
    Some((i, rng.get_word_pos()))
}

/// The outcome of a weighted draw: `None` when the weights admit no draw
/// (none given, all zero, or a total beyond `u32`), otherwise the chosen
/// index; paired with the stream position that follows.
pub open spec fn pick_outcome(seed: Seq<u8>, pos: int, w: Seq<u32>) -> (Option<int>, int) {
    if w.len() == 0 || total_weight(w) == 0 || total_weight(w) > u32::MAX {
        (None, pos)
    } else {
        let d = weighted_draw(seed, pos, w);
        (Some(d.0), d.1)
    }
}

/// A uniform draw in `[0, 100)` taken from a word's upper 24 bits, compared
/// exactly against an activation chance given in percent. The comparison is
/// made on integers: an `f32` product of the same draw and 100 rounds, and
/// on rare words near the chance it would decide otherwise (with chance 65,
/// upper bits 10905190 pass here and fail in `f32`).
pub open spec fn gate_passes(word: u32, chance: u32) -> bool {
    (word as int / 256) * 100 < chance as int * 0x100_0000
}

/// The state of a ChaCha8 generator: its seed and the next word position.
pub struct Stream {
    pub seed: [u8; 32],
    pub word_pos: u128,
}

impl Stream {
    pub open spec fn wf(&self) -> bool {
        self.word_pos < stream_period()
    }

    /// A generator freshly seeded: it stands at the first word.
    pub fn new(seed: [u8; 32]) -> (r: Self)
        ensures
            r.seed == seed,
            r.word_pos == 0,
            r.wf(),
    {
        Stream { seed, word_pos: 0 }
    }

    /// Reads one word and advances by one.
    pub fn next_word(&mut self) -> (r: u32)
        requires
            old(self).wf(),
        ensures
            r == chacha8_word(old(self).seed@, old(self).word_pos as int),
            final(self).seed == old(self).seed,
            final(self).word_pos as int == (old(self).word_pos as int + 1) % stream_period(),
            final(self).wf(),
    {
        let (word, next) = chacha8_next_u32(&self.seed, self.word_pos);
        self.word_pos = next;
        word
    }

    /// Takes one gate draw: whether a chance of `chance` percent comes up.
    pub fn roll_chance(&mut self, chance: u32) -> (r: bool)
        requires
            old(self).wf(),
        ensures
            r == gate_passes(chacha8_word(old(self).seed@, old(self).word_pos as int), chance),
            final(self).seed == old(self).seed,
            final(self).word_pos as int == (old(self).word_pos as int + 1) % stream_period(),
            final(self).wf(),
    {
        let word = self.next_word();
        (word / 256) as u64 * 100 < chance as u64 * 0x100_0000
    }

    /// Draws an index with probability proportional to its weight; `None`,
    /// without touching the stream, where the weights admit no draw.
    pub fn pick_weighted(&mut self, weights: &Vec<u32>) -> (r: Option<usize>)
        requires
            old(self).wf(),
        ensures
            ({
                let o = pick_outcome(old(self).seed@, old(self).word_pos as int, weights@);
                &&& r matches Some(i) ==> o.0 == Some(i as int)
                &&& r is None ==> o.0 is None
                &&& final(self).word_pos == o.1
            }),
            r matches Some(i) ==> i < weights@.len() && weights@[i as int] > 0,
            final(self).seed == old(self).seed,
            final(self).wf(),
    {
        let mut sum: u64 = 0;
        let mut k: usize = 0;
        while k < weights.len()
            invariant
                k <= weights@.len(),
                sum == total_weight(weights@.take(k as int)),
                sum <= u32::MAX,
                self.wf(),
            decreases weights@.len() - k,
        {
            assert(weights@.take(k + 1).drop_last() =~= weights@.take(k as int));
            sum = sum + weights[k] as u64;
            if sum > u32::MAX as u64 {
                proof { lemma_total_exceeds(weights@, k as int + 1); }
                return None;
            }
            k = k + 1;
        }
        assert(weights@.take(k as int) =~= weights@);
        match chacha8_weighted(&self.seed, self.word_pos, weights) {
            None => None,
            Some((i, next)) => {
                proof { lemma_prefix_step(weights@, i as int); }
                self.word_pos = next;
                Some(i)
            },
        }
    }
}

/// Once a prefix sums past `u32::MAX`, so does the whole list.
proof fn lemma_total_exceeds(w: Seq<u32>, n: int)
    requires
        0 <= n <= w.len(),
        total_weight(w.take(n)) > u32::MAX,
    ensures
        total_weight(w) > u32::MAX,
    decreases w.len() - n,
{
    if n < w.len() {
        assert(w.take(n + 1).drop_last() =~= w.take(n));
        lemma_total_exceeds(w, n + 1);
    } else {
        assert(w.take(n) =~= w);
    }
}

/// The weight at `i` is the step between consecutive prefix sums.
proof fn lemma_prefix_step(w: Seq<u32>, i: int)
    requires
        0 <= i < w.len(),
    ensures
        prefix_weight(w, i + 1) == prefix_weight(w, i) + w[i] as int,
{
    assert(w.take(i + 1).drop_last() =~= w.take(i));
}

} // verus!
