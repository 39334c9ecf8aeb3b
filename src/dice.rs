//! The seeded generator that every roll of a battle is drawn from.
use vstd::prelude::*;
use rand::Rng;
use rand::SeedableRng;

verus! {

#[verifier::external_type_specification]
#[verifier::external_body]
pub struct ExStdRng(rand::rngs::StdRng);

/// The value that `gen_range(lo..=hi)` returns on a `StdRng` made by
/// `seed_from_u64(seed)`, when `calls` lists, in order, the inclusive ranges
/// of all the draws made on it so far, the last being this one.
pub uninterp spec fn drawn_value(seed: u64, calls: Seq<(u32, u32)>) -> u32;

/// Relies on `rand::SeedableRng::seed_from_u64` for `StdRng`: the generator
/// it returns depends on the seed alone.
#[verifier::external_body]
fn seeded_rng(seed: u64) -> rand::rngs::StdRng {
    rand::rngs::StdRng::seed_from_u64(seed)
}

/// `x` moved into `[lo, hi]`.
pub open spec fn within(x: u32, lo: u32, hi: u32) -> u32 {
    if x < lo {
        lo
    } else if x > hi {
        hi
    } else {
        x
    }
}

/// The abstract state of a `Dice`: its seed and the ranges drawn so far.
pub ghost struct DiceView {
    pub seed: u64,
    pub calls: Seq<(u32, u32)>,
}

impl DiceView {
    /// One draw in `[lo, hi]`: the value and the state after it. (The
    /// generator's value always lies in the range, so keeping it there changes
    /// nothing; it lets the range be read off this function.)
    pub open spec fn roll(self, lo: u32, hi: u32) -> (u32, DiceView) {
        let calls = self.calls.push((lo, hi));
        (within(drawn_value(self.seed, calls), lo, hi), DiceView { seed: self.seed, calls })
    }

    /// `n` draws of a d20, summed, and the state after them.
    pub open spec fn roll_d20s(self, n: nat) -> (int, DiceView)
        decreases n,
    {
        if n == 0 {
            (0, self)
        } else {
            let (sum, d) = self.roll_d20s((n - 1) as nat);
            let (r, d2) = d.roll(1, 20);
            (sum + r, d2)
        }
    }
}

/// `n` d20 sum to between `n` and `20n`.
pub proof fn lemma_d20s_range(d: DiceView, n: nat)
    ensures
        n <= d.roll_d20s(n).0 <= 20 * n,
    decreases n,
{
    if n > 0 {
        lemma_d20s_range(d, (n - 1) as nat);
    }
}

/// A deterministic source of dice rolls, made from a seed.
///
/// `rng` is touched only by `new` and `draw`, so it is always the generator
/// that `seed_from_u64(seed)` returned, after the draws listed in `calls`.
pub struct Dice {
    rng: rand::rngs::StdRng,
    seed: Ghost<u64>,
    calls: Ghost<Seq<(u32, u32)>>,
}

impl View for Dice {
    type V = DiceView;

    closed spec fn view(&self) -> DiceView {
        DiceView { seed: self.seed@, calls: self.calls@ }
    }
}

/// Relies on `rand::Rng::gen_range` on an inclusive range of `u32`: it returns
/// a value in `[lo, hi]` (and panics only on an empty range), and, the
/// generator being deterministic, a value fixed by its seed and the draws
/// made before.
#[verifier::external_body]
fn draw(d: &mut Dice, lo: u32, hi: u32) -> (r: u32)
    requires
        lo <= hi,
    ensures
        lo <= r <= hi,
        r == drawn_value(old(d)@.seed, old(d)@.calls.push((lo, hi))),
        final(d)@ == old(d)@.roll(lo, hi).1,
{
    d.rng.gen_range(lo..=hi)
}

impl Dice {
    pub fn new(seed: u64) -> (r: Dice)
        ensures
            r@ == (DiceView { seed, calls: Seq::empty() }),
    {
        Dice { rng: seeded_rng(seed), seed: Ghost(seed), calls: Ghost(Seq::empty()) }
    }

    /// One roll in `[lo, hi]`.
    pub fn roll(&mut self, lo: u32, hi: u32) -> (r: u32)
        requires
            lo <= hi,
        ensures
            lo <= r <= hi,
            (r, final(self)@) == old(self)@.roll(lo, hi),
    {
        draw(self, lo, hi)
    }
}

} // verus!
