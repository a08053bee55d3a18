//! The source of chance: a seedable generator that is handed to whatever
//! needs a random decision.

use vstd::prelude::*;
use rand::rngs::StdRng;
use rand::{Rng, SeedableRng};

verus! {

/// `rand::rngs::StdRng`, carried through as an opaque value.
#[verifier::external_type_specification]
#[verifier::external_body]
pub struct ExStdRng(rand::rngs::StdRng);

/// Calls `SeedableRng::seed_from_u64` on `StdRng`. Nothing is claimed of the
/// generator that comes back.
#[verifier::external_body]
fn seeded_generator(seed: u64) -> (rng: StdRng) {
    StdRng::seed_from_u64(seed)
}

/// Calls `Rng::gen::<u32>`. Any `u32` may come back, so nothing is claimed.
#[verifier::external_body]
fn draw_u32(rng: &mut StdRng) -> (roll: u32) {
    rng.gen::<u32>()
}

/// Calls `Rng::gen_range` on `0..count`, which panics on an empty range and
/// otherwise returns a value of the range.
#[verifier::external_body]
fn draw_below(rng: &mut StdRng, count: usize) -> (pick: usize)
    requires
        count > 0,
    ensures
        pick < count,
{
    rng.gen_range(0..count)
}

/// A seedable generator of rolls.
pub struct Dice {
    rng: StdRng,
}

impl Dice {
    /// A generator started from `seed`.
    pub fn seeded(seed: u64) -> (dice: Dice) {
        Dice { rng: seeded_generator(seed) }
    }

    /// The next roll: any `u32`.
    pub fn roll(&mut self) -> (roll: u32) {
        draw_u32(&mut self.rng)
    }

    /// `count` rolls, one after the other.
    pub fn rolls(&mut self, count: usize) -> (rolls: Vec<u32>)
        ensures
            rolls@.len() == count,
    {
        let mut rolls: Vec<u32> = Vec::new();
        let mut i: usize = 0;
        while i < count
            invariant
                i <= count,
                rolls@.len() == i,
            decreases count - i,
        {
            let roll = self.roll();
            rolls.push(roll);
            i = i + 1;
        }
        rolls
    }

    /// A pick among `count` choices, or `None` where there is nothing to
    /// pick from.
    pub fn pick(&mut self, count: usize) -> (pick: Option<usize>)
        ensures
            count == 0 <==> pick is None,
            pick matches Some(i) ==> i < count,
    {
        if count == 0 {
            None
        } else {
            Some(draw_below(&mut self.rng, count))
        }
    }
}

} // verus!
