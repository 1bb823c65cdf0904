//! Dice and coins that roll a value between 1 and their number of faces.

use vstd::prelude::*;

verus! {

/// The seed of the generator that every roll draws from.
pub const RANDOM_SEED: u64 = 2;

/// What `rand::Rng::gen_range(low..=high)` gives as the first draw of a
/// `rand_chacha::ChaCha20Rng` seeded with `seed` through `seed_from_u64`. Both the
/// seeding and the sampling are deterministic, so the draw is a function of these
/// three values; which value it is, is not stated.
pub uninterp spec fn seeded_draw(seed: u64, low: u8, high: u8) -> u8;

/// `rand::Rng::gen_range` on the inclusive range `low..=high`, drawn from a
/// `rand_chacha::ChaCha20Rng` made by `rand::SeedableRng::seed_from_u64(seed)`.
/// rand documents that the value lies inside the range (and that an empty range
/// panics, which `requires` leaves out); the value is named `seeded_draw`.
#[verifier::external_body]
fn draw_from_seed(seed: u64, low: u8, high: u8) -> (r: u8)
    requires
        low <= high,
    ensures
        low <= r <= high,
        r == seeded_draw(seed, low, high),
{
    rand::Rng::gen_range(&mut <rand_chacha::ChaCha20Rng as rand::SeedableRng>::seed_from_u64(seed), low..=high)
}

/// The value that a roll with `max` faces gives: the first draw between 1 and `max`
/// of the generator seeded with `RANDOM_SEED`.
pub open spec fn roll_value(max: u8) -> u8 {
    seeded_draw(RANDOM_SEED, 1, max)
}

/// A value between 1 and `max`, from a generator seeded with 2.
fn get_random_value(max: u8) -> (r: u8)
    requires
        1 <= max,
    ensures
        1 <= r <= max,
        r == roll_value(max),
{
    draw_from_seed(RANDOM_SEED, 1, max)
}

/// A die with 4, 6, 8, 10, 12 or 20 faces.
pub enum Die {
    D4,
    D6,
    D8,
    D10,
    D12,
    D20,
}

/// A coin: a die with two faces.
pub struct Coin;

/// Something that rolls a value between 1 and its number of faces.
pub trait RollDice {
    /// The number of faces.
    spec fn faces(&self) -> nat;

    fn get_value(&self) -> (r: u8)
        ensures
            1 <= r <= self.faces(),
            r == roll_value(self.faces() as u8),
    ;
}

impl RollDice for Die {
    open spec fn faces(&self) -> nat {
        match self {
            Die::D4 => 4,
            Die::D6 => 6,
            Die::D8 => 8,
            Die::D10 => 10,
            Die::D12 => 12,
            Die::D20 => 20,
        }
    }

    fn get_value(&self) -> (r: u8) {
        match self {
            Die::D4 => get_random_value(4),
            Die::D6 => get_random_value(6),
            Die::D8 => get_random_value(8),
            Die::D10 => get_random_value(10),
            Die::D12 => get_random_value(12),
            Die::D20 => get_random_value(20),
        }
    }
}

impl RollDice for Coin {
    open spec fn faces(&self) -> nat {
        2
    }

    fn get_value(&self) -> (r: u8) {
        get_random_value(2)
    }
}

/// Rolls `item` once.
pub fn roll<T: RollDice>(item: T) -> (r: u8)
    ensures
        1 <= r <= item.faces(),
        r == roll_value(item.faces() as u8),
{
    item.get_value()
}

} // verus!
