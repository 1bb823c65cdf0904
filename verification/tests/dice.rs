use rand::{Rng, SeedableRng};
use coursework::dice::{roll, Coin, Die, RollDice};

#[test]
fn dice_roll_within_their_faces() {
    for (die, faces) in [(Die::D4, 4), (Die::D6, 6), (Die::D8, 8), (Die::D10, 10), (Die::D12, 12), (Die::D20, 20)] {
        let v = roll(die);
        assert!(1 <= v && v <= faces);
    }
    let c = roll(Coin);
    assert!(c == 1 || c == 2);
}

#[test]
fn the_fixed_seed_repeats_itself() {
    assert_eq!(Die::D20.get_value(), Die::D20.get_value());
    assert_eq!(Coin.get_value(), Coin.get_value());
}

fn first_draw(max: u8) -> u8 {
    let mut rng = <rand_chacha::ChaCha20Rng as SeedableRng>::seed_from_u64(2);
    rng.gen_range(1..=max)
}

#[test]
fn rolls_are_the_first_draw_of_the_seeded_generator() {
    assert_eq!(roll(Die::D4), first_draw(4));
    assert_eq!(roll(Die::D6), first_draw(6));
    assert_eq!(roll(Die::D8), first_draw(8));
    assert_eq!(roll(Die::D10), first_draw(10));
    assert_eq!(roll(Die::D12), first_draw(12));
    assert_eq!(Die::D20.get_value(), first_draw(20));
    assert_eq!(Coin.get_value(), first_draw(2));
}
