use bowling::{BowlingGame, Error};

/// Roll `count` throws of `pins` pins, expecting each to be accepted.
fn roll_many(game: &mut BowlingGame, count: usize, pins: u16) {
    for _ in 0..count {
        assert_eq!(game.roll(pins), Ok(()));
    }
}

#[test]
fn gutter_game_scores_zero() {
    let mut game = BowlingGame::new();
    roll_many(&mut game, 20, 0);
    assert_eq!(game.score(), Some(0));
}

#[test]
fn all_ones_game_scores_twenty() {
    let mut game = BowlingGame::new();
    roll_many(&mut game, 20, 1);
    assert_eq!(game.score(), Some(20));
}

#[test]
fn one_spare_scores_sixteen() {
    let mut game = BowlingGame::new();
    assert_eq!(game.roll(5), Ok(()));
    assert_eq!(game.roll(5), Ok(()));
    assert_eq!(game.roll(3), Ok(()));
    roll_many(&mut game, 17, 0);
    assert_eq!(game.score(), Some(16));
}

#[test]
fn one_strike_scores_twenty_four() {
    let mut game = BowlingGame::new();
    assert_eq!(game.roll(10), Ok(()));
    assert_eq!(game.roll(3), Ok(()));
    assert_eq!(game.roll(4), Ok(()));
    roll_many(&mut game, 16, 0);
    assert_eq!(game.score(), Some(24));
}

#[test]
fn perfect_game_scores_three_hundred() {
    let mut game = BowlingGame::new();
    roll_many(&mut game, 12, 10);
    assert_eq!(game.roll(10), Err(Error::GameComplete));
    assert_eq!(game.score(), Some(300));
}

#[test]
fn roll_after_completion_is_rejected_without_effect() {
    let mut game = BowlingGame::new();
    roll_many(&mut game, 20, 0);
    assert_eq!(game.roll(0), Err(Error::GameComplete));
    assert_eq!(game.roll(10), Err(Error::GameComplete));
    assert_eq!(game.score(), Some(0));
}

#[test]
fn two_sixes_in_one_frame_rejects_second_roll() {
    let mut game = BowlingGame::new();
    assert_eq!(game.roll(6), Ok(()));
    assert_eq!(game.roll(6), Err(Error::NotEnoughPinsLeft));
    // the first roll's recorded value is unaffected by the rejected roll:
    // closing the frame with a 3 gives an open frame worth 6 + 3 = 9
    assert_eq!(game.roll(3), Ok(()));
    roll_many(&mut game, 18, 0);
    assert_eq!(game.score(), Some(9));
}

#[test]
fn eleven_pins_is_rejected_without_mutation() {
    let mut game = BowlingGame::new();
    assert_eq!(game.roll(11), Err(Error::NotEnoughPinsLeft));
    roll_many(&mut game, 20, 0);
    assert_eq!(game.score(), Some(0));
}

#[test]
fn eleven_pins_mid_game_is_rejected_without_mutation() {
    let mut game = BowlingGame::new();
    assert_eq!(game.roll(3), Ok(()));
    assert_eq!(game.roll(11), Err(Error::NotEnoughPinsLeft));
    // the rejected roll left the cursor alone: the frame closes with 3 + 4
    assert_eq!(game.roll(4), Ok(()));
    roll_many(&mut game, 18, 0);
    assert_eq!(game.score(), Some(7));
}

#[test]
fn score_before_completion_is_none() {
    let mut game = BowlingGame::new();
    assert_eq!(game.score(), None);
    roll_many(&mut game, 5, 1);
    assert_eq!(game.score(), None);
    roll_many(&mut game, 14, 1);
    assert_eq!(game.score(), None);
    assert_eq!(game.roll(1), Ok(()));
    assert_eq!(game.score(), Some(20));
}

#[test]
fn score_is_idempotent_after_completion() {
    let mut game = BowlingGame::new();
    assert_eq!(game.roll(10), Ok(()));
    assert_eq!(game.roll(3), Ok(()));
    assert_eq!(game.roll(4), Ok(()));
    roll_many(&mut game, 16, 0);
    let first = game.score();
    let second = game.score();
    let third = game.score();
    assert_eq!(first, Some(24));
    assert_eq!(second, first);
    assert_eq!(third, first);
}

#[test]
fn tenth_frame_spare_earns_one_bonus_roll() {
    let mut game = BowlingGame::new();
    roll_many(&mut game, 18, 0);
    assert_eq!(game.roll(5), Ok(()));
    assert_eq!(game.roll(5), Ok(()));
    // the spare holds the game open for exactly one bonus roll
    assert_eq!(game.score(), None);
    assert_eq!(game.roll(7), Ok(()));
    assert_eq!(game.score(), Some(17));
    assert_eq!(game.roll(0), Err(Error::GameComplete));
}

#[test]
fn tenth_frame_strike_earns_two_bonus_rolls() {
    let mut game = BowlingGame::new();
    roll_many(&mut game, 18, 0);
    assert_eq!(game.roll(10), Ok(()));
    assert_eq!(game.score(), None);
    assert_eq!(game.roll(3), Ok(()));
    assert_eq!(game.score(), None);
    assert_eq!(game.roll(4), Ok(()));
    assert_eq!(game.score(), Some(17));
    assert_eq!(game.roll(0), Err(Error::GameComplete));
}

#[test]
fn tenth_frame_bonus_pair_is_still_pin_capped() {
    let mut game = BowlingGame::new();
    roll_many(&mut game, 18, 0);
    assert_eq!(game.roll(10), Ok(()));
    assert_eq!(game.roll(6), Ok(()));
    // the parity-based cap applies to the bonus pair just as to any frame
    assert_eq!(game.roll(6), Err(Error::NotEnoughPinsLeft));
    assert_eq!(game.roll(4), Ok(()));
    assert_eq!(game.score(), Some(20));
}

#[test]
fn tenth_frame_triple_strike_scores_thirty() {
    let mut game = BowlingGame::new();
    roll_many(&mut game, 18, 0);
    assert_eq!(game.roll(10), Ok(()));
    assert_eq!(game.roll(10), Ok(()));
    assert_eq!(game.score(), None);
    assert_eq!(game.roll(10), Ok(()));
    assert_eq!(game.score(), Some(30));
}

#[test]
fn tenth_frame_spare_completes_at_twenty_one_rolls() {
    let mut game = BowlingGame::new();
    roll_many(&mut game, 18, 0);
    assert_eq!(game.roll(5), Ok(()));
    assert_eq!(game.roll(5), Ok(()));
    assert_eq!(game.roll(5), Ok(()));
    assert_eq!(game.score(), Some(15));
}
