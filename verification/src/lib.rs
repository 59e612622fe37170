//! Scoring engine for a ten-pin bowling game.
//!
//! A [`BowlingGame`] records individual rolls, rejects invalid roll values,
//! detects when the game is complete (including the tenth frame's bonus-roll
//! rules), and computes the final score with official strike/spare bonus
//! semantics.
//!
//! Rolls are kept in a flat log whose write cursor advances by one slot for an
//! ordinary roll and by two slots for a strike, so that every ordinary frame
//! owns a fixed pair of slots: frame `f` (1-based) owns slots `2*(f-1)` and
//! `2*(f-1) + 1`. Completion and scoring are pure functions of that log, read
//! at fixed tenth-frame positions.

use vstd::prelude::*;

verus! {

/// Errors reported by [`BowlingGame::roll`].
#[derive(Debug, PartialEq, Eq, Structural)]
pub enum Error {
    /// The roll alone exceeds ten pins, or together with the frame's first
    /// roll it would knock down more than ten pins.
    NotEnoughPinsLeft,
    /// The game is already complete; no further rolls are accepted.
    GameComplete,
}

/// Number of frames in a game.
pub const LAST_FRAME: usize = 10;

/// Pin count that makes a roll a strike.
pub const STRIKE_PINS: u16 = 10;

/// Base points awarded for a strike, before its two-roll bonus.
pub const STRIKE_POINTS: u16 = 10;

/// A single ten-pin bowling game: a roll log plus frame bookkeeping.
pub struct BowlingGame {
    /// The roll log. A strike occupies its slot and leaves the frame's second
    /// slot untouched (the cursor skips it), so the log's length is the roll
    /// cursor itself.
    all_rolls: Vec<u16>,
    /// Frames considered advanced so far, capped at `LAST_FRAME`. Advisory
    /// bookkeeping only: completion and scoring are driven by the roll log.
    frame_counter: usize,
}

/// The pin count recorded at slot `i` of the log: slots past the cursor read
/// as zero, exactly as the untouched slots of a fixed-capacity log would.
pub open spec fn spec_roll_at(rolls: Seq<u16>, i: int) -> u16 {
    if 0 <= i < rolls.len() {
        rolls[i]
    } else {
        0
    }
}

/// A roll is a strike when it knocks down all ten pins.
pub open spec fn spec_is_strike(pins: u16) -> bool {
    pins == STRIKE_PINS
}

/// A frame is a spare when its two rolls together knock down all ten pins
/// without the first being a strike.
pub open spec fn spec_is_spare(first_roll: u16, second_roll: u16) -> bool {
    first_roll + second_roll == 10 && !spec_is_strike(first_roll)
}

/// Every recorded pin count is between zero and ten.
pub open spec fn rolls_valid(rolls: Seq<u16>) -> bool {
    forall|i: int| 0 <= i < rolls.len() ==> rolls[i] <= 10
}

/// Completion, read off the log at the tenth frame's fixed slots (the pair at
/// slots 18 and 19, and a tenth-frame strike's first bonus at slot 20):
/// - a spare in the tenth frame earns one bonus roll: complete at cursor 21;
/// - a strike in the tenth frame earns two bonus rolls: complete at cursor 24
///   when the first bonus is itself a strike (the cursor skips a slot), else
///   at cursor 22;
/// - an open tenth frame earns none: complete at cursor 20.
pub open spec fn spec_complete(rolls: Seq<u16>) -> bool {
    let last_frame_is_spare = spec_is_spare(spec_roll_at(rolls, 18), spec_roll_at(rolls, 19));
    let last_frame_is_strike = spec_is_strike(spec_roll_at(rolls, 18));
    if last_frame_is_spare {
        rolls.len() >= 21
    } else if last_frame_is_strike {
        if spec_is_strike(spec_roll_at(rolls, 20)) {
            rolls.len() == 24
        } else {
            rolls.len() == 22
        }
    } else {
        rolls.len() == 20
    }
}

/// Whether a roll of `pins` is accepted when the log is `rolls`: at most ten
/// pins, and — when the cursor parity says this is a frame's second roll —
/// the frame's two rolls together knock down at most ten pins.
pub open spec fn spec_roll_valid(rolls: Seq<u16>, pins: u16) -> bool {
    &&& pins <= 10
    &&& rolls.len() % 2 == 1 ==> spec_roll_at(rolls, rolls.len() - 1) + pins <= 10
}

/// Points contributed by a strike whose roll sits at slot `strike_roll_index`
/// of frame `frame`: ten plus a bonus read from the next two rolls. When the
/// next roll is itself a strike the second bonus comes from four slots ahead
/// (the strike consumed its frame's second slot); and when either the next
/// roll is a strike or the strike closes the last frame, the bonus is the
/// literal sum of those two rolls. Otherwise the bonus doubles them, which —
/// under the cursor convention that places the following frame two slots
/// ahead — reproduces the official next-two-rolls bonus.
pub open spec fn spec_strike_points(rolls: Seq<u16>, strike_roll_index: int, frame: int) -> int {
    let next_roll = spec_roll_at(rolls, strike_roll_index + 2);
    let next_next_move = if spec_is_strike(next_roll) {
        spec_roll_at(rolls, strike_roll_index + 4)
    } else {
        spec_roll_at(rolls, strike_roll_index + 3)
    };
    if spec_is_strike(next_roll) || frame == LAST_FRAME {
        STRIKE_POINTS + next_roll + next_next_move
    } else {
        STRIKE_POINTS + 2 * next_roll + 2 * next_next_move
    }
}

/// Total points contributed by frames `frame..=10`, where `previous_was_strike`
/// says whether the frame just before `frame` was scored as a strike. Frame
/// `f` reads its first roll at slot `2*(f-1)`:
/// - a strike contributes [`spec_strike_points`] and marks the next frame as
///   following a strike;
/// - a frame that follows a strike without being one contributes nothing (its
///   rolls were already counted as the strike's bonus);
/// - a spare contributes ten plus the next roll;
/// - an open frame contributes its two rolls.
pub open spec fn spec_score_from(rolls: Seq<u16>, frame: int, previous_was_strike: bool) -> int
    decreases 11 - frame,
{
    if frame > 10 {
        0
    } else {
        let first_roll_index = (frame - 1) * 2;
        let first_roll = spec_roll_at(rolls, first_roll_index);
        if spec_is_strike(first_roll) {
            spec_strike_points(rolls, first_roll_index, frame) + spec_score_from(
                rolls,
                frame + 1,
                true,
            )
        } else if previous_was_strike {
            spec_score_from(rolls, frame + 1, false)
        } else if spec_is_spare(first_roll, spec_roll_at(rolls, first_roll_index + 1)) {
            10 + spec_roll_at(rolls, first_roll_index + 2) + spec_score_from(
                rolls,
                frame + 1,
                false,
            )
        } else {
            first_roll + spec_roll_at(rolls, first_roll_index + 1) + spec_score_from(
                rolls,
                frame + 1,
                false,
            )
        }
    }
}

/// The final score of a game whose log is `rolls`: the frame contributions
/// summed from the first frame on.
pub open spec fn spec_score(rolls: Seq<u16>) -> int {
    spec_score_from(rolls, 1, false)
}

/// Law: `score` is idempotent. Its result is pinned by its contract to the
/// roll log alone, so any two results that meet [`BowlingGame::score`]'s
/// postcondition for the same game — in particular the results of repeated
/// calls on one completed game — are equal.
pub proof fn lemma_score_idempotent(game: BowlingGame, first: Option<u16>, second: Option<u16>)
    requires
        first is Some <==> spec_complete(game.rolls()),
        first matches Some(total) ==> total == spec_score(game.rolls()),
        second is Some <==> spec_complete(game.rolls()),
        second matches Some(total) ==> total == spec_score(game.rolls()),
    ensures
        first == second,
{
}

/// With every logged pin count at most ten, each slot reads at most ten.
proof fn lemma_roll_at_bound(rolls: Seq<u16>, i: int)
    requires
        rolls_valid(rolls),
    ensures
        spec_roll_at(rolls, i) <= 10,
{
}

/// With every logged pin count at most ten, a strike contributes at most 50
/// points, so frames `frame..=10` together contribute between 0 and
/// `(11 - frame) * 50`.
proof fn lemma_score_from_bounds(rolls: Seq<u16>, frame: int, previous_was_strike: bool)
    requires
        rolls_valid(rolls),
        1 <= frame <= 11,
    ensures
        0 <= spec_score_from(rolls, frame, previous_was_strike) <= (11 - frame) * 50,
    decreases 11 - frame,
{
    if frame <= 10 {
        let first_roll_index = (frame - 1) * 2;
        lemma_roll_at_bound(rolls, first_roll_index);
        lemma_roll_at_bound(rolls, first_roll_index + 1);
        lemma_roll_at_bound(rolls, first_roll_index + 2);
        lemma_roll_at_bound(rolls, first_roll_index + 3);
        lemma_roll_at_bound(rolls, first_roll_index + 4);
        lemma_score_from_bounds(rolls, frame + 1, true);
        lemma_score_from_bounds(rolls, frame + 1, false);
    }
}

impl BowlingGame {
    /// The recorded roll log. Its length is the roll cursor: a strike
    /// contributes its pin count followed by the skipped (zero) second slot
    /// of its frame.
    pub closed spec fn rolls(self) -> Seq<u16> {
        self.all_rolls@
    }

    /// The advisory frame counter.
    pub closed spec fn frames(self) -> int {
        self.frame_counter as int
    }

    /// Well-formedness: every logged pin count is at most ten, and the frame
    /// counter never passes the last frame.
    pub open spec fn wf(self) -> bool {
        &&& rolls_valid(self.rolls())
        &&& 0 <= self.frames() <= LAST_FRAME
    }

    /// Construct an empty game: no rolls, no frames advanced.
    pub fn new() -> (game: Self)
        ensures
            game.wf(),
            game.rolls() == Seq::<u16>::empty(),
            game.frames() == 0,
    {
        Self { all_rolls: Vec::new(), frame_counter: 0 }
    }

    /// Record one throw of `pins` pins.
    ///
    /// A completed game rejects every further roll with
    /// [`Error::GameComplete`]; an invalid pin count (more than ten pins, or
    /// a frame's two rolls exceeding ten together) is rejected with
    /// [`Error::NotEnoughPinsLeft`]. A rejected roll leaves the game
    /// untouched. An accepted roll is appended to the log — a strike also
    /// consumes its frame's second slot, advancing the cursor by two — and
    /// the frame counter advances whenever the cursor lands on a frame
    /// boundary before the last frame.
    pub fn roll(&mut self, pins: u16) -> (result: Result<(), Error>)
        requires
            old(self).wf(),
        ensures
            final(self).wf(),
            spec_complete(old(self).rolls()) ==> {
                &&& result == Result::<(), Error>::Err(Error::GameComplete)
                &&& final(self).rolls() == old(self).rolls()
                &&& final(self).frames() == old(self).frames()
            },
            !spec_complete(old(self).rolls()) && !spec_roll_valid(old(self).rolls(), pins) ==> {
                &&& result == Result::<(), Error>::Err(Error::NotEnoughPinsLeft)
                &&& final(self).rolls() == old(self).rolls()
                &&& final(self).frames() == old(self).frames()
            },
            !spec_complete(old(self).rolls()) && spec_roll_valid(old(self).rolls(), pins) ==> {
                &&& result == Result::<(), Error>::Ok(())
                &&& final(self).rolls() == if spec_is_strike(pins) {
                    old(self).rolls().push(pins).push(0u16)
                } else {
                    old(self).rolls().push(pins)
                }
                &&& final(self).frames() == if final(self).rolls().len() % 2 == 0
                    && old(self).frames() < LAST_FRAME {
                    old(self).frames() + 1
                } else {
                    old(self).frames()
                }
            },
    {
        if self.is_game_complete() {
            return Err(Error::GameComplete);
        }

        match self.is_valid_number_of_pins(pins) {
            Err(error) => return Err(error),
            _ => (),
        };

        self.all_rolls.push(pins);

        if BowlingGame::is_strike(pins) {
            // the strike consumes the frame's second slot: the cursor skips it
            self.all_rolls.push(0);
        }

        if self.all_rolls.len() % 2 == 0 && self.frame_counter < LAST_FRAME {
            self.frame_counter += 1;
        }
        Ok(())
    }

    /// The pin count at slot `index` of the log; slots past the cursor read
    /// as zero.
    fn roll_at(&self, index: usize) -> (pins: u16)
        ensures
            pins == spec_roll_at(self.rolls(), index as int),
    {
        if index < self.all_rolls.len() {
            self.all_rolls[index]
        } else {
            0
        }
    }

    fn is_strike(pins: u16) -> (r: bool)
        ensures
            r == spec_is_strike(pins),
    {
        pins == STRIKE_PINS
    }

    fn is_spare(first_roll: u16, second_roll: u16) -> (r: bool)
        ensures
            r == spec_is_spare(first_roll, second_roll),
    {
        (first_roll as u32) + (second_roll as u32) == 10 && !BowlingGame::is_strike(first_roll)
    }

    fn is_last_frame(frame: usize) -> (r: bool)
        ensures
            r == (frame == LAST_FRAME),
    {
        frame == LAST_FRAME
    }

    fn is_game_complete(&self) -> (r: bool)
        ensures
            r == spec_complete(self.rolls()),
    {
        let last_frame_is_spare = BowlingGame::is_spare(self.roll_at(18), self.roll_at(19));
        let last_frame_is_strike = BowlingGame::is_strike(self.roll_at(18));

        if last_frame_is_spare {
            // a spare in the last frame earns the player one extra roll
            self.all_rolls.len() >= 21
        } else if last_frame_is_strike {
            if BowlingGame::is_strike(self.roll_at(20)) {
                self.all_rolls.len() == 24
            } else {
                self.all_rolls.len() == 22
            }
        } else {
            self.all_rolls.len() == 20
        }
    }

    /// The final score once the game is complete, and no value before that.
    ///
    /// Calling it early is expected usage, not a fault: the absence of a
    /// score is the answer. The score is a pure function of the roll log, so
    /// repeated calls agree.
    pub fn score(&self) -> (result: Option<u16>)
        requires
            self.wf(),
        ensures
            result is Some <==> spec_complete(self.rolls()),
            result matches Some(total) ==> total == spec_score(self.rolls()),
    {
        if !self.is_game_complete() {
            return None;
        }
        let mut score: u16 = 0;

        let mut previous_was_strike = false;

        let mut frame: usize = 1;
        while frame <= LAST_FRAME
            invariant
                self.wf(),
                1 <= frame <= 11,
                score as int == spec_score(self.rolls()) - spec_score_from(
                    self.rolls(),
                    frame as int,
                    previous_was_strike,
                ),
            decreases 11 - frame,
        {
            proof {
                lemma_score_from_bounds(self.rolls(), 1, false);
                lemma_score_from_bounds(self.rolls(), frame as int, previous_was_strike);
                lemma_score_from_bounds(self.rolls(), frame as int + 1, true);
                lemma_score_from_bounds(self.rolls(), frame as int + 1, false);
            }
            let first_roll_index = (frame - 1) * 2;
            let first_roll = self.roll_at(first_roll_index);

            if BowlingGame::is_strike(first_roll) {
                score = score + self.handle_strike_score(first_roll_index, frame);
                previous_was_strike = true;
                frame = frame + 1;
                continue;
            }
            if previous_was_strike {
                previous_was_strike = false;
                frame = frame + 1;
                continue;
            }

            let second_roll_index = first_roll_index + 1;
            let second_roll = self.roll_at(second_roll_index);
            if BowlingGame::is_spare(first_roll, second_roll) {
                proof {
                    lemma_roll_at_bound(self.rolls(), second_roll_index as int + 1);
                }
                score = score + 10 + self.roll_at(second_roll_index + 1);
                frame = frame + 1;
                continue;
            }

            proof {
                lemma_roll_at_bound(self.rolls(), first_roll_index as int);
                lemma_roll_at_bound(self.rolls(), second_roll_index as int);
            }
            score = score + first_roll + second_roll;
            frame = frame + 1;
        }

        Some(score)
    }

    /// Points for the strike at `strike_roll_index`: ten plus the bonus read
    /// from the two rolls that follow, per [`spec_strike_points`].
    fn handle_strike_score(&self, strike_roll_index: usize, frame: usize) -> (points: u16)
        requires
            self.wf(),
            strike_roll_index + 4 <= usize::MAX,
        ensures
            points == spec_strike_points(self.rolls(), strike_roll_index as int, frame as int),
            points <= 50,
    {
        proof {
            lemma_roll_at_bound(self.rolls(), strike_roll_index as int + 2);
            lemma_roll_at_bound(self.rolls(), strike_roll_index as int + 3);
            lemma_roll_at_bound(self.rolls(), strike_roll_index as int + 4);
        }
        let next_roll = self.roll_at(strike_roll_index + 2);

        let is_next_roll_strike = BowlingGame::is_strike(next_roll);

        let next_roll_index = match is_next_roll_strike {
            true => strike_roll_index + 4,
            false => strike_roll_index + 3,
        };

        let next_next_move = self.roll_at(next_roll_index);

        if is_next_roll_strike || BowlingGame::is_last_frame(frame) {
            STRIKE_POINTS + next_roll + next_next_move
        } else {
            STRIKE_POINTS + (2 * next_roll) + (2 * next_next_move)
        }
    }

    fn is_valid_number_of_pins(&self, pins: u16) -> (r: Result<(), Error>)
        requires
            self.wf(),
        ensures
            r == if spec_roll_valid(self.rolls(), pins) {
                Result::<(), Error>::Ok(())
            } else {
                Result::<(), Error>::Err(Error::NotEnoughPinsLeft)
            },
    {
        if pins > 10 {
            return Err(Error::NotEnoughPinsLeft);
        }

        let is_second_roll_in_frame = self.all_rolls.len() % 2 != 0;

        if is_second_roll_in_frame {
            let previous_roll = self.all_rolls[self.all_rolls.len() - 1];
            let frame_pins = previous_roll + pins;
            if frame_pins > 10 {
                return Err(Error::NotEnoughPinsLeft);
            }
        }

        Ok(())
    }
}

} // verus!

