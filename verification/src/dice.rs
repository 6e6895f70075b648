use vstd::prelude::*;

use crate::rng::rand_in_range;

verus! {

/// The larger of two integers.
pub open spec fn int_max(a: int, b: int) -> int {
    if a >= b {
        a
    } else {
        b
    }
}

/// A dice expression such as 1d6, 2d4 or 1d4-1: `num_dice` dice with `sides`
/// faces each, plus a flat `modifier`. A roll never goes below zero.
#[derive(Debug, Clone, Copy, PartialEq, Eq, Structural)]
pub struct DiceRoll {
    pub num_dice: u8,
    pub sides: u8,
    pub modifier: i8,
}

impl DiceRoll {
    /// A dice expression that can be rolled without fault: a die needs at
    /// least one face.
    pub open spec fn wf(self) -> bool {
        self.num_dice > 0 ==> self.sides >= 1
    }

    /// The least value a roll can produce: every die shows at least 1, and
    /// the result is floored at zero.
    pub open spec fn min_roll(self) -> int {
        int_max(0, self.num_dice + self.modifier)
    }

    /// The greatest value a roll can produce: every die shows `sides`.
    pub open spec fn max_roll(self) -> int {
        int_max(0, self.num_dice * self.sides + self.modifier)
    }

    /// The possible-roll range of a well-formed dice expression is non-empty
    /// and non-negative.
    pub proof fn lemma_range(self)
        requires
            self.wf(),
        ensures
            0 <= self.min_roll() <= self.max_roll(),
    {
        assert(self.num_dice <= self.num_dice * self.sides) by (nonlinear_arith)
            requires
                self.num_dice == 0 || self.sides >= 1,
                self.num_dice >= 0,
        ;
    }

    pub fn new(num_dice: u8, sides: u8, modifier: i8) -> (r: Self)
        ensures
            r == (DiceRoll { num_dice, sides, modifier }),
    {
        DiceRoll { num_dice, sides, modifier }
    }

    /// Roll the dice: the sum of `num_dice` uniform draws in `1..=sides`,
    /// plus `modifier`, floored at zero.
    pub fn roll(&self) -> (r: i32)
        requires
            self.wf(),
        ensures
            r >= 0,
            self.min_roll() <= r <= self.max_roll(),
    {
        let mut total: i64 = 0;
        let mut i: u8 = 0;
        while i < self.num_dice
            invariant
                self.wf(),
                0 <= i <= self.num_dice,
                i <= total <= i * self.sides,
            decreases self.num_dice - i,
        {
            proof {
                assert(i * self.sides <= 255 * 255 && (i + 1) * self.sides == i * self.sides
                    + self.sides) by (nonlinear_arith)
                    requires
                        0 <= i <= 255,
                        0 <= self.sides <= 255,
                ;
            }
            let d = rand_in_range(1, self.sides as i64);
            total = total + d;
            i = i + 1;
        }
        proof {
            assert(self.num_dice * self.sides <= 255 * 255) by (nonlinear_arith)
                requires
                    0 <= self.num_dice <= 255,
                    0 <= self.sides <= 255,
            ;
        }
        let with_mod: i64 = total + self.modifier as i64;
        let floored: i64 = if with_mod < 0 {
            0
        } else {
            with_mod
        };
        floored as i32
    }

    /// Twice the expected value of a roll, ignoring the floor at zero:
    /// `num_dice * (1 + sides) + 2 * modifier`. Doubling keeps the value an
    /// exact integer; it is used only by the card-selection heuristic.
    pub fn average_x2(&self) -> (r: i32)
        ensures
            r == self.num_dice * (1 + self.sides) + 2 * self.modifier,
    {
        proof {
            assert(0 <= self.num_dice * (1 + self.sides) <= 255 * 256) by (nonlinear_arith)
                requires
                    0 <= self.num_dice <= 255,
                    0 <= self.sides <= 255,
            ;
        }
        (self.num_dice as i32) * (1 + self.sides as i32) + 2 * (self.modifier as i32)
    }
}

} // verus!
