use vstd::prelude::*;

verus! {

/// Points a side needs to win the round.
pub const WIN_THRESHOLD: u16 = 101;

/// One of the two sides of the game.
#[derive(Clone, Copy, Debug, PartialEq, Eq, Structural)]
pub enum Side {
    Player,
    Opponent,
}

/// The two sides' points in the current round.
#[derive(Clone, Copy, Debug, PartialEq, Eq, Structural)]
pub struct Score {
    pub player: u16,
    pub opponent: u16,
}

/// `a + b`, held at the largest `u16` instead of overflowing.
pub open spec fn saturating_sum(a: u16, b: u16) -> u16 {
    if a as int + b as int > u16::MAX as int {
        u16::MAX
    } else {
        (a + b) as u16
    }
}

/// The score after `amount` points go to `side`.
pub open spec fn awarded(s: Score, side: Side, amount: u16) -> Score {
    match side {
        Side::Player => Score { player: saturating_sum(s.player, amount), ..s },
        Side::Opponent => Score { opponent: saturating_sum(s.opponent, amount), ..s },
    }
}

/// The score after each award of `awards` in turn.
pub open spec fn awarded_all(s: Score, awards: Seq<(Side, u16)>) -> Score
    decreases awards.len(),
{
    if awards.len() == 0 {
        s
    } else {
        awarded(awarded_all(s, awards.drop_last()), awards.last().0, awards.last().1)
    }
}

pub open spec fn points_of_side(s: Score, side: Side) -> u16 {
    match side {
        Side::Player => s.player,
        Side::Opponent => s.opponent,
    }
}

impl Score {
    /// Both sides at zero.
    pub fn new() -> (r: Score)
        ensures
            r.player == 0 && r.opponent == 0,
    {
        Score { player: 0, opponent: 0 }
    }

    /// Gives `amount` points to `side`; the total stops at the largest `u16`
    /// rather than overflowing.
    pub fn award_points(&mut self, side: Side, amount: u16)
        ensures
            *final(self) == awarded(*old(self), side, amount),
    {
        match side {
            Side::Player => {
                self.player = self.player.saturating_add(amount);
            },
            Side::Opponent => {
                self.opponent = self.opponent.saturating_add(amount);
            },
        }
    }

    /// Points of `side`.
    pub fn points(&self, side: Side) -> (r: u16)
        ensures
            r == points_of_side(*self, side),
    {
        match side {
            Side::Player => self.player,
            Side::Opponent => self.opponent,
        }
    }

    /// Whether `side` has reached `threshold`.
    pub fn has_won(&self, side: Side, threshold: u16) -> (r: bool)
        ensures
            r == (points_of_side(*self, side) >= threshold),
    {
        self.points(side) >= threshold
    }

    /// Sets both sides back to zero for a new round.
    pub fn reset_for_new_round(&mut self)
        ensures
            final(self).player == 0 && final(self).opponent == 0,
    {
        self.player = 0;
        self.opponent = 0;
    }
}

/// Points never go down: after any sequence of awards each side has at least what it had.
pub proof fn lemma_awards_monotonic(s: Score, awards: Seq<(Side, u16)>)
    ensures
        awarded_all(s, awards).player >= s.player,
        awarded_all(s, awards).opponent >= s.opponent,
    decreases awards.len(),
{
    if awards.len() > 0 {
        lemma_awards_monotonic(s, awards.drop_last());
    }
}

} // verus!
