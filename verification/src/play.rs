//! Plays: duels with both rivals and both moves known.

use vstd::prelude::*;
use crate::token::Move;

verus! {

/// A play as contracts speak of it.
pub struct PlayView {
    pub player1: Seq<char>,
    pub player2: Seq<char>,
    pub move1: Move,
    pub move2: Move,
}

/// One duel: the names of the two rivals and the move that each of them
/// chose. A play does not change once it is made.
#[derive(Debug, PartialEq, Eq)]
pub struct Play {
    player1: String,
    player2: String,
    move1: Move,
    move2: Move,
}

impl View for Play {
    type V = PlayView;

    closed spec fn view(&self) -> PlayView {
        PlayView {
            player1: self.player1@,
            player2: self.player2@,
            move1: self.move1,
            move2: self.move2,
        }
    }
}

impl Clone for Play {
    fn clone(&self) -> (copy: Self)
        ensures
            copy@ == self@,
    {
        Play {
            player1: self.player1.clone(),
            player2: self.player2.clone(),
            move1: self.move1,
            move2: self.move2,
        }
    }
}

impl Play {
    /// The play in which `player1` chose `move1` and `player2` chose `move2`.
    pub fn new(player1: String, player2: String, move1: Move, move2: Move) -> (play: Self)
        ensures
            play@ == (PlayView { player1: player1@, player2: player2@, move1, move2 }),
    {
        Self { player1, player2, move1, move2 }
    }

    /// The name of the first rival.
    pub fn player1(&self) -> (name: &str)
        ensures
            name@ == self@.player1,
    {
        self.player1.as_str()
    }

    /// The name of the second rival.
    pub fn player2(&self) -> (name: &str)
        ensures
            name@ == self@.player2,
    {
        self.player2.as_str()
    }

    /// The move of the first rival.
    pub fn move1(&self) -> (chosen: Move)
        ensures
            chosen == self@.move1,
    {
        self.move1
    }

    /// The move of the second rival.
    pub fn move2(&self) -> (chosen: Move)
        ensures
            chosen == self@.move2,
    {
        self.move2
    }
}

/// The views of a sequence of plays, in order.
pub open spec fn play_views(plays: Seq<Play>) -> Seq<PlayView> {
    Seq::new(plays.len(), |i: int| plays[i]@)
}

} // verus!
