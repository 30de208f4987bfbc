use vstd::prelude::*;

use crate::agent::Player;
use crate::game::{Game, GameView, Move};

verus! {

/// Plays a legal move drawn at random.
pub struct RandomPlayer;

impl RandomPlayer {
    pub fn new() -> (r: RandomPlayer)
        ensures
            r == RandomPlayer,
    {
        RandomPlayer
    }
}

impl Player for RandomPlayer {
    open spec fn chooses(&self, g: GameView, r: Option<Move>) -> bool {
        match r {
            None => g.moves().len() == 0,
            Some(m) => g.moves().contains(m),
        }
    }

    fn get_move(&self, game: &mut Game) -> (r: Option<Move>) {
        game.get_random_move()
    }
}

} // verus!
