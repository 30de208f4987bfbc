//! Automated players.
use vstd::prelude::*;

use crate::game::{Game, GameView, Move};

pub mod random_player;
pub mod minimax_player;

verus! {

/// Something that picks a move for the side to play.
pub trait Player {
    /// `r` is an answer this player may give in position `g`.
    spec fn chooses(&self, g: GameView, r: Option<Move>) -> bool;

    /// Picks a legal move, or `None` when there is none; the game is left as it was.
    /// A finished game is not to be asked.
    fn get_move(&self, game: &mut Game) -> (r: Option<Move>)
        requires
            old(game).wf(),
            !old(game)@.is_over,
        ensures
            final(game).wf(),
            final(game)@ == old(game)@,
            self.chooses(old(game)@, r),
            r is None <==> old(game)@.moves().len() == 0,
            r matches Some(m) ==> old(game)@.moves().contains(m),
    ;
}

} // verus!
