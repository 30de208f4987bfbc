use vstd::prelude::*;

use crate::agent::Player;
use crate::game::lemmas::{lemma_moves_free, lemma_play_uses_one_move, lemma_undo_restores_board};
use crate::game::{Game, GameView, Mark, Move};

verus! {

/// Searches the game tree to a fixed number of plies and plays the best move found.
pub struct MinimaxPlayer {
    pub depth: usize,
    pub maximizing: bool,
}

/// `s` beats `best` for a search that looks for the highest score (`up`) or the lowest.
pub open spec fn improves(up: bool, s: int, best: int) -> bool {
    if up {
        s > best
    } else {
        s < best
    }
}

impl MinimaxPlayer {
    pub fn new(depth: usize, maximizing: bool) -> (r: MinimaxPlayer)
        ensures
            r == (MinimaxPlayer { depth, maximizing }),
    {
        MinimaxPlayer { depth, maximizing }
    }

    /// The search at `current_depth` looks for the highest score.
    pub open spec fn seeks_max(&self, current_depth: nat) -> bool {
        self.maximizing != (current_depth % 2 == 1)
    }

    /// The score of a finished game: a win for X is the best outcome for a maximizing
    /// player and the worst for a minimizing one; a draw is neutral.
    pub open spec fn terminal_score(&self, winner: Mark) -> int {
        match winner {
            Mark::Empty => 0,
            Mark::X => if self.maximizing { i32::MAX as int } else { i32::MIN as int },
            Mark::O => if self.maximizing { i32::MIN as int } else { i32::MAX as int },
        }
    }

    /// Where the search at `current_depth` starts before any move is scored.
    pub open spec fn start_score(&self, current_depth: nat) -> int {
        if self.seeks_max(current_depth) {
            i32::MIN as int
        } else {
            i32::MAX as int
        }
    }

    /// The minimax value of `g`, searched from `current_depth`.
    pub open spec fn value(&self, g: GameView, current_depth: nat) -> int
        decreases g.moves().len(), 1nat, 0nat,
    {
        if g.is_over {
            self.terminal_score(g.winner)
        } else if current_depth == self.depth {
            0
        } else {
            self.best_of(g, current_depth, g.moves().len())
        }
    }

    /// The best value among the first `k` moves of `g`, each scored one ply deeper;
    /// an earlier move keeps its place on a tie. A listed move always takes a cell
    /// off the list (`lemma_play_uses_one_move`); the test below only lets the
    /// recursion see that it ends.
    pub open spec fn best_of(&self, g: GameView, current_depth: nat, k: nat) -> int
        decreases g.moves().len(), 0nat, k,
    {
        if k == 0 {
            self.start_score(current_depth)
        } else {
            let prev = self.best_of(g, current_depth, (k - 1) as nat);
            let child = g.play(g.moves()[k - 1]);
            if child.moves().len() < g.moves().len() {
                let s = self.value(child, current_depth + 1);
                if improves(self.seeks_max(current_depth), s, prev) {
                    s
                } else {
                    prev
                }
            } else {
                prev
            }
        }
    }

    /// The score of the `k`-th legal move of `g`, as the root of the search sees it.
    pub open spec fn move_score(&self, g: GameView, k: int) -> int {
        self.value(g.play(g.moves()[k]), 0)
    }

    /// Move `k` of `g` scores best, and every earlier move scores strictly worse.
    pub open spec fn first_best(&self, g: GameView, k: int) -> bool {
        &&& 0 <= k < g.moves().len()
        &&& forall|j: int|
            0 <= j < g.moves().len() ==> !improves(
                self.maximizing,
                #[trigger] self.move_score(g, j),
                self.move_score(g, k),
            )
        &&& forall|j: int|
            0 <= j < k ==> improves(
                self.maximizing,
                self.move_score(g, k),
                #[trigger] self.move_score(g, j),
            )
    }

    /// The minimax value of the game, searched from `current_depth`; the game is
    /// left as it was.
    pub fn minimax(&self, game: &mut Game, current_depth: usize) -> (r: i32)
        requires
            old(game).wf(),
            current_depth + old(game)@.moves().len() <= usize::MAX,
        ensures
            final(game).wf(),
            final(game)@ == old(game)@,
            r == self.value(old(game)@, current_depth as nat),
        decreases old(game)@.moves().len(),
    {
        if game.is_over {
            return match game.winner {
                Mark::Empty => 0,
                Mark::X => if self.maximizing { i32::MAX } else { i32::MIN },
                Mark::O => if self.maximizing { i32::MIN } else { i32::MAX },
            };
        } else if current_depth == self.depth {
            return game.evaluate();
        }
        let ghost g0 = game@;
        let up = self.maximizing != (current_depth % 2 == 1);
        let mut best_score: i32 = if up { i32::MIN } else { i32::MAX };
        let moves = game.get_moves();
        proof {
            lemma_moves_free(g0);
        }
        let mut k: usize = 0;
        while k < moves.len()
            invariant
                game.wf(),
                game@ == g0,
                old(game)@ == g0,
                !g0.is_over,
                current_depth != self.depth,
                current_depth + g0.moves().len() <= usize::MAX,
                moves@ == g0.moves(),
                k <= moves@.len(),
                up == self.seeks_max(current_depth as nat),
                forall|i: int|
                    0 <= i < g0.moves().len() ==> {
                        &&& g0.in_range(#[trigger] g0.moves()[i])
                        &&& g0.cell(g0.moves()[i]) == Mark::Empty
                    },
                best_score == self.best_of(g0, current_depth as nat, k as nat),
            decreases moves@.len() - k,
        {
            let m = moves[k];
            assert(g0.moves()[k as int] == m);
            proof {
                lemma_play_uses_one_move(g0, m);
                lemma_undo_restores_board(g0, m);
            }
            let _ = game.make_move(m);
            let score = self.minimax(game, current_depth + 1);
            game.undo_move(m);
            // undo_move leaves the end-of-game flags as the move set them; this
            // position was still going on, so they are put back here.
            game.is_over = false;
            game.winner = Mark::Empty;
            assert(game@ == g0);
            if (up && score > best_score) || (!up && score < best_score) {
                best_score = score;
            }
            k += 1;
        }
        best_score
    }
}

impl Player for MinimaxPlayer {
    open spec fn chooses(&self, g: GameView, r: Option<Move>) -> bool {
        match r {
            None => g.moves().len() == 0,
            Some(m) => exists|k: int| self.first_best(g, k) && g.moves()[k] == m,
        }
    }

    /// Scores every legal move by a search after it and keeps the first of the best.
    fn get_move(&self, game: &mut Game) -> (r: Option<Move>) {
        let ghost g0 = game@;
        let up = self.maximizing;
        let mut best_move: Option<Move> = None;
        let mut best_score: i32 = if up { i32::MIN } else { i32::MAX };
        let ghost mut bi: int = 0;
        let moves = game.get_moves();
        proof {
            lemma_moves_free(g0);
        }
        let mut k: usize = 0;
        while k < moves.len()
            invariant
                game.wf(),
                game@ == g0,
                old(game)@ == g0,
                !g0.is_over,
                moves@ == g0.moves(),
                k <= moves@.len(),
                up == self.maximizing,
                forall|i: int|
                    0 <= i < g0.moves().len() ==> {
                        &&& g0.in_range(#[trigger] g0.moves()[i])
                        &&& g0.cell(g0.moves()[i]) == Mark::Empty
                    },
                best_move is None <==> k == 0,
                k > 0 ==> {
                    &&& 0 <= bi < k
                    &&& best_move == Some(g0.moves()[bi])
                    &&& best_score == self.move_score(g0, bi)
                    &&& forall|j: int|
                        0 <= j < k ==> !improves(
                            up,
                            #[trigger] self.move_score(g0, j),
                            self.move_score(g0, bi),
                        )
                    &&& forall|j: int|
                        0 <= j < bi ==> improves(
                            up,
                            self.move_score(g0, bi),
                            #[trigger] self.move_score(g0, j),
                        )
                },
            decreases moves@.len() - k,
        {
            let m = moves[k];
            assert(g0.moves()[k as int] == m);
            proof {
                lemma_play_uses_one_move(g0, m);
                lemma_undo_restores_board(g0, m);
            }
            let _ = game.make_move(m);
            let score = self.minimax(game, 0);
            game.undo_move(m);
            // As in the search: the position before the move was still going on.
            game.is_over = false;
            game.winner = Mark::Empty;
            assert(game@ == g0);
            assert(score == self.move_score(g0, k as int));
            if best_move.is_none() || (up && score > best_score) || (!up && score < best_score) {
                best_score = score;
                best_move = Some(m);
                proof {
                    bi = k as int;
                }
            }
            k += 1;
        }
        proof {
            if k > 0 {
                assert(self.first_best(g0, bi));
            }
        }
        best_move
    }
}

/// With no look-ahead, a maximizing player with X to move plays a winning move
/// whenever one of the legal moves wins at once.
pub proof fn lemma_takes_win_in_one(p: MinimaxPlayer, g: GameView, w: int, r: Option<Move>)
    requires
        g.wf(),
        !g.is_over,
        g.player == Mark::X,
        p.depth == 0,
        p.maximizing,
        0 <= w < g.moves().len(),
        g.play(g.moves()[w]).winner == Mark::X,
        p.chooses(g, r),
    ensures
        r matches Some(m) && g.play(m).winner == Mark::X,
{
    let k = choose|k: int| p.first_best(g, k) && g.moves()[k] == r->Some_0;
    assert(p.move_score(g, w) == i32::MAX);
    assert(!improves(true, p.move_score(g, w), p.move_score(g, k)));
}

} // verus!
