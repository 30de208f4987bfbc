//! Facts about the board's spec functions: which cells are listed as moves,
//! how many, and what a move followed by its undo leaves.
use vstd::prelude::*;

use crate::game::{
    board_moves, board_played, completes, full, put, row_moves, row_played, square, GameView,
    Mark, Move,
};

verus! {

/// Cell `mv` lies on a `dim`×`dim` board and is empty there.
pub open spec fn free_cell(b: Seq<Seq<Mark>>, dim: nat, mv: Move) -> bool {
    mv.x < dim && mv.y < dim && b[mv.x as int][mv.y as int] == Mark::Empty
}

proof fn lemma_row_moves_free(b: Seq<Seq<Mark>>, i: nat, n: nat, dim: nat)
    requires
        square(b, dim),
        i < dim,
        n <= dim,
        dim <= usize::MAX,
    ensures
        forall|k: int|
            0 <= k < row_moves(b, i, n).len() ==> {
                &&& free_cell(b, dim, #[trigger] row_moves(b, i, n)[k])
                &&& row_moves(b, i, n)[k].x == i
            },
    decreases n,
{
    if n > 0 {
        let prev = row_moves(b, i, (n - 1) as nat);
        lemma_row_moves_free(b, i, (n - 1) as nat, dim);
        assert forall|k: int| 0 <= k < row_moves(b, i, n).len() implies {
            &&& free_cell(b, dim, #[trigger] row_moves(b, i, n)[k])
            &&& row_moves(b, i, n)[k].x == i
        } by {
            if k < prev.len() {
                assert(row_moves(b, i, n)[k] == prev[k]);
            }
        }
    }
}

proof fn lemma_board_moves_free(b: Seq<Seq<Mark>>, m: nat, dim: nat)
    requires
        square(b, dim),
        m <= dim,
        dim <= usize::MAX,
    ensures
        forall|k: int|
            0 <= k < board_moves(b, m, dim).len() ==> free_cell(
                b,
                dim,
                #[trigger] board_moves(b, m, dim)[k],
            ),
    decreases m,
{
    if m > 0 {
        let prev = board_moves(b, (m - 1) as nat, dim);
        let row = row_moves(b, (m - 1) as nat, dim);
        lemma_board_moves_free(b, (m - 1) as nat, dim);
        lemma_row_moves_free(b, (m - 1) as nat, dim, dim);
        assert forall|k: int| 0 <= k < board_moves(b, m, dim).len() implies free_cell(
            b,
            dim,
            #[trigger] board_moves(b, m, dim)[k],
        ) by {
            if k < prev.len() {
                assert(board_moves(b, m, dim)[k] == prev[k]);
            } else {
                assert(board_moves(b, m, dim)[k] == row[k - prev.len()]);
            }
        }
    }
}

/// Each listed move lies on the board and names an empty cell.
pub proof fn lemma_moves_free(g: GameView)
    requires
        g.wf(),
        g.dim <= usize::MAX,
    ensures
        forall|k: int|
            0 <= k < g.moves().len() ==> {
                &&& g.in_range(#[trigger] g.moves()[k])
                &&& g.cell(g.moves()[k]) == Mark::Empty
            },
{
    lemma_board_moves_free(g.board, g.dim, g.dim);
    assert forall|k: int| 0 <= k < g.moves().len() implies {
        &&& g.in_range(#[trigger] g.moves()[k])
        &&& g.cell(g.moves()[k]) == Mark::Empty
    } by {
        assert(free_cell(g.board, g.dim, g.moves()[k]));
    }
}

proof fn lemma_row_none(b: Seq<Seq<Mark>>, i: nat, n: nat)
    ensures
        row_moves(b, i, n).len() == 0 <==> forall|j: int|
            0 <= j < n ==> #[trigger] b[i as int][j] != Mark::Empty,
    decreases n,
{
    if n > 0 {
        lemma_row_none(b, i, (n - 1) as nat);
        if row_moves(b, i, n).len() == 0 {
            assert forall|j: int| 0 <= j < n implies #[trigger] b[i as int][j] != Mark::Empty by {
                if j < n - 1 {
                    assert(row_moves(b, i, (n - 1) as nat).len() == 0);
                }
            }
        }
    }
}

proof fn lemma_board_none(b: Seq<Seq<Mark>>, m: nat, dim: nat)
    ensures
        board_moves(b, m, dim).len() == 0 <==> forall|i: int, j: int|
            0 <= i < m && 0 <= j < dim ==> #[trigger] b[i][j] != Mark::Empty,
    decreases m,
{
    if m > 0 {
        lemma_board_none(b, (m - 1) as nat, dim);
        lemma_row_none(b, (m - 1) as nat, dim);
        if board_moves(b, m, dim).len() == 0 {
            assert forall|i: int, j: int| 0 <= i < m && 0 <= j < dim implies #[trigger] b[i][j]
                != Mark::Empty by {
                if i < m - 1 {
                } else {
                    assert(b[(m - 1) as int][j] != Mark::Empty);
                }
            }
        } else {
        }
    }
}

/// No move is listed exactly when the board is full.
pub proof fn lemma_no_moves_iff_full(b: Seq<Seq<Mark>>, dim: nat)
    requires
        square(b, dim),
    ensures
        board_moves(b, dim, dim).len() == 0 <==> full(b),
{
    lemma_board_none(b, dim, dim);
}

proof fn lemma_row_moves_same(b1: Seq<Seq<Mark>>, b2: Seq<Seq<Mark>>, i: nat, n: nat)
    requires
        b1[i as int] == b2[i as int],
    ensures
        row_moves(b1, i, n) == row_moves(b2, i, n),
    decreases n,
{
    if n > 0 {
        lemma_row_moves_same(b1, b2, i, (n - 1) as nat);
    }
}

proof fn lemma_row_moves_put(b: Seq<Seq<Mark>>, m: Move, mk: Mark, n: nat, dim: nat)
    requires
        square(b, dim),
        m.x < dim,
        m.y < dim,
        n <= dim,
        b[m.x as int][m.y as int] == Mark::Empty,
        mk != Mark::Empty,
    ensures
        row_moves(put(b, m, mk), m.x as nat, n).len() + (if m.y < n { 1int } else { 0int })
            == row_moves(b, m.x as nat, n).len(),
    decreases n,
{
    if n > 0 {
        lemma_row_moves_put(b, m, mk, (n - 1) as nat, dim);
    }
}

proof fn lemma_board_moves_put(b: Seq<Seq<Mark>>, m: Move, mk: Mark, rows: nat, dim: nat)
    requires
        square(b, dim),
        m.x < dim,
        m.y < dim,
        rows <= dim,
        b[m.x as int][m.y as int] == Mark::Empty,
        mk != Mark::Empty,
    ensures
        board_moves(put(b, m, mk), rows, dim).len() + (if m.x < rows { 1int } else { 0int })
            == board_moves(b, rows, dim).len(),
    decreases rows,
{
    if rows > 0 {
        let r = (rows - 1) as nat;
        lemma_board_moves_put(b, m, mk, r, dim);
        if r == m.x {
            lemma_row_moves_put(b, m, mk, dim, dim);
        } else {
            lemma_row_moves_same(put(b, m, mk), b, r, dim);
        }
    }
}

/// A legal move takes exactly one cell off the list of moves.
pub proof fn lemma_play_uses_one_move(g: GameView, m: Move)
    requires
        g.wf(),
        g.valid(m),
    ensures
        g.play(m).moves().len() + 1 == g.moves().len(),
{
    lemma_board_moves_put(g.board, m, g.player, g.dim, g.dim);
}

proof fn lemma_row_count(b: Seq<Seq<Mark>>, i: nat, n: nat)
    ensures
        row_moves(b, i, n).len() + row_played(b, i, n) == n,
    decreases n,
{
    if n > 0 {
        lemma_row_count(b, i, (n - 1) as nat);
    }
}

proof fn lemma_board_count(b: Seq<Seq<Mark>>, rows: nat, dim: nat)
    ensures
        board_moves(b, rows, dim).len() + board_played(b, rows, dim) == rows * dim,
    decreases rows,
{
    if rows > 0 {
        lemma_board_count(b, (rows - 1) as nat, dim);
        lemma_row_count(b, (rows - 1) as nat, dim);
        assert((rows - 1) * dim + dim == rows * dim) by (nonlinear_arith);
    }
}

/// The listed moves and the occupied cells together make up the whole board.
pub proof fn lemma_moves_and_played_cover_board(g: GameView)
    ensures
        g.moves().len() + g.played() == g.dim * g.dim,
{
    lemma_board_count(g.board, g.dim, g.dim);
}

/// Undoing a legal move gives back the board and the player to move from before it.
pub proof fn lemma_undo_restores_board(g: GameView, m: Move)
    requires
        g.wf(),
        g.valid(m),
    ensures
        g.play(m).unplay(m).board == g.board,
        g.play(m).unplay(m).player == g.player,
{
    let b2 = g.play(m).unplay(m).board;
    assert(b2[m.x as int] =~= g.board[m.x as int]);
    assert(b2 =~= g.board);
}

/// A move that fills a row, a column or a diagonal with its mark ends the game with
/// that mark as winner; one that fills the last cell without such a line ends it
/// with no winner.
pub proof fn lemma_line_or_full_board_ends_game(g: GameView, m: Move)
    requires
        g.wf(),
        g.valid(m),
    ensures
        completes(put(g.board, m, g.player), m, g.player) ==> g.play(m).is_over && g.play(m).winner
            == g.player,
        !completes(put(g.board, m, g.player), m, g.player) && full(put(g.board, m, g.player))
            ==> g.play(m).is_over && g.play(m).winner == Mark::Empty,
        !completes(put(g.board, m, g.player), m, g.player) && !full(put(g.board, m, g.player))
            ==> !g.play(m).is_over && g.play(m).winner == Mark::Empty,
{
}

} // verus!
