//! Game state and the rules that change it.
use rand::seq::SliceRandom;
use vstd::prelude::*;

pub mod moves;
pub mod lemmas;
pub use moves::Move;
use lemmas::lemma_no_moves_iff_full;

verus! {

/// What a cell holds.
#[derive(Clone, Copy, PartialEq, Eq, Debug, Structural)]
pub enum Mark {
    X,
    O,
    Empty,
}

/// Why an operation on a game was refused.
#[derive(Clone, Copy, PartialEq, Eq, Debug, Structural)]
pub enum GameError {
    /// A board needs at least one row.
    InvalidDimension,
    /// The move is out of range, on an occupied cell, or the game is over.
    IllegalMove,
}

/// The mark that moves after `m`.
pub open spec fn opponent(m: Mark) -> Mark {
    match m {
        Mark::X => Mark::O,
        Mark::O => Mark::X,
        Mark::Empty => Mark::Empty,
    }
}

/// Everything a game holds, as mathematical values.
pub struct GameView {
    pub board: Seq<Seq<Mark>>,
    pub player: Mark,
    pub is_over: bool,
    pub winner: Mark,
    pub dim: nat,
}

/// The board is `dim` rows of `dim` cells.
pub open spec fn square(b: Seq<Seq<Mark>>, dim: nat) -> bool {
    &&& b.len() == dim
    &&& forall|i: int| 0 <= i < dim ==> #[trigger] b[i].len() == dim
}

/// `b` with cell `(m.x, m.y)` set to `mk`.
pub open spec fn put(b: Seq<Seq<Mark>>, m: Move, mk: Mark) -> Seq<Seq<Mark>> {
    b.update(m.x as int, b[m.x as int].update(m.y as int, mk))
}

impl GameView {
    pub open spec fn wf(self) -> bool {
        &&& self.dim >= 1
        &&& square(self.board, self.dim)
        &&& self.player != Mark::Empty
        &&& self.winner != Mark::Empty ==> self.is_over
    }

    pub open spec fn in_range(self, m: Move) -> bool {
        m.x < self.dim && m.y < self.dim
    }

    pub open spec fn cell(self, m: Move) -> Mark {
        self.board[m.x as int][m.y as int]
    }

    /// A move may be played: the game goes on and the cell is an empty one of the board.
    pub open spec fn valid(self, m: Move) -> bool {
        !self.is_over && self.in_range(m) && self.cell(m) == Mark::Empty
    }
}

/// Row `r` of `b` holds `mk` only.
pub open spec fn all_in_row(b: Seq<Seq<Mark>>, mk: Mark, r: int) -> bool {
    forall|j: int| 0 <= j < b.len() ==> #[trigger] b[r][j] == mk
}

/// Column `c` of `b` holds `mk` only.
pub open spec fn all_in_col(b: Seq<Seq<Mark>>, mk: Mark, c: int) -> bool {
    forall|i: int| 0 <= i < b.len() ==> #[trigger] b[i][c] == mk
}

/// The main diagonal of `b` holds `mk` only.
pub open spec fn all_in_diag(b: Seq<Seq<Mark>>, mk: Mark) -> bool {
    forall|i: int| 0 <= i < b.len() ==> #[trigger] b[i][i] == mk
}

/// The anti-diagonal of `b` holds `mk` only.
pub open spec fn all_in_anti(b: Seq<Seq<Mark>>, mk: Mark) -> bool {
    forall|i: int| 0 <= i < b.len() ==> #[trigger] b[i][b.len() - 1 - i] == mk
}

/// `mk` fills the row or the column of `m`, the main diagonal or the anti-diagonal.
pub open spec fn completes(b: Seq<Seq<Mark>>, m: Move, mk: Mark) -> bool {
    ||| all_in_row(b, mk, m.x as int)
    ||| all_in_col(b, mk, m.y as int)
    ||| all_in_diag(b, mk)
    ||| all_in_anti(b, mk)
}

/// No cell of `b` is empty.
pub open spec fn full(b: Seq<Seq<Mark>>) -> bool {
    forall|i: int, j: int| 0 <= i < b.len() && 0 <= j < b.len() ==> #[trigger] b[i][j] != Mark::Empty
}

/// The empty cells among the first `n` of row `i`, left to right.
pub open spec fn row_moves(b: Seq<Seq<Mark>>, i: nat, n: nat) -> Seq<Move>
    decreases n,
{
    if n == 0 {
        Seq::empty()
    } else {
        let prev = row_moves(b, i, (n - 1) as nat);
        if b[i as int][n - 1] == Mark::Empty {
            prev.push(Move { x: i as usize, y: (n - 1) as usize })
        } else {
            prev
        }
    }
}

/// The empty cells of the first `m` rows, each `dim` long, in row-major order.
pub open spec fn board_moves(b: Seq<Seq<Mark>>, m: nat, dim: nat) -> Seq<Move>
    decreases m,
{
    if m == 0 {
        Seq::empty()
    } else {
        board_moves(b, (m - 1) as nat, dim) + row_moves(b, (m - 1) as nat, dim)
    }
}

/// The occupied cells among the first `n` of row `i`.
pub open spec fn row_played(b: Seq<Seq<Mark>>, i: nat, n: nat) -> nat
    decreases n,
{
    if n == 0 {
        0
    } else {
        row_played(b, i, (n - 1) as nat) + if b[i as int][n - 1] != Mark::Empty { 1nat } else { 0nat }
    }
}

/// The occupied cells of the first `m` rows, each `dim` long.
pub open spec fn board_played(b: Seq<Seq<Mark>>, m: nat, dim: nat) -> nat
    decreases m,
{
    if m == 0 {
        0
    } else {
        board_played(b, (m - 1) as nat, dim) + row_played(b, (m - 1) as nat, dim)
    }
}

impl GameView {
    /// The legal cells to play, in row-major order.
    pub open spec fn moves(self) -> Seq<Move> {
        board_moves(self.board, self.dim, self.dim)
    }

    /// How many cells hold a mark.
    pub open spec fn played(self) -> nat {
        board_played(self.board, self.dim, self.dim)
    }

    /// The game after the player to move puts a mark on `m`.
    pub open spec fn play(self, m: Move) -> GameView {
        let b = put(self.board, m, self.player);
        let won = completes(b, m, self.player);
        GameView {
            board: b,
            player: opponent(self.player),
            is_over: won || full(b),
            winner: if won { self.player } else { Mark::Empty },
            dim: self.dim,
        }
    }

    /// The game after cell `m` is cleared and the turn handed back.
    pub open spec fn unplay(self, m: Move) -> GameView {
        GameView { board: put(self.board, m, Mark::Empty), player: opponent(self.player), ..self }
    }
}

/// How a cell is written: its symbol and a space.
pub open spec fn cell_text(mk: Mark) -> Seq<char> {
    match mk {
        Mark::X => "X "@,
        Mark::O => "O "@,
        Mark::Empty => "- "@,
    }
}

/// The first `n` cells of a row, written out.
pub open spec fn row_text(r: Seq<Mark>, n: nat) -> Seq<char>
    decreases n,
{
    if n == 0 {
        Seq::empty()
    } else {
        row_text(r, (n - 1) as nat) + cell_text(r[n - 1])
    }
}

/// The first `m` rows of `b`, one line each.
pub open spec fn rows_text(b: Seq<Seq<Mark>>, m: nat) -> Seq<char>
    decreases m,
{
    if m == 0 {
        Seq::empty()
    } else {
        rows_text(b, (m - 1) as nat) + row_text(b[m - 1], b[m - 1].len()) + "\n"@
    }
}

/// The line that tells who won a finished game.
pub open spec fn outcome_text(winner: Mark) -> Seq<char> {
    match winner {
        Mark::X => " X wins!"@,
        Mark::O => " O wins!"@,
        Mark::Empty => "It's a draw!\n"@,
    }
}

impl GameView {
    /// The board as text, then the result once the game is over.
    pub open spec fn text(self) -> Seq<char> {
        "\n"@ + rows_text(self.board, self.dim) + if self.is_over {
            "Game over!\n"@ + outcome_text(self.winner) + "\n"@
        } else {
            Seq::empty()
        }
    }
}

/// Relies on rand's `SliceRandom::choose`: `None` for an empty slice, else one
/// of its elements.
#[verifier::external_body]
fn choose_move(moves: &Vec<Move>) -> (r: Option<Move>)
    ensures
        r is None <==> moves@.len() == 0,
        r matches Some(m) ==> moves@.contains(m),
{
    moves.choose(&mut rand::thread_rng()).copied()
}

/// A game in progress: the board, whose turn it is, and whether it has ended.
pub struct Game {
    pub state: Vec<Vec<Mark>>,
    pub current_player: Mark,
    pub is_over: bool,
    pub winner: Mark,
    pub dim: usize,
}

impl Game {
    pub open spec fn wf(&self) -> bool {
        self@.wf()
    }
}

impl View for Game {
    type V = GameView;

    open spec fn view(&self) -> GameView {
        GameView {
            board: self.state@.map_values(|r: Vec<Mark>| r@),
            player: self.current_player,
            is_over: self.is_over,
            winner: self.winner,
            dim: self.dim as nat,
        }
    }
}

impl Game {
    /// A game on an empty `dim`×`dim` board, with X to move.
    pub fn new(dim: usize) -> (r: Result<Game, GameError>)
        ensures
            dim == 0 <==> r is Err,
            r is Err ==> r == Err::<Game, GameError>(GameError::InvalidDimension),
            r matches Ok(g) ==> {
                &&& g.wf()
                &&& g@.dim == dim
                &&& g@.player == Mark::X
                &&& !g@.is_over
                &&& g@.winner == Mark::Empty
                &&& forall|i: int, j: int|
                    0 <= i < dim && 0 <= j < dim ==> #[trigger] g@.board[i][j] == Mark::Empty
            },
    {
        if dim == 0 {
            return Err(GameError::InvalidDimension);
        }
        let mut state: Vec<Vec<Mark>> = Vec::new();
        let mut i: usize = 0;
        while i < dim
            invariant
                i <= dim,
                state@.len() == i,
                forall|a: int| 0 <= a < i ==> #[trigger] state@[a]@ == Seq::new(dim as nat, |k: int| Mark::Empty),
            decreases dim - i,
        {
            let mut row: Vec<Mark> = Vec::new();
            let mut j: usize = 0;
            while j < dim
                invariant
                    j <= dim,
                    row@ == Seq::new(j as nat, |k: int| Mark::Empty),
                decreases dim - j,
            {
                row.push(Mark::Empty);
                j += 1;
                assert(row@ =~= Seq::new(j as nat, |k: int| Mark::Empty));
            }
            state.push(row);
            i += 1;
        }
        let g = Game { state, current_player: Mark::X, is_over: false, winner: Mark::Empty, dim };
        assert(square(g@.board, dim as nat));
        Ok(g)
    }

    /// The mark at row `i`, column `j`.
    fn get(&self, i: usize, j: usize) -> (r: Mark)
        requires
            self.wf(),
            i < self.dim,
            j < self.dim,
        ensures
            r == self@.board[i as int][j as int],
    {
        self.state[i][j]
    }

    /// The game has not ended.
    pub fn is_active(&self) -> (r: bool)
        ensures
            r == !self.is_over,
    {
        !self.is_over
    }

    /// Whether `m` may be played now.
    pub fn is_valid_move(&self, m: Move) -> (r: bool)
        requires
            self.wf(),
        ensures
            r == self@.valid(m),
    {
        self.is_active() && m.x < self.dim && m.y < self.dim && self.get(m.x, m.y) == Mark::Empty
    }

    /// Hands the turn to the other mark.
    pub fn toggle_player(&mut self)
        requires
            old(self).wf(),
        ensures
            final(self).wf(),
            final(self)@ == (GameView { player: opponent(old(self)@.player), ..old(self)@ }),
    {
        match self.current_player {
            Mark::X => self.current_player = Mark::O,
            _ => self.current_player = Mark::X,
        }
    }
    /// Every empty cell, in row-major order.
    pub fn get_moves(&self) -> (r: Vec<Move>)
        requires
            self.wf(),
        ensures
            r@ == self@.moves(),
    {
        let ghost b = self@.board;
        let ghost d = self@.dim;
        let mut moves: Vec<Move> = Vec::new();
        let mut i: usize = 0;
        while i < self.dim
            invariant
                self.wf(),
                b == self@.board,
                d == self.dim,
                i <= self.dim,
                moves@ == board_moves(b, i as nat, d),
            decreases self.dim - i,
        {
            let mut j: usize = 0;
            while j < self.dim
                invariant
                    self.wf(),
                    b == self@.board,
                    d == self.dim,
                    i < self.dim,
                    j <= self.dim,
                    moves@ == board_moves(b, i as nat, d) + row_moves(b, i as nat, j as nat),
                decreases self.dim - j,
            {
                if self.get(i, j) == Mark::Empty {
                    moves.push(Move::new(i, j));
                }
                j += 1;
                assert(moves@ =~= board_moves(b, i as nat, d) + row_moves(b, i as nat, j as nat));
            }
            i += 1;
            assert(moves@ =~= board_moves(b, i as nat, d));
        }
        moves
    }

    /// Puts `mark` on cell `m`, whatever it held.
    pub fn set(&mut self, m: Move, mark: Mark)
        requires
            old(self).wf(),
            old(self)@.in_range(m),
        ensures
            final(self).wf(),
            final(self)@ == (GameView { board: put(old(self)@.board, m, mark), ..old(self)@ }),
    {
        let ghost b = self@.board;
        let mut row: Vec<Mark> = Vec::new();
        self.state.set_and_swap(m.x, &mut row);
        assert(row@ == b[m.x as int]);
        row.set(m.y, mark);
        self.state.set_and_swap(m.x, &mut row);
        assert(self@.board =~= put(b, m, mark));
    }

    /// Plays `m` for the player to move, then records a win or a full board.
    fn update_state(&mut self, m: Move)
        requires
            old(self).wf(),
            old(self)@.valid(m),
        ensures
            final(self).wf(),
            final(self)@ == (GameView { player: old(self)@.player, ..old(self)@.play(m) }),
    {
        let ghost g = self@;
        let p = self.current_player;
        self.set(m, p);
        let ghost b = self@.board;
        let n = self.dim;
        let mut row = true;
        let mut col = true;
        let mut diag = true;
        let mut rdiag = true;
        let mut i: usize = 0;
        while i < n
            invariant
                self.wf(),
                b == self@.board,
                n == self.dim,
                m.x < n,
                m.y < n,
                i <= n,
                row == (forall|k: int| 0 <= k < i ==> #[trigger] b[m.x as int][k] == p),
                col == (forall|k: int| 0 <= k < i ==> #[trigger] b[k][m.y as int] == p),
                diag == (forall|k: int| 0 <= k < i ==> #[trigger] b[k][k] == p),
                rdiag == (forall|k: int| 0 <= k < i ==> #[trigger] b[k][n - 1 - k] == p),
            decreases n - i,
        {
            row = row && self.get(m.x, i) == p;
            col = col && self.get(i, m.y) == p;
            diag = diag && self.get(i, i) == p;
            let a = self.get(i, n - 1 - i);
            assert(b[i as int][n - 1 - i] == a);
            rdiag = rdiag && a == p;
            i += 1;
        }
        if row || col || diag || rdiag {
            self.is_over = true;
            self.winner = p;
        } else {
            let moves = self.get_moves();
            proof {
                lemma_no_moves_iff_full(b, n as nat);
            }
            if moves.len() == 0 {
                self.is_over = true;
            }
        }
    }

    /// Plays `m` for the player to move and hands the turn over.
    pub fn make_move(&mut self, m: Move) -> (r: Result<(), GameError>)
        requires
            old(self).wf(),
        ensures
            final(self).wf(),
            r is Ok <==> old(self)@.valid(m),
            r is Ok ==> final(self)@ == old(self)@.play(m),
            r is Err ==> r == Err::<(), GameError>(GameError::IllegalMove) && final(self)@ == old(self)@,
    {
        if self.is_valid_move(m) {
            self.update_state(m);
            self.toggle_player();
            Ok(())
        } else {
            Err(GameError::IllegalMove)
        }
    }

    /// Clears cell `m` and hands the turn back; whether the game is over, and its
    /// winner, stay as they are.
    pub fn undo_move(&mut self, m: Move)
        requires
            old(self).wf(),
            old(self)@.in_range(m),
        ensures
            final(self).wf(),
            final(self)@ == old(self)@.unplay(m),
    {
        self.set(m, Mark::Empty);
        self.toggle_player();
    }

    /// One of the legal moves, picked at random; `None` when there is none.
    pub fn get_random_move(&self) -> (r: Option<Move>)
        requires
            self.wf(),
        ensures
            r is None <==> self@.moves().len() == 0,
            r matches Some(m) ==> self@.moves().contains(m),
    {
        let moves = self.get_moves();
        choose_move(&moves)
    }

    /// The board as text: a line per row, `-` for an empty cell, `X` and `O` for
    /// the marks, and the result once the game is over.
    pub fn render(&self) -> (r: String)
        requires
            self.wf(),
        ensures
            r@ == self@.text(),
    {
        let ghost b = self@.board;
        let mut s = String::new();
        s.append("\n");
        let mut i: usize = 0;
        while i < self.dim
            invariant
                self.wf(),
                b == self@.board,
                i <= self.dim,
                s@ == "\n"@ + rows_text(b, i as nat),
            decreases self.dim - i,
        {
            let mut j: usize = 0;
            while j < self.dim
                invariant
                    self.wf(),
                    b == self@.board,
                    i < self.dim,
                    j <= self.dim,
                    s@ == "\n"@ + rows_text(b, i as nat) + row_text(b[i as int], j as nat),
                decreases self.dim - j,
            {
                match self.get(i, j) {
                    Mark::X => s.append("X "),
                    Mark::O => s.append("O "),
                    Mark::Empty => s.append("- "),
                }
                j += 1;
                assert(s@ =~= "\n"@ + rows_text(b, i as nat) + row_text(b[i as int], j as nat));
            }
            s.append("\n");
            i += 1;
            assert(s@ =~= "\n"@ + rows_text(b, i as nat));
        }
        if self.is_over {
            s.append("Game over!\n");
            match self.winner {
                Mark::X => s.append(" X wins!"),
                Mark::O => s.append(" O wins!"),
                Mark::Empty => s.append("It's a draw!\n"),
            }
            s.append("\n");
        }
        assert(s@ =~= self@.text());
        s
    }

    /// The score of a position where the search stops: neutral.
    pub fn evaluate(&self) -> (r: i32)
        ensures
            r == 0,
    {
        0
    }

}

} // verus!
