//! Game state for a 3x3 grid game: board contents, move legality, turn
//! alternation, and win/draw detection.

use vstd::prelude::*;

use crate::parse::parse_number;
use crate::parse::parse_number_spec;

verus! {

/// Content of one cell of the grid: untouched, or holding one player's mark.
/// `MarkA` is the human player's mark, `MarkB` the bot's.
#[derive(Clone, Copy, Debug, PartialEq, Eq, Structural)]
pub enum Cell {
    Empty,
    MarkA,
    MarkB,
}

/// Which side is entitled to place the next mark.
#[derive(Clone, Copy, Debug, PartialEq, Eq, Structural)]
pub enum Turn {
    PlayerHuman,
    PlayerBot,
}

/// Mathematical model of a game state: the nine cells in row-major order,
/// and the active turn.
#[verifier::ext_equal]
pub struct GameView {
    pub cells: Seq<Cell>,
    pub turn: Turn,
}

/// The configuration a game starts in: all nine cells empty, human to move.
pub open spec fn initial_view() -> GameView {
    GameView { cells: Seq::new(9, |i: int| Cell::Empty), turn: Turn::PlayerHuman }
}

/// Zero-indexed (row, column) coordinates of a cell identifier in 1..=9.
pub open spec fn coords_of(m: int) -> (int, int)
    recommends
        1 <= m <= 9,
{
    ((m - 1) / 3, (m - 1) % 3)
}

/// Position of a cell identifier in the row-major board: three cells per
/// row, plus the column.
pub open spec fn flat_index_of(m: int) -> int
    recommends
        1 <= m <= 9,
{
    3 * coords_of(m).0 + coords_of(m).1
}

/// The side that moves after `t`.
pub open spec fn opposite_turn(t: Turn) -> Turn {
    match t {
        Turn::PlayerHuman => Turn::PlayerBot,
        Turn::PlayerBot => Turn::PlayerHuman,
    }
}

/// The mark that the side `t` places.
pub open spec fn mark_of_turn(t: Turn) -> Cell {
    match t {
        Turn::PlayerHuman => Cell::MarkA,
        Turn::PlayerBot => Cell::MarkB,
    }
}

/// A move is legal when its identifier is in range 1..=9 and the cell it
/// names is still empty.
pub open spec fn legal_move(cells: Seq<Cell>, m: u32) -> bool {
    1 <= m <= 9 && cells[m - 1] == Cell::Empty
}

/// Some cell of the board is still empty.
pub open spec fn has_free_cell(cells: Seq<Cell>) -> bool {
    exists|i: int| 0 <= i < 9 && cells[i] == Cell::Empty
}

/// Every cell of the board is occupied.
pub open spec fn board_full(cells: Seq<Cell>) -> bool {
    forall|i: int| 0 <= i < 9 ==> #[trigger] cells[i] != Cell::Empty
}

/// The three cells at positions `i`, `j`, `k` share one non-empty mark.
pub open spec fn line_won(cells: Seq<Cell>, i: int, j: int, k: int) -> bool {
    cells[i] != Cell::Empty && cells[i] == cells[j] && cells[j] == cells[k]
}

/// One of the eight winning lines — three rows, three columns, two
/// diagonals — is complete with a single mark.
pub open spec fn winner_spec(cells: Seq<Cell>) -> bool {
    ||| line_won(cells, 0, 1, 2)
    ||| line_won(cells, 3, 4, 5)
    ||| line_won(cells, 6, 7, 8)
    ||| line_won(cells, 0, 3, 6)
    ||| line_won(cells, 1, 4, 7)
    ||| line_won(cells, 2, 5, 8)
    ||| line_won(cells, 0, 4, 8)
    ||| line_won(cells, 2, 4, 6)
}

/// The complaint for a line that is not a number at all.
pub open spec fn wrong_place_msg() -> Seq<char> {
    "Wrong place chosen, try again!"@
}

/// The complaint for a number whose cell cannot be played.
pub open spec fn occupied_msg() -> Seq<char> {
    "This cell is already occupied... Try again!"@
}

/// The label a cell shows on the rendered board: the placed mark, or — for
/// an empty cell at row-major position `idx` — its digit, so the player can
/// see which number picks it.
pub open spec fn label_of(c: Cell, idx: int) -> char
    recommends
        0 <= idx < 9,
{
    match c {
        Cell::MarkA => 'X',
        Cell::MarkB => 'O',
        Cell::Empty => digit_label(idx),
    }
}

/// The digit shown for the empty cell at row-major position `idx`.
pub open spec fn digit_label(idx: int) -> char
    recommends
        0 <= idx < 9,
{
    if idx == 0 {
        '1'
    } else if idx == 1 {
        '2'
    } else if idx == 2 {
        '3'
    } else if idx == 3 {
        '4'
    } else if idx == 4 {
        '5'
    } else if idx == 5 {
        '6'
    } else if idx == 6 {
        '7'
    } else if idx == 7 {
        '8'
    } else {
        '9'
    }
}

/// The main game structure: a 3x3 board stored flat in row-major order,
/// and the side whose turn it is.
#[derive(Debug)]
pub struct Game {
    board: [Cell; 9],
    current_turn: Turn,
}

impl View for Game {
    type V = GameView;

    closed spec fn view(&self) -> GameView {
        GameView { cells: self.board@, turn: self.current_turn }
    }
}

impl Game {
    /// Builds a fresh game: every cell empty, and the human player moves
    /// first.
    pub fn new() -> (game: Game)
        ensures
            game@ == initial_view(),
    {
        let game = Game { board: [Cell::Empty; 9], current_turn: Turn::PlayerHuman };
        proof {
            assert(game@.cells =~= initial_view().cells);
            assert(game@ =~= initial_view());
        }
        game
    }

    /// Translates a cell identifier in 1..=9 to zero-indexed (row, column)
    /// board coordinates: identifiers run row by row.
    pub fn convert_to_board_coords(game_move: u32) -> (rc: (usize, usize))
        requires
            1 <= game_move <= 9,
        ensures
            rc.0 == coords_of(game_move as int).0,
            rc.1 == coords_of(game_move as int).1,
            rc.0 < 3,
            rc.1 < 3,
    {
        let row = ((game_move - 1) / 3) as usize;
        let col = ((game_move - 1) % 3) as usize;
        (row, col)
    }

    /// A move is possible when it is in range — checked before any
    /// indexing — and the cell it names is not yet marked.
    pub fn is_move_possible(&self, free_move: u32) -> (r: bool)
        ensures
            r == legal_move(self@.cells, free_move),
    {
        if 1 <= free_move && free_move <= 9 {
            let (row, col) = Self::convert_to_board_coords(free_move);
            proof {
                vstd::arithmetic::div_mod::lemma_fundamental_div_mod(free_move as int - 1, 3);
            }
            self.board[row * 3 + col] == Cell::Empty
        } else {
            false
        }
    }

    /// Writes `mark` into the cell named by `game_move` and touches nothing
    /// else: every other cell, and the turn, are exactly as before.
    pub fn apply_move(&mut self, game_move: u32, mark: Cell)
        requires
            legal_move(old(self)@.cells, game_move),
            mark != Cell::Empty,
        ensures
            final(self)@.cells == old(self)@.cells.update(flat_index_of(game_move as int), mark),
            final(self)@.cells[flat_index_of(game_move as int)] == mark,
            forall|i: int|
                0 <= i < 9 && i != flat_index_of(game_move as int) ==> final(self)@.cells[i]
                    == old(self)@.cells[i],
            final(self)@.turn == old(self)@.turn,
    {
        let (row, col) = Self::convert_to_board_coords(game_move);
        proof {
            vstd::arithmetic::div_mod::lemma_fundamental_div_mod(game_move as int - 1, 3);
        }
        self.board[row * 3 + col] = mark;
    }

    /// Places the active side's mark on the cell named by `valid_move`; the
    /// turn itself does not advance here.
    pub fn play_turn(&mut self, valid_move: u32)
        requires
            legal_move(old(self)@.cells, valid_move),
        ensures
            final(self)@.cells == old(self)@.cells.update(
                flat_index_of(valid_move as int),
                mark_of_turn(old(self)@.turn),
            ),
            final(self)@.turn == old(self)@.turn,
    {
        let chosen_mark = match self.current_turn {
            Turn::PlayerHuman => Cell::MarkA,
            Turn::PlayerBot => Cell::MarkB,
        };
        self.apply_move(valid_move, chosen_mark);
    }

    /// The side that would move next: the opposite of the current turn.
    /// Pure query; the state is untouched.
    pub fn get_next_turn(&self) -> (t: Turn)
        ensures
            t == opposite_turn(self@.turn),
    {
        match self.current_turn {
            Turn::PlayerHuman => Turn::PlayerBot,
            Turn::PlayerBot => Turn::PlayerHuman,
        }
    }

    /// Hands the turn to the other side; the board is untouched.
    pub fn advance_turn(&mut self)
        ensures
            final(self)@.turn == opposite_turn(old(self)@.turn),
            final(self)@.cells == old(self)@.cells,
    {
        let next = self.get_next_turn();
        self.current_turn = next;
    }

    /// True exactly when one of the eight lines — three rows, three
    /// columns, two diagonals — carries three equal non-empty marks.
    /// Pure query; the state is untouched.
    pub fn check_winner(&self) -> (r: bool)
        ensures
            r == winner_spec(self@.cells),
    {
        let b = &self.board;
        let rows = (b[0] != Cell::Empty && b[0] == b[1] && b[1] == b[2]) || (b[3] != Cell::Empty
            && b[3] == b[4] && b[4] == b[5]) || (b[6] != Cell::Empty && b[6] == b[7] && b[7]
            == b[8]);
        let cols = (b[0] != Cell::Empty && b[0] == b[3] && b[3] == b[6]) || (b[1] != Cell::Empty
            && b[1] == b[4] && b[4] == b[7]) || (b[2] != Cell::Empty && b[2] == b[5] && b[5]
            == b[8]);
        let diagonal_part1 = b[0] != Cell::Empty && b[0] == b[4] && b[4] == b[8];
        let diagonal_part2 = b[2] != Cell::Empty && b[2] == b[4] && b[4] == b[6];
        rows || cols || diagonal_part1 || diagonal_part2
    }

    /// Every cell is occupied: no further move is legal.
    pub fn is_board_full(&self) -> (r: bool)
        ensures
            r == board_full(self@.cells),
    {
        let mut i: usize = 0;
        while i < 9
            invariant
                i <= 9,
                forall|j: int| 0 <= j < i ==> #[trigger] self@.cells[j] != Cell::Empty,
            decreases 9 - i,
        {
            if self.board[i] == Cell::Empty {
                return false;
            }
            i = i + 1;
        }
        true
    }

    /// The round has ended without a winner: the board is full and no line
    /// is complete.
    pub fn is_draw(&self) -> (r: bool)
        ensures
            r == (board_full(self@.cells) && !winner_spec(self@.cells)),
    {
        self.is_board_full() && !self.check_winner()
    }

    /// Restores the initial configuration: every cell empty, human to move.
    /// The same game value is reused between rounds.
    pub fn restore(&mut self)
        ensures
            final(self)@ == initial_view(),
    {
        self.current_turn = Turn::PlayerHuman;
        self.board = [Cell::Empty; 9];
        proof {
            assert(self@.cells =~= initial_view().cells);
            assert(self@ =~= initial_view());
        }
    }

    /// Picks the automated opponent's move: random cells are sampled until a
    /// legal one comes up. Sampling is capped — randomness owes no bound on
    /// how long a run of occupied picks may last — and once the cap is spent
    /// the lowest-numbered free cell is taken, so the call terminates and
    /// always hands back a legal move.
    pub fn get_bot_move(&self) -> (bot_move: u32)
        requires
            has_free_cell(self@.cells),
        ensures
            legal_move(self@.cells, bot_move),
    {
        let mut tries: u32 = 0;
        while tries < 100
            invariant
                tries <= 100,
            decreases 100 - tries,
        {
            let roll: u32 = rand::random::<u32>();
            let bot_move = roll % 9 + 1;
            if self.is_move_possible(bot_move) {
                return bot_move;
            }
            tries = tries + 1;
        }
        let mut k: u32 = 1;
        while k < 9
            invariant
                1 <= k <= 9,
                has_free_cell(self@.cells),
                forall|j: u32| 1 <= j < k ==> !legal_move(self@.cells, j),
            decreases 9 - k,
        {
            if self.is_move_possible(k) {
                return k;
            }
            k = k + 1;
        }
        proof {
            let i = choose|i: int| 0 <= i < 9 && self@.cells[i] == Cell::Empty;
            assert(legal_move(self@.cells, (i + 1) as u32));
        }
        9
    }

    /// The cell at zero-indexed (row, column) coordinates.
    pub fn cell(&self, row: usize, col: usize) -> (c: Cell)
        requires
            row < 3,
            col < 3,
        ensures
            c == self@.cells[3 * row + col],
    {
        self.board[row * 3 + col]
    }

    /// The side whose turn it is.
    pub fn turn(&self) -> (t: Turn)
        ensures
            t == self@.turn,
    {
        self.current_turn
    }

    /// Checks a typed line for a playable cell: a line that is no number is
    /// rejected with one complaint, a number whose cell cannot be played —
    /// out of range or already marked — with another.
    pub fn validate_player_choice(&self, player_choice: &str) -> (r: Result<u32, String>)
        ensures
            r is Ok <==> (parse_number_spec(player_choice@) matches Some(num) && legal_move(
                self@.cells,
                num,
            )),
            r matches Ok(num) ==> parse_number_spec(player_choice@) == Some(num),
            r matches Err(msg) ==> msg@ == (if parse_number_spec(player_choice@) is None {
                wrong_place_msg()
            } else {
                occupied_msg()
            }),
    {
        match parse_number(player_choice) {
            None => Err("Wrong place chosen, try again!".to_owned()),
            Some(number) => {
                if self.is_move_possible(number) {
                    Ok(number)
                } else {
                    Err("This cell is already occupied... Try again!".to_owned())
                }
            },
        }
    }

    /// The label shown at zero-indexed (row, column): the mark placed there,
    /// or the cell's own digit while it is empty.
    pub fn cell_label(&self, row: usize, col: usize) -> (label: char)
        requires
            row < 3,
            col < 3,
        ensures
            label == label_of(self@.cells[3 * row + col], 3 * row + col),
    {
        let idx = row * 3 + col;
        match self.board[idx] {
            Cell::MarkA => 'X',
            Cell::MarkB => 'O',
            Cell::Empty => {
                if idx == 0 {
                    '1'
                } else if idx == 1 {
                    '2'
                } else if idx == 2 {
                    '3'
                } else if idx == 3 {
                    '4'
                } else if idx == 4 {
                    '5'
                } else if idx == 5 {
                    '6'
                } else if idx == 6 {
                    '7'
                } else if idx == 7 {
                    '8'
                } else {
                    '9'
                }
            },
        }
    }
}

/// Every cell identifier from 1 to 9 lands inside the 3-by-3 grid.
pub proof fn lemma_coords_in_range(m: int)
    requires
        1 <= m <= 9,
    ensures
        0 <= coords_of(m).0 < 3,
        0 <= coords_of(m).1 < 3,
{
    vstd::arithmetic::div_mod::lemma_fundamental_div_mod(m - 1, 3);
    vstd::arithmetic::div_mod::lemma_mod_division_less_than_divisor(m - 1, 3);
}

/// No two cell identifiers share coordinates: the coordinate mapping is
/// injective on 1..=9.
pub proof fn lemma_coords_injective(m1: int, m2: int)
    requires
        1 <= m1 <= 9,
        1 <= m2 <= 9,
        coords_of(m1) == coords_of(m2),
    ensures
        m1 == m2,
{
    vstd::arithmetic::div_mod::lemma_fundamental_div_mod(m1 - 1, 3);
    vstd::arithmetic::div_mod::lemma_fundamental_div_mod(m2 - 1, 3);
}

/// Every grid coordinate is reached: the identifier `3 * row + col + 1`
/// maps exactly to (row, col). Together with the range and injectivity
/// lemmas, the coordinate mapping is a bijection between the identifiers
/// 1..=9 and the grid.
pub proof fn lemma_coords_surjective(row: int, col: int)
    requires
        0 <= row < 3,
        0 <= col < 3,
    ensures
        1 <= 3 * row + col + 1 <= 9,
        coords_of(3 * row + col + 1) == (row, col),
{
    vstd::arithmetic::div_mod::lemma_fundamental_div_mod_converse(3 * row + col, 3, row, col);
}

/// The flat row-major position of a cell identifier is the identifier less
/// one.
pub proof fn lemma_flat_index(m: int)
    requires
        1 <= m <= 9,
    ensures
        flat_index_of(m) == m - 1,
{
    vstd::arithmetic::div_mod::lemma_fundamental_div_mod(m - 1, 3);
}

/// Taking the opposite turn twice returns to the starting turn.
pub proof fn lemma_next_turn_involution(t: Turn)
    ensures
        opposite_turn(opposite_turn(t)) == t,
{
}

/// A game that was reset — after any sequence of moves — is
/// indistinguishable from a freshly constructed one: both show the initial
/// configuration, all nine cells empty with the human to move.
pub proof fn lemma_reset_matches_new(after_reset: GameView, fresh: GameView)
    requires
        after_reset == initial_view(),
        fresh == initial_view(),
    ensures
        after_reset == fresh,
        after_reset.turn == Turn::PlayerHuman,
        after_reset.cells.len() == 9,
        forall|i: int| 0 <= i < 9 ==> after_reset.cells[i] == Cell::Empty,
{
}

} // verus!
