//! Board and game state: the per-session configuration, the dictionary and
//! target, the grid of entered letters, and the cursor.
//!
//! Edits past the bounds of the current row, and edits or submissions after
//! the last row was used up, are silent no-ops: they are routine outcomes of
//! interactive use, not errors. Submitting a completed row scores it against
//! the target and advances the cursor to the start of the next row.

use vstd::prelude::*;

use crate::score::CellMark;
use crate::score::mark_at;
use crate::score::score;
use vstd::string::StrSliceExecFns;

verus! {

/// Immutable per-session parameters.
#[derive(Clone)]
pub struct GameConfig {
    /// Total number of guesses allowed.
    pub rows: usize,
    /// Length of the target and of every guess.
    pub word_len: usize,
}

impl GameConfig {
    /// Both dimensions of the board must be positive.
    pub open spec fn valid(self) -> bool {
        self.rows >= 1 && self.word_len >= 1
    }
}

impl Default for GameConfig {
    /// The classic board: six guesses of five letters.
    fn default() -> (c: GameConfig)
        ensures
            c.rows == 6,
            c.word_len == 5,
    {
        GameConfig { rows: 6, word_len: 5 }
    }
}

/// The full state of one game session.
#[derive(Clone)]
pub struct GameState {
    /// The session's fixed parameters.
    pub config: GameConfig,
    /// The dictionary, for membership checks performed by the caller.
    pub words: Vec<String>,
    /// The secret word, fixed for the session, `config.word_len` letters.
    pub target: String,
    /// The grid of entered letters, `config.rows` rows of `config.word_len`
    /// cells; a blank cell holds `' '`.
    pub board: Vec<Vec<char>>,
    /// Index of the currently editable row; `config.rows` once the game is
    /// over.
    pub row: usize,
    /// Index of the next writable cell in the current row.
    pub col: usize,
}

impl GameState {
    /// The grid of entered letters as a sequence of rows of letters.
    pub open spec fn grid(self) -> Seq<Seq<char>> {
        Seq::new(self.board@.len(), |r: int| self.board@[r]@)
    }

    /// Well-formedness: the grid has the configured dimensions, the target
    /// has the configured length, and the cursor is in bounds, resting at
    /// the start of a row once the game is over.
    pub open spec fn wf(self) -> bool {
        &&& self.config.valid()
        &&& self.board@.len() == self.config.rows
        &&& forall|r: int| 0 <= r < self.board@.len() ==> (#[trigger] self.board@[r])@.len()
            == self.config.word_len
        &&& self.target@.len() == self.config.word_len
        &&& self.row <= self.config.rows
        &&& self.col <= self.config.word_len
        &&& self.row == self.config.rows ==> self.col == 0
    }

    /// The current row is completely filled and the game is not over, so a
    /// submission will be accepted.
    pub open spec fn row_ready(self) -> bool {
        self.col == self.config.word_len && self.row < self.config.rows
    }

    /// Builds a fresh session: a blank board with the cursor at the first
    /// cell of the first row.
    pub fn new(config: GameConfig, words: Vec<String>, target: String) -> (s: GameState)
        requires
            config.valid(),
            target@.len() == config.word_len,
        ensures
            s.wf(),
            s.config == config,
            s.words == words,
            s.target == target,
            s.row == 0,
            s.col == 0,
            s.grid().len() == config.rows,
            forall|r: int, c: int|
                0 <= r < config.rows && 0 <= c < config.word_len ==> s.grid()[r][c] == ' ',
    {
        let mut board: Vec<Vec<char>> = Vec::new();
        let mut r: usize = 0;
        while r < config.rows
            invariant
                r <= config.rows,
                board@.len() == r,
                forall|k: int| 0 <= k < r ==> (#[trigger] board@[k])@.len() == config.word_len,
                forall|k: int, j: int|
                    0 <= k < r && 0 <= j < config.word_len ==> #[trigger] board@[k]@[j] == ' ',
            decreases config.rows - r,
        {
            let mut cells: Vec<char> = Vec::new();
            let mut c: usize = 0;
            while c < config.word_len
                invariant
                    c <= config.word_len,
                    cells@.len() == c,
                    forall|j: int| 0 <= j < c ==> cells@[j] == ' ',
                decreases config.word_len - c,
            {
                cells.push(' ');
                c = c + 1;
            }
            board.push(cells);
            r = r + 1;
        }
        GameState { config, words, target, board, row: 0, col: 0 }
    }

    /// Writes `c` into the next free cell of the current row and advances
    /// the column cursor; a silent no-op when the row is already full or the
    /// game is over.
    pub fn add_letter(&mut self, c: char)
        requires
            old(self).wf(),
        ensures
            final(self).wf(),
            final(self).config == old(self).config,
            final(self).words == old(self).words,
            final(self).target == old(self).target,
            final(self).row == old(self).row,
            old(self).col < old(self).config.word_len && old(self).row < old(self).config.rows
                ==> {
                &&& final(self).col == old(self).col + 1
                &&& final(self).grid() == old(self).grid().update(
                    old(self).row as int,
                    old(self).grid()[old(self).row as int].update(old(self).col as int, c),
                )
            },
            !(old(self).col < old(self).config.word_len && old(self).row < old(
                self,
            ).config.rows) ==> *final(self) == *old(self),
    {
        if self.col < self.config.word_len && self.row < self.config.rows {
            self.board[self.row][self.col] = c;
            self.col = self.col + 1;
            proof {
                assert(self.grid() =~~= old(self).grid().update(
                    old(self).row as int,
                    old(self).grid()[old(self).row as int].update(old(self).col as int, c),
                ));
            }
        }
    }

    /// Steps the column cursor back and blanks the cell it then rests on; a
    /// silent no-op at the start of a row or once the game is over.
    pub fn del_letter(&mut self)
        requires
            old(self).wf(),
        ensures
            final(self).wf(),
            final(self).config == old(self).config,
            final(self).words == old(self).words,
            final(self).target == old(self).target,
            final(self).row == old(self).row,
            old(self).col > 0 && old(self).row < old(self).config.rows ==> {
                &&& final(self).col == old(self).col - 1
                &&& final(self).grid() == old(self).grid().update(
                    old(self).row as int,
                    old(self).grid()[old(self).row as int].update(old(self).col - 1, ' '),
                )
            },
            !(old(self).col > 0 && old(self).row < old(self).config.rows) ==> *final(self)
                == *old(self),
    {
        if self.col > 0 && self.row < self.config.rows {
            self.col = self.col - 1;
            self.board[self.row][self.col] = ' ';
            proof {
                assert(self.grid() =~~= old(self).grid().update(
                    old(self).row as int,
                    old(self).grid()[old(self).row as int].update(old(self).col - 1, ' '),
                ));
            }
        }
    }

    /// Scores the current row against the target when it is completely
    /// filled, advances the cursor to the next row, and returns the marks.
    /// Returns `None`, changing nothing, when the row is incomplete or the
    /// game is over: that is the normal "not ready" signal, not an error.
    ///
    /// Dictionary membership of the assembled guess is deliberately not
    /// checked here; rejecting non-dictionary words is the caller's policy.
    pub fn submit_row(&mut self) -> (res: Option<Vec<CellMark>>)
        requires
            old(self).wf(),
        ensures
            final(self).wf(),
            final(self).config == old(self).config,
            final(self).words == old(self).words,
            final(self).target == old(self).target,
            final(self).grid() == old(self).grid(),
            !old(self).row_ready() ==> res is None && *final(self) == *old(self),
            old(self).row_ready() ==> {
                &&& final(self).row == old(self).row + 1
                &&& final(self).col == 0
                &&& res matches Some(marks) && marks@.len() == old(self).config.word_len
                    && forall|i: int|
                    0 <= i < marks@.len() ==> marks@[i] == mark_at(
                        old(self).grid()[old(self).row as int],
                        old(self).target@,
                        i,
                    )
            },
    {
        if self.col != self.config.word_len || self.row >= self.config.rows {
            return None;
        }
        let mut target_chars: Vec<char> = Vec::new();
        let mut i: usize = 0;
        while i < self.config.word_len
            invariant
                self == old(self),
                old(self).wf(),
                i <= self.config.word_len,
                target_chars@.len() == i,
                forall|j: int| 0 <= j < i ==> target_chars@[j] == self.target@[j],
            decreases self.config.word_len - i,
        {
            target_chars.push(self.target.as_str().get_char(i));
            i = i + 1;
        }
        proof {
            assert(target_chars@ =~= self.target@);
        }
        let guess: &Vec<char> = &self.board[self.row];
        let marks = score(guess, &target_chars);
        self.row = self.row + 1;
        self.col = 0;
        proof {
            assert(self.grid() =~= old(self).grid());
        }
        Some(marks)
    }
}

} // verus!

