//! The mathematical model of a game: the hidden answer, the grid, the cursor
//! and the outcome, with the three transitions that a player can ask for.

use crate::classifier::{classify_spec, lemma_all_correct_iff_equal, state_at, Policy};
use crate::tile::{Tile, TileState};
use vstd::prelude::*;

verus! {

/// The number of guesses a game allows.
pub const ROW_COUNT: usize = 6;

/// The number of letters in the answer and in every guess.
pub const COL_COUNT: usize = 5;

/// Where a game stands.
#[derive(Clone, Copy, Debug, PartialEq, Eq, Structural)]
pub enum Phase {
    /// Rows are left and the answer has not been found.
    Playing,
    /// A submitted guess was the answer.
    Won,
    /// Every row was used and none was the answer.
    Lost,
}

/// What a player can ask of a game.
#[derive(Clone, Copy, Debug, PartialEq, Eq, Structural)]
pub enum Intent {
    /// Type a letter at the cursor.
    Insert(char),
    /// Take back the letter before the cursor.
    Delete,
    /// Submit the row under the cursor as a guess.
    Submit,
}

/// A game as a mathematical value.
pub struct Puzzle {
    /// The hidden word.
    pub answer: Seq<char>,
    /// How submitted guesses are scored.
    pub policy: Policy,
    /// The row of the next writable cell.
    pub row: nat,
    /// The column of the next writable cell.
    pub index: nat,
    /// The grid, row by row.
    pub cells: Seq<Seq<Tile>>,
    /// Whether a submitted guess was the answer.
    pub won: bool,
}

impl Puzzle {
    /// The game before the first key press: an empty grid, the cursor at its
    /// top left corner.
    pub open spec fn fresh(answer: Seq<char>, policy: Policy) -> Puzzle {
        Puzzle {
            answer,
            policy,
            row: 0,
            index: 0,
            cells: Seq::new(
                ROW_COUNT as nat,
                |r: int| Seq::new(COL_COUNT as nat, |c: int| Tile::blank()),
            ),
            won: false,
        }
    }

    /// The grid has `ROW_COUNT` rows of `COL_COUNT` cells.
    pub open spec fn shaped(self) -> bool {
        &&& self.cells.len() == ROW_COUNT
        &&& forall|r: int| 0 <= r < ROW_COUNT ==> (#[trigger] self.cells[r]).len() == COL_COUNT
    }

    /// The letters of row `r`, read as a guess.
    pub open spec fn guess(self, r: int) -> Seq<char> {
        Seq::new(COL_COUNT as nat, |c: int| self.cells[r][c].letter->0)
    }

    /// Whether row `r` has been submitted and scored.
    pub open spec fn is_scored(self, r: int) -> bool {
        r < self.row || (self.won && r == self.row)
    }

    /// What the state of the game demands of the cell at row `r`, column `c`:
    /// a scored row carries its letters with their feedback, the row under the
    /// cursor carries unscored letters up to the cursor, and all else is blank.
    pub open spec fn cell_ok(self, r: int, c: int) -> bool {
        let cell = self.cells[r][c];
        if self.is_scored(r) {
            cell.letter is Some && cell.state == state_at(
                self.policy,
                self.guess(r),
                self.answer,
                c,
            )
        } else if r == self.row && c < self.index {
            cell.letter is Some && cell.state == TileState::Unknown
        } else {
            cell == Tile::blank()
        }
    }

    /// The invariant of a game.
    pub open spec fn wf(self) -> bool {
        &&& self.answer.len() == COL_COUNT
        &&& self.row <= ROW_COUNT
        &&& self.index <= COL_COUNT
        &&& self.shaped()
        &&& self.row == ROW_COUNT ==> self.index == 0
        &&& self.won ==> self.row < ROW_COUNT && self.index == COL_COUNT && self.guess(
            self.row as int,
        ) == self.answer
        &&& forall|r: int| 0 <= r < self.row ==> #[trigger] self.guess(r) != self.answer
        &&& forall|r: int, c: int|
            0 <= r < ROW_COUNT && 0 <= c < COL_COUNT ==> #[trigger] self.cell_ok(r, c)
    }

    /// Where the game stands.
    pub open spec fn phase(self) -> Phase {
        if self.won {
            Phase::Won
        } else if self.row == ROW_COUNT {
            Phase::Lost
        } else {
            Phase::Playing
        }
    }

    /// Whether the game has ended.
    pub open spec fn terminal(self) -> bool {
        self.won || self.row == ROW_COUNT
    }

    /// Whether the cursor stands on a writable cell.
    pub open spec fn can_insert(self) -> bool {
        self.row < ROW_COUNT && self.index < COL_COUNT
    }

    /// Whether a letter stands before the cursor.
    pub open spec fn can_delete(self) -> bool {
        self.index > 0
    }

    /// Whether the row under the cursor is full.
    pub open spec fn can_submit(self) -> bool {
        self.row < ROW_COUNT && self.index == COL_COUNT
    }

    /// The grid with the cell at row `r`, column `c` replaced by `cell`.
    pub open spec fn with_cell(self, r: int, c: int, cell: Tile) -> Seq<Seq<Tile>> {
        self.cells.update(r, self.cells[r].update(c, cell))
    }

    /// Typing `letter`: it goes into the cell under the cursor, and the cursor
    /// moves one column on. Nothing happens where the cursor stands on no
    /// writable cell or the game has ended.
    pub open spec fn insert(self, letter: char) -> Puzzle {
        if self.can_insert() && !self.terminal() {
            let r = self.row as int;
            let c = self.index as int;
            Puzzle {
                index: self.index + 1,
                cells: self.with_cell(
                    r,
                    c,
                    Tile { state: self.cells[r][c].state, letter: Some(letter) },
                ),
                ..self
            }
        } else {
            self
        }
    }

    /// Taking back a letter: the cursor moves one column back and the cell
    /// there loses its letter. Nothing happens where no letter stands before
    /// the cursor or the game has ended.
    pub open spec fn delete(self) -> Puzzle {
        if self.can_delete() && !self.terminal() {
            let r = self.row as int;
            let c = self.index - 1;
            Puzzle {
                index: (self.index - 1) as nat,
                cells: self.with_cell(r, c, Tile { state: self.cells[r][c].state, letter: None }),
                ..self
            }
        } else {
            self
        }
    }

    /// Row `r` with the feedback of its guess written into every cell.
    pub open spec fn scored_row(self, r: int) -> Seq<Tile> {
        Seq::new(
            COL_COUNT as nat,
            |c: int|
                Tile::scored(
                    self.guess(r)[c],
                    state_at(self.policy, self.guess(r), self.answer, c),
                ),
        )
    }

    /// Submitting the row under the cursor: the row is scored; if the guess is
    /// the answer the game is won and the cursor stays, else the cursor moves
    /// to the start of the next row. Nothing happens where the row is not full
    /// or the game has ended.
    pub open spec fn submit(self) -> Puzzle {
        if self.can_submit() && !self.terminal() {
            let r = self.row as int;
            let cells = self.cells.update(r, self.scored_row(r));
            if self.guess(r) == self.answer {
                Puzzle { cells, won: true, ..self }
            } else {
                Puzzle { cells, row: self.row + 1, index: 0, won: false, ..self }
            }
        } else {
            self
        }
    }

    /// The game after one intent.
    pub open spec fn apply(self, intent: Intent) -> Puzzle {
        match intent {
            Intent::Insert(letter) => self.insert(letter),
            Intent::Delete => self.delete(),
            Intent::Submit => self.submit(),
        }
    }

    /// The game after a sequence of intents, taken from first to last.
    pub open spec fn run(self, intents: Seq<Intent>) -> Puzzle
        decreases intents.len(),
    {
        if intents.len() == 0 {
            self
        } else {
            self.run(intents.drop_last()).apply(intents.last())
        }
    }
}

/// A new game meets the invariant.
pub proof fn lemma_fresh_is_wf(answer: Seq<char>, policy: Policy)
    requires
        answer.len() == COL_COUNT,
    ensures
        Puzzle::fresh(answer, policy).wf(),
        Puzzle::fresh(answer, policy).phase() == Phase::Playing,
{
    let p = Puzzle::fresh(answer, policy);
    assert forall|r: int, c: int| 0 <= r < ROW_COUNT && 0 <= c < COL_COUNT implies #[trigger] p.cell_ok(
        r,
        c,
    ) by {
        assert(p.cells[r][c] == Tile::blank());
    }
}

/// Typing a letter keeps the invariant.
pub proof fn lemma_insert_keeps_wf(p: Puzzle, letter: char)
    requires
        p.wf(),
    ensures
        p.insert(letter).wf(),
{
    let q = p.insert(letter);
    if p.can_insert() && !p.terminal() {
        assert forall|r: int| 0 <= r < ROW_COUNT && r != p.row implies q.guess(r) == p.guess(r) by {
            assert(q.guess(r) =~= p.guess(r));
        }
        assert forall|r: int, c: int| 0 <= r < ROW_COUNT && 0 <= c < COL_COUNT implies #[trigger] q.cell_ok(
            r,
            c,
        ) by {
            assert(p.cell_ok(r, c));
        }
        assert forall|r: int| 0 <= r < q.row implies #[trigger] q.guess(r) != q.answer by {
            assert(p.guess(r) != p.answer);
        }
    }
}

/// Taking back a letter keeps the invariant.
pub proof fn lemma_delete_keeps_wf(p: Puzzle)
    requires
        p.wf(),
    ensures
        p.delete().wf(),
{
    let q = p.delete();
    if p.can_delete() && !p.terminal() {
        assert forall|r: int| 0 <= r < ROW_COUNT && r != p.row implies q.guess(r) == p.guess(r) by {
            assert(q.guess(r) =~= p.guess(r));
        }
        assert forall|r: int, c: int| 0 <= r < ROW_COUNT && 0 <= c < COL_COUNT implies #[trigger] q.cell_ok(
            r,
            c,
        ) by {
            assert(p.cell_ok(r, c));
        }
        assert forall|r: int| 0 <= r < q.row implies #[trigger] q.guess(r) != q.answer by {
            assert(p.guess(r) != p.answer);
        }
    }
}

/// Submitting a guess keeps the invariant.
pub proof fn lemma_submit_keeps_wf(p: Puzzle)
    requires
        p.wf(),
    ensures
        p.submit().wf(),
{
    let q = p.submit();
    if p.can_submit() && !p.terminal() {
        let row = p.row as int;
        assert forall|c: int| 0 <= c < COL_COUNT implies (#[trigger] p.cells[row][c]).letter is Some by {
            assert(p.cell_ok(row, c));
        }
        assert forall|r: int| 0 <= r < ROW_COUNT implies q.guess(r) == p.guess(r) by {
            assert(q.guess(r) =~= p.guess(r));
        }
        assert forall|r: int, c: int| 0 <= r < ROW_COUNT && 0 <= c < COL_COUNT implies #[trigger] q.cell_ok(
            r,
            c,
        ) by {
            assert(p.cell_ok(r, c));
        }
        assert forall|r: int| 0 <= r < q.row implies #[trigger] q.guess(r) != q.answer by {
            if r < p.row {
                assert(p.guess(r) != p.answer);
            }
        }
    }
}

/// What the invariant says of the grid, row by row: a scored row is full and
/// none of its cells is `Unknown`; the row under the cursor holds unscored
/// letters before the cursor and blank cells from there on; every row below
/// is blank.
pub proof fn lemma_grid_follows_cursor(p: Puzzle, r: int, c: int)
    requires
        p.wf(),
        0 <= r < ROW_COUNT,
        0 <= c < COL_COUNT,
    ensures
        p.is_scored(r) ==> p.cells[r][c].is_final(),
        !p.won && r == p.row && c < p.index ==> p.cells[r][c].letter is Some
            && p.cells[r][c].state == TileState::Unknown,
        !p.won && r == p.row && c >= p.index ==> p.cells[r][c] == Tile::blank(),
        r > p.row ==> p.cells[r][c] == Tile::blank(),
{
    assert(p.cell_ok(r, c));
}

/// Every intent keeps the invariant, the answer and the scoring policy.
pub proof fn lemma_apply_keeps_wf(p: Puzzle, intent: Intent)
    requires
        p.wf(),
    ensures
        p.apply(intent).wf(),
        p.apply(intent).answer == p.answer,
        p.apply(intent).policy == p.policy,
{
    match intent {
        Intent::Insert(letter) => lemma_insert_keeps_wf(p, letter),
        Intent::Delete => lemma_delete_keeps_wf(p),
        Intent::Submit => lemma_submit_keeps_wf(p),
    }
}

/// Whatever sequence of intents a game takes, it keeps its invariant, its
/// answer and its scoring policy.
pub proof fn lemma_run_keeps_wf(p: Puzzle, intents: Seq<Intent>)
    requires
        p.wf(),
    ensures
        p.run(intents).wf(),
        p.run(intents).answer == p.answer,
        p.run(intents).policy == p.policy,
    decreases intents.len(),
{
    if intents.len() > 0 {
        lemma_run_keeps_wf(p, intents.drop_last());
        lemma_apply_keeps_wf(p.run(intents.drop_last()), intents.last());
    }
}

/// Whatever sequence of intents a game takes, the cursor stays within
/// `COL_COUNT` columns and `ROW_COUNT` rows.
pub proof fn lemma_cursor_stays_in_bounds(p: Puzzle, intents: Seq<Intent>)
    requires
        p.wf(),
    ensures
        0 <= p.run(intents).index <= COL_COUNT,
        0 <= p.run(intents).row <= ROW_COUNT,
{
    lemma_run_keeps_wf(p, intents);
}

/// Typing a letter and taking it back gives the game as it was: the cursor
/// is where it stood and the cell is empty again.
pub proof fn lemma_insert_then_delete(p: Puzzle, letter: char)
    requires
        p.wf(),
        p.can_insert(),
        !p.terminal(),
    ensures
        p.insert(letter).index == p.index + 1,
        p.insert(letter).cells[p.row as int][p.index as int].letter == Some(letter),
        p.insert(letter).delete() == p,
{
    let q = p.insert(letter);
    let back = q.delete();
    assert(p.cell_ok(p.row as int, p.index as int));
    assert(back.cells =~~= p.cells);
}

/// An intent whose precondition fails changes nothing.
pub proof fn lemma_refused_intent_changes_nothing(p: Puzzle, letter: char)
    ensures
        !p.can_insert() ==> p.insert(letter) == p,
        !p.can_delete() ==> p.delete() == p,
        !p.can_submit() ==> p.submit() == p,
{
}

/// A submitted guess wins exactly when it is the answer, and a guess that
/// wins leaves the cursor where it stood.
pub proof fn lemma_submit_wins_iff_answer(p: Puzzle)
    requires
        p.wf(),
        p.can_submit(),
        !p.terminal(),
    ensures
        p.submit().won <==> p.guess(p.row as int) == p.answer,
        p.submit().won ==> p.submit().row == p.row && p.submit().index == p.index,
        p.submit().cells[p.row as int] == p.scored_row(p.row as int),
{
}

/// A submitted guess wins exactly when every cell of its row comes out
/// `Correct`.
pub proof fn lemma_won_iff_row_all_correct(p: Puzzle)
    requires
        p.wf(),
        p.can_submit(),
        !p.terminal(),
    ensures
        p.submit().won <==> (forall|c: int|
            0 <= c < COL_COUNT ==> (#[trigger] p.submit().cells[p.row as int][c]).state
                == TileState::Correct),
{
    let r = p.row as int;
    let guess = p.guess(r);
    let states = classify_spec(p.policy, guess, p.answer);
    lemma_all_correct_iff_equal(p.policy, guess, p.answer);
    assert forall|c: int| 0 <= c < COL_COUNT implies (#[trigger] p.submit().cells[r][c]).state
        == states[c] by {}
    if forall|c: int|
        0 <= c < COL_COUNT ==> (#[trigger] p.submit().cells[r][c]).state == TileState::Correct {
        assert forall|c: int| 0 <= c < guess.len() implies #[trigger] states[c]
            == TileState::Correct by {
            assert(p.submit().cells[r][c].state == TileState::Correct);
        }
    }
}

/// A submitted guess that is not the answer moves the cursor to the start of
/// the next row and leaves the game unwon.
pub proof fn lemma_miss_advances(p: Puzzle)
    requires
        p.can_submit(),
        !p.terminal(),
        p.guess(p.row as int) != p.answer,
    ensures
        p.submit().row == p.row + 1,
        p.submit().index == 0,
        !p.submit().won,
{
}

/// A game is lost exactly by a miss in its last row.
pub proof fn lemma_last_miss_loses(p: Puzzle)
    requires
        p.can_submit(),
        !p.terminal(),
    ensures
        p.submit().phase() == Phase::Lost <==> p.row + 1 == ROW_COUNT && p.guess(p.row as int)
            != p.answer,
{
}

/// Once a game is won or lost, no intent changes it.
pub proof fn lemma_terminal_is_locked(p: Puzzle, intent: Intent)
    requires
        p.terminal(),
    ensures
        p.apply(intent) == p,
{
}

/// Once a game is won or lost, no sequence of intents changes it.
pub proof fn lemma_terminal_stays_locked(p: Puzzle, intents: Seq<Intent>)
    requires
        p.terminal(),
    ensures
        p.run(intents) == p,
    decreases intents.len(),
{
    if intents.len() > 0 {
        lemma_terminal_stays_locked(p, intents.drop_last());
        lemma_terminal_is_locked(p, intents.last());
    }
}

} // verus!
