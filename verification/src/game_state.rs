//! The executable game: the state that a host keeps, and the operations that
//! move it along the transitions of the model.

use crate::answers::{answer_pool, answers, pick, random_draw, slot, slot_of, GameError};
use crate::classifier::{letters_of, score, Policy};
use crate::puzzle::{
    lemma_delete_keeps_wf, lemma_fresh_is_wf, lemma_insert_keeps_wf, lemma_submit_keeps_wf,
    Intent, Phase, Puzzle, COL_COUNT, ROW_COUNT,
};
use crate::tile::{Tile, TileState};
use vstd::prelude::*;

verus! {

/// A game in progress.
#[derive(Clone, Debug)]
pub struct GameState {
    /// The hidden word; it never changes.
    pub answer: String,
    /// How submitted guesses are scored; it never changes.
    pub policy: Policy,
    /// The row of the next writable cell.
    pub current_row: usize,
    /// The column of the next writable cell.
    pub current_index: usize,
    /// The grid, row by row.
    pub grid: Vec<Vec<Tile>>,
    /// Whether a submitted guess was the answer.
    pub success: bool,
}

/// What an intent did to the game, for whoever draws the grid.
#[derive(Clone, Copy, Debug, PartialEq, Eq, Structural)]
pub enum Outcome {
    /// Nothing changed.
    Ignored,
    /// `letter` now stands in the cell at `row`, `col`.
    Typed { row: usize, col: usize, letter: char },
    /// The cell at `row`, `col` lost its letter.
    Erased { row: usize, col: usize },
    /// Row `row` was scored; `won` tells whether it was the answer.
    Scored { row: usize, won: bool },
}

/// What `intent` does to the game `p`, as reported to the caller.
pub open spec fn outcome_of(p: Puzzle, intent: Intent) -> Outcome {
    match intent {
        Intent::Insert(letter) => if p.can_insert() && !p.terminal() {
            Outcome::Typed { row: p.row as usize, col: p.index as usize, letter }
        } else {
            Outcome::Ignored
        },
        Intent::Delete => if p.can_delete() && !p.terminal() {
            Outcome::Erased { row: p.row as usize, col: (p.index - 1) as usize }
        } else {
            Outcome::Ignored
        },
        Intent::Submit => if p.can_submit() && !p.terminal() {
            Outcome::Scored { row: p.row as usize, won: p.guess(p.row as int) == p.answer }
        } else {
            Outcome::Ignored
        },
    }
}

impl View for GameState {
    type V = Puzzle;

    open spec fn view(&self) -> Puzzle {
        Puzzle {
            answer: self.answer@,
            policy: self.policy,
            row: self.current_row as nat,
            index: self.current_index as nat,
            cells: Seq::new(self.grid@.len(), |r: int| self.grid@[r]@),
            won: self.success,
        }
    }
}

/// A row of `COL_COUNT` blank cells.
fn blank_row() -> (row: Vec<Tile>)
    ensures
        row@ == Seq::new(COL_COUNT as nat, |c: int| Tile::blank()),
{
    let mut row: Vec<Tile> = Vec::new();
    let mut c: usize = 0;
    while c < COL_COUNT
        invariant
            c <= COL_COUNT,
            row@.len() == c,
            forall|j: int| 0 <= j < c ==> row@[j] == Tile::blank(),
        decreases COL_COUNT - c,
    {
        row.push(Tile::new());
        c += 1;
    }
    assert(row@ =~= Seq::new(COL_COUNT as nat, |c: int| Tile::blank()));
    row
}

/// The letters of a full row.
fn letters_in(row: &Vec<Tile>) -> (letters: Vec<char>)
    requires
        forall|c: int| 0 <= c < row@.len() ==> (#[trigger] row@[c]).letter is Some,
    ensures
        letters@ == Seq::new(row@.len(), |c: int| row@[c].letter->0),
{
    let mut letters: Vec<char> = Vec::new();
    let mut c: usize = 0;
    while c < row.len()
        invariant
            c <= row@.len(),
            letters@.len() == c,
            forall|j: int| 0 <= j < row@.len() ==> (#[trigger] row@[j]).letter is Some,
            forall|j: int| 0 <= j < c ==> letters@[j] == row@[j].letter->0,
        decreases row@.len() - c,
    {
        match row[c].letter {
            Some(letter) => letters.push(letter),
            None => {},
        }
        c += 1;
    }
    assert(letters@ =~= Seq::new(row@.len(), |c: int| row@[c].letter->0));
    letters
}

/// The row that holds `letters` with `states` as their feedback.
fn annotate(letters: &Vec<char>, states: &Vec<TileState>) -> (row: Vec<Tile>)
    requires
        letters@.len() == states@.len(),
    ensures
        row@ == Seq::new(letters@.len(), |c: int| Tile::scored(letters@[c], states@[c])),
{
    let mut row: Vec<Tile> = Vec::new();
    let mut c: usize = 0;
    while c < letters.len()
        invariant
            c <= letters@.len(),
            letters@.len() == states@.len(),
            row@.len() == c,
            forall|j: int| 0 <= j < c ==> row@[j] == Tile::scored(letters@[j], states@[j]),
        decreases letters@.len() - c,
    {
        row.push(Tile { state: states[c], letter: Some(letters[c]) });
        c += 1;
    }
    assert(row@ =~= Seq::new(letters@.len(), |c: int| Tile::scored(letters@[c], states@[c])));
    row
}

/// Whether two rows of letters are the same word.
fn same_letters(left: &Vec<char>, right: &Vec<char>) -> (same: bool)
    ensures
        same == (left@ == right@),
{
    if left.len() != right.len() {
        return false;
    }
    let mut k: usize = 0;
    while k < left.len()
        invariant
            k <= left@.len(),
            left@.len() == right@.len(),
            forall|j: int| 0 <= j < k ==> left@[j] == right@[j],
        decreases left@.len() - k,
    {
        if left[k] != right[k] {
            return false;
        }
        k += 1;
    }
    assert(left@ =~= right@);
    true
}

impl GameState {
    /// The invariant of the state: that of the game it stands for.
    pub open spec fn wf(&self) -> bool {
        self@.wf()
    }

    /// What the invariant demands of row `r`: each of its cells is as the
    /// cursor and the outcome require, a row above the cursor is a miss, and
    /// the row of a won game is the answer.
    pub open spec fn row_ok(&self, r: int) -> bool {
        &&& forall|c: int| 0 <= c < COL_COUNT ==> #[trigger] self@.cell_ok(r, c)
        &&& r < self.current_row ==> self@.guess(r) != self.answer@
        &&& self.success && r == self.current_row ==> self@.guess(r) == self.answer@
    }

    /// Whether the grid has `ROW_COUNT` rows of `COL_COUNT` cells.
    fn is_shaped(&self) -> (shaped: bool)
        ensures
            shaped == self@.shaped(),
    {
        if self.grid.len() != ROW_COUNT {
            return false;
        }
        let mut r: usize = 0;
        while r < ROW_COUNT
            invariant
                r <= ROW_COUNT,
                self.grid@.len() == ROW_COUNT,
                forall|j: int| 0 <= j < r ==> (#[trigger] self@.cells[j]).len() == COL_COUNT,
            decreases ROW_COUNT - r,
        {
            if self.grid[r].len() != COL_COUNT {
                assert(self@.cells[r as int].len() != COL_COUNT);
                return false;
            }
            r += 1;
        }
        true
    }

    /// Whether row `r` is as the invariant demands.
    #[verifier::loop_isolation(false)]
    fn row_is_valid(&self, r: usize, answer_letters: &Vec<char>) -> (valid: bool)
        requires
            self@.shaped(),
            answer_letters@ == self.answer@,
            self.answer@.len() == COL_COUNT,
            r < ROW_COUNT,
        ensures
            valid == self.row_ok(r as int),
    {
        let row = &self.grid[r];
        assert(self@.cells[r as int] == row@);
        let scored = r < self.current_row || (self.success && r == self.current_row);
        if scored {
            let mut c: usize = 0;
            while c < COL_COUNT
                invariant
                    c <= COL_COUNT,
                    forall|j: int| 0 <= j < c ==> (#[trigger] row@[j]).letter is Some,
                decreases COL_COUNT - c,
            {
                if row[c].letter.is_none() {
                    assert(!self@.cell_ok(r as int, c as int));
                    return false;
                }
                c += 1;
            }
            let guess = letters_in(row);
            assert(guess@ =~= self@.guess(r as int));
            let states = score(guess.as_slice(), answer_letters.as_slice(), self.policy);
            let mut c: usize = 0;
            while c < COL_COUNT
                invariant
                    c <= COL_COUNT,
                    forall|j: int| 0 <= j < c ==> (#[trigger] row@[j]).state == states@[j],
                decreases COL_COUNT - c,
            {
                if row[c].state != states[c] {
                    assert(!self@.cell_ok(r as int, c as int));
                    return false;
                }
                c += 1;
            }
            assert forall|c: int| 0 <= c < COL_COUNT implies #[trigger] self@.cell_ok(
                r as int,
                c,
            ) by {
                assert(row@[c].letter is Some);
                assert(row@[c].state == states@[c]);
            }
            let hit = same_letters(&guess, answer_letters);
            if r < self.current_row {
                !hit
            } else {
                hit
            }
        } else {
            let mut c: usize = 0;
            while c < COL_COUNT
                invariant
                    c <= COL_COUNT,
                    forall|j: int| 0 <= j < c ==> #[trigger] self@.cell_ok(r as int, j),
                decreases COL_COUNT - c,
            {
                let cell = row[c];
                let fits = if r == self.current_row && c < self.current_index {
                    cell.letter.is_some() && cell.state == TileState::Unknown
                } else {
                    cell.letter.is_none() && cell.state == TileState::Unknown
                };
                if !fits {
                    assert(!self@.cell_ok(r as int, c as int));
                    return false;
                }
                assert(self@.cell_ok(r as int, c as int));
                c += 1;
            }
            true
        }
    }

    /// Whether the state meets the invariant. A state that came from `new`,
    /// `from_source` or `with_answer` and was changed only by the operations
    /// below always does; this is for a state of any other origin.
    pub fn is_valid(&self) -> (valid: bool)
        ensures
            valid == self.wf(),
    {
        if !self.is_shaped() {
            return false;
        }
        let answer_letters = letters_of(self.answer.as_str());
        if answer_letters.len() != COL_COUNT || self.current_row > ROW_COUNT || self.current_index
            > COL_COUNT {
            return false;
        }
        if self.current_row == ROW_COUNT && self.current_index != 0 {
            return false;
        }
        if self.success && !(self.current_row < ROW_COUNT && self.current_index == COL_COUNT) {
            return false;
        }
        let mut r: usize = 0;
        while r < ROW_COUNT
            invariant
                r <= ROW_COUNT,
                self@.shaped(),
                answer_letters@ == self.answer@,
                self.answer@.len() == COL_COUNT,
                forall|j: int| 0 <= j < r ==> #[trigger] self.row_ok(j),
            decreases ROW_COUNT - r,
        {
            if !self.row_is_valid(r, &answer_letters) {
                proof {
                    if self.wf() {
                        assert(self@.guess(r as int) != self.answer@ || r >= self.current_row);
                        assert(self.row_ok(r as int));
                    }
                }
                return false;
            }
            r += 1;
        }
        proof {
            assert forall|j: int, c: int|
                0 <= j < ROW_COUNT && 0 <= c < COL_COUNT implies #[trigger] self@.cell_ok(j, c) by {
                assert(self.row_ok(j));
            }
            assert forall|j: int| 0 <= j < self@.row implies #[trigger] self@.guess(j)
                != self@.answer by {
                assert(self.row_ok(j));
            }
            if self.success {
                assert(self.row_ok(self.current_row as int));
            }
        }
        true
    }

    /// A new game with an answer drawn from the built-in list.
    pub fn new() -> (game: GameState)
        ensures
            game.wf(),
            answer_pool().contains(game.answer@),
            game@ == Puzzle::fresh(game.answer@, Policy::MultiplicityAware),
    {
        let words = answers();
        let draw = random_draw();
        let at: usize = slot_of(draw, words.len());
        assert(words@[at as int]@ == answer_pool()[at as int]);
        GameState::with_answer(words[at], Policy::MultiplicityAware)
    }

    /// A new game whose answer is the word of `words` at the slot of `draw`.
    /// Fails exactly when `words` is empty.
    pub fn from_source(words: &[&str], draw: u64) -> (made: Result<GameState, GameError>)
        requires
            forall|i: int| 0 <= i < words@.len() ==> (#[trigger] words@[i])@.len() == COL_COUNT,
        ensures
            words@.len() == 0 ==> made is Err && made->Err_0 == GameError::NoAnswersAvailable,
            words@.len() > 0 ==> made is Ok && made->Ok_0.wf() && made->Ok_0@ == Puzzle::fresh(
                words@[slot(draw, words@.len())]@,
                Policy::MultiplicityAware,
            ),
    {
        match pick(words, draw) {
            Ok(answer) => Ok(GameState::with_answer(answer.as_str(), Policy::MultiplicityAware)),
            Err(error) => Err(error),
        }
    }

    /// A new game with the given answer and scoring policy.
    pub fn with_answer(answer: &str, policy: Policy) -> (game: GameState)
        requires
            answer@.len() == COL_COUNT,
        ensures
            game.wf(),
            game@ == Puzzle::fresh(answer@, policy),
    {
        let mut grid: Vec<Vec<Tile>> = Vec::new();
        let mut r: usize = 0;
        while r < ROW_COUNT
            invariant
                r <= ROW_COUNT,
                grid@.len() == r,
                forall|j: int|
                    0 <= j < r ==> (#[trigger] grid@[j])@ == Seq::new(
                        COL_COUNT as nat,
                        |c: int| Tile::blank(),
                    ),
            decreases ROW_COUNT - r,
        {
            grid.push(blank_row());
            r += 1;
        }
        let game = GameState {
            answer: answer.to_owned(),
            policy,
            current_row: 0,
            current_index: 0,
            grid,
            success: false,
        };
        proof {
            assert(game@.cells =~= Puzzle::fresh(answer@, policy).cells);
            lemma_fresh_is_wf(answer@, policy);
        }
        game
    }

    /// Where the game stands.
    pub fn phase(&self) -> (phase: Phase)
        ensures
            phase == self@.phase(),
    {
        if self.success {
            Phase::Won
        } else if self.current_row == ROW_COUNT {
            Phase::Lost
        } else {
            Phase::Playing
        }
    }

    /// Whether the game has ended.
    pub fn is_over(&self) -> (over: bool)
        ensures
            over == self@.terminal(),
    {
        self.success || self.current_row == ROW_COUNT
    }

    /// Whether the cursor stands on a writable cell.
    pub fn can_add_letter(&self) -> (can: bool)
        ensures
            can == self@.can_insert(),
    {
        self.current_row < ROW_COUNT && self.current_index < COL_COUNT
    }

    /// Types `c` at the cursor; does nothing where the cursor stands on no
    /// writable cell or the game has ended.
    pub fn add_letter(&mut self, c: char)
        requires
            old(self).wf(),
        ensures
            final(self).wf(),
            final(self)@ == old(self)@.insert(c),
            final(self).answer == old(self).answer,
            !(old(self)@.can_insert() && !old(self)@.terminal()) ==> *final(self) == *old(self),
    {
        if self.can_add_letter() && !self.success {
            self.grid[self.current_row][self.current_index].letter = Some(c);
            self.current_index += 1;
            proof {
                assert(self@.cells =~~= old(self)@.insert(c).cells);
            }
        }
        proof {
            lemma_insert_keeps_wf(old(self)@, c);
        }
    }

    /// Whether a letter stands before the cursor.
    pub fn can_make_delete(&self) -> (can: bool)
        ensures
            can == self@.can_delete(),
    {
        self.current_index > 0
    }

    /// Takes back the letter before the cursor; does nothing where there is
    /// none or the game has ended.
    pub fn make_delete(&mut self)
        requires
            old(self).wf(),
        ensures
            final(self).wf(),
            final(self)@ == old(self)@.delete(),
            final(self).answer == old(self).answer,
            !(old(self)@.can_delete() && !old(self)@.terminal()) ==> *final(self) == *old(self),
    {
        if self.can_make_delete() && !self.is_over() {
            self.grid[self.current_row][self.current_index - 1].letter = None;
            self.current_index -= 1;
            proof {
                assert(self@.cells =~~= old(self)@.delete().cells);
            }
        }
        proof {
            lemma_delete_keeps_wf(old(self)@);
        }
    }

    /// Scores the row under the cursor against the answer, writes the feedback
    /// into the row and records whether the guess was the answer.
    pub fn check_answer(&mut self)
        requires
            old(self).wf(),
            old(self)@.can_submit(),
            !old(self)@.terminal(),
        ensures
            final(self)@.cells == old(self)@.cells.update(
                old(self).current_row as int,
                old(self)@.scored_row(old(self).current_row as int),
            ),
            final(self).success == (old(self)@.guess(old(self).current_row as int) == old(
                self,
            ).answer@),
            final(self).answer == old(self).answer,
            final(self).policy == old(self).policy,
            final(self).current_row == old(self).current_row,
            final(self).current_index == old(self).current_index,
    {
        let row: usize = self.current_row;
        proof {
            assert forall|c: int| 0 <= c < COL_COUNT implies (#[trigger] self.grid@[row as int]@[c]).letter is Some by {
                assert(self@.cell_ok(row as int, c));
            }
        }
        assert(self@.cells[row as int] == self.grid@[row as int]@);
        let answer_letters = letters_of(self.answer.as_str());
        let guess = letters_in(&self.grid[row]);
        assert(guess@ =~= self@.guess(row as int));
        let states = score(guess.as_slice(), answer_letters.as_slice(), self.policy);
        let annotated_row = annotate(&guess, &states);
        assert(annotated_row@ =~= self@.scored_row(row as int));
        self.grid[row] = annotated_row;
        self.success = same_letters(&guess, &answer_letters);
        proof {
            assert(self@.cells =~~= old(self)@.cells.update(
                row as int,
                old(self)@.scored_row(row as int),
            ));
        }
    }

    /// Whether the row under the cursor is full.
    pub fn can_make_guess(&self) -> (can: bool)
        ensures
            can == self@.can_submit(),
    {
        self.current_row < ROW_COUNT && self.current_index == COL_COUNT
    }

    /// Submits the row under the cursor; does nothing where the row is not
    /// full or the game has ended.
    pub fn make_guess(&mut self)
        requires
            old(self).wf(),
        ensures
            final(self).wf(),
            final(self)@ == old(self)@.submit(),
            final(self).answer == old(self).answer,
            !(old(self)@.can_submit() && !old(self)@.terminal()) ==> *final(self) == *old(self),
    {
        if self.can_make_guess() && !self.success {
            self.check_answer();
            if !self.success {
                self.current_row += 1;
                self.current_index = 0;
            }
        }
        proof {
            lemma_submit_keeps_wf(old(self)@);
        }
    }

    /// Carries out one intent and reports what it changed.
    pub fn handle(&mut self, intent: Intent) -> (outcome: Outcome)
        requires
            old(self).wf(),
        ensures
            final(self).wf(),
            final(self)@ == old(self)@.apply(intent),
            final(self).answer == old(self).answer,
            outcome == outcome_of(old(self)@, intent),
            outcome == Outcome::Ignored ==> *final(self) == *old(self),
    {
        let row: usize = self.current_row;
        let col: usize = self.current_index;
        match intent {
            Intent::Insert(letter) => {
                if self.can_add_letter() && !self.is_over() {
                    self.add_letter(letter);
                    Outcome::Typed { row, col, letter }
                } else {
                    Outcome::Ignored
                }
            },
            Intent::Delete => {
                if self.can_make_delete() && !self.is_over() {
                    self.make_delete();
                    Outcome::Erased { row, col: col - 1 }
                } else {
                    Outcome::Ignored
                }
            },
            Intent::Submit => {
                if self.can_make_guess() && !self.is_over() {
                    self.make_guess();
                    Outcome::Scored { row, won: self.success }
                } else {
                    Outcome::Ignored
                }
            },
        }
    }
}

} // verus!
