//! Scoring one guess against the answer.
//!
//! A letter that matches the answer at its own position is `Correct`. For the
//! other letters two policies exist. The multiplicity-aware policy hands out
//! `Misplaced` from left to right for as long as the answer still has a copy
//! of the letter that no exact match has used up. The membership-only policy
//! gives `Misplaced` to every letter that occurs anywhere in the answer.

use crate::tile::TileState;
use vstd::prelude::*;

verus! {

/// How letters that are not exact matches earn `Misplaced`.
#[derive(Clone, Copy, Debug, PartialEq, Eq, Structural)]
pub enum Policy {
    /// Every copy of a letter in the answer gives credit at most once.
    MultiplicityAware,
    /// A letter gets credit whenever the answer contains it.
    MembershipOnly,
}

/// The number of positions below `n` at which `xs` holds `c` and `ys` holds
/// something else.
pub open spec fn unmatched(xs: Seq<char>, ys: Seq<char>, c: char, n: int) -> nat
    decreases n,
{
    if n <= 0 {
        0
    } else {
        unmatched(xs, ys, c, n - 1) + if xs[n - 1] == c && ys[n - 1] != c {
            1nat
        } else {
            0nat
        }
    }
}

/// Whether the letter at position `i` of the guess, which is no exact match,
/// still earns `Misplaced`.
pub open spec fn earns_credit(policy: Policy, guess: Seq<char>, answer: Seq<char>, i: int) -> bool {
    match policy {
        Policy::MultiplicityAware => unmatched(guess, answer, guess[i], i) < unmatched(
            answer,
            guess,
            guess[i],
            answer.len() as int,
        ),
        Policy::MembershipOnly => answer.contains(guess[i]),
    }
}

/// The feedback for position `i` of the guess.
pub open spec fn state_at(policy: Policy, guess: Seq<char>, answer: Seq<char>, i: int) -> TileState {
    if guess[i] == answer[i] {
        TileState::Correct
    } else if earns_credit(policy, guess, answer, i) {
        TileState::Misplaced
    } else {
        TileState::Incorrect
    }
}

/// The feedback for a whole guess, position by position.
pub open spec fn classify_spec(policy: Policy, guess: Seq<char>, answer: Seq<char>) -> Seq<
    TileState,
> {
    Seq::new(guess.len(), |i: int| state_at(policy, guess, answer, i))
}

/// Counts the positions below `n` at which `xs` holds `c` and `ys` does not.
fn count_unmatched(xs: &[char], ys: &[char], c: char, n: usize) -> (count: usize)
    requires
        n <= xs@.len(),
        n <= ys@.len(),
    ensures
        count == unmatched(xs@, ys@, c, n as int),
        count <= n,
{
    let mut count: usize = 0;
    let mut k: usize = 0;
    while k < n
        invariant
            k <= n,
            n <= xs@.len(),
            n <= ys@.len(),
            count == unmatched(xs@, ys@, c, k as int),
            count <= k,
        decreases n - k,
    {
        if xs[k] == c && ys[k] != c {
            count += 1;
        }
        k += 1;
    }
    count
}

/// Whether `c` occurs in `xs`.
fn occurs(xs: &[char], c: char) -> (found: bool)
    ensures
        found == xs@.contains(c),
{
    let mut k: usize = 0;
    while k < xs.len()
        invariant
            k <= xs@.len(),
            forall|j: int| 0 <= j < k ==> xs@[j] != c,
        decreases xs@.len() - k,
    {
        if xs[k] == c {
            return true;
        }
        k += 1;
    }
    false
}

/// The letters of `text`, one element per character.
pub fn letters_of(text: &str) -> (letters: Vec<char>)
    ensures
        letters@ == text@,
{
    let n: usize = text.unicode_len();
    let mut letters: Vec<char> = Vec::new();
    let mut k: usize = 0;
    while k < n
        invariant
            k <= n,
            n == text@.len(),
            letters@ == text@.subrange(0, k as int),
        decreases n - k,
    {
        letters.push(text.get_char(k));
        assert(letters@ =~= text@.subrange(0, k + 1));
        k += 1;
    }
    assert(text@.subrange(0, n as int) =~= text@);
    letters
}

/// Scores `guess` against `answer` under `policy`.
pub fn classify(guess: &[char], answer: &str, policy: Policy) -> (states: Vec<TileState>)
    requires
        guess@.len() == answer@.len(),
    ensures
        states@ == classify_spec(policy, guess@, answer@),
{
    let answer_letters = letters_of(answer);
    score(guess, answer_letters.as_slice(), policy)
}

/// Scores `guess` against the letters of the answer under `policy`.
pub fn score(guess: &[char], answer: &[char], policy: Policy) -> (states: Vec<TileState>)
    requires
        guess@.len() == answer@.len(),
    ensures
        states@ == classify_spec(policy, guess@, answer@),
{
    let n: usize = guess.len();
    let mut states: Vec<TileState> = Vec::new();
    let mut i: usize = 0;
    while i < n
        invariant
            i <= n,
            n == guess@.len(),
            n == answer@.len(),
            states@.len() == i,
            forall|j: int| 0 <= j < i ==> states@[j] == state_at(policy, guess@, answer@, j),
        decreases n - i,
    {
        let c: char = guess[i];
        let state = if c == answer[i] {
            TileState::Correct
        } else {
            let credit = match policy {
                Policy::MultiplicityAware => {
                    let used: usize = count_unmatched(guess, answer, c, i);
                    let pool: usize = count_unmatched(answer, guess, c, n);
                    used < pool
                },
                Policy::MembershipOnly => occurs(answer, c),
            };
            if credit {
                TileState::Misplaced
            } else {
                TileState::Incorrect
            }
        };
        states.push(state);
        i += 1;
    }
    assert(states@ =~= classify_spec(policy, guess@, answer@));
    states
}

/// The number of positions below `n` at which the guess holds `c` and the
/// multiplicity-aware policy marks it `Misplaced`.
pub open spec fn misplaced_count(guess: Seq<char>, answer: Seq<char>, c: char, n: int) -> nat
    decreases n,
{
    if n <= 0 {
        0
    } else {
        misplaced_count(guess, answer, c, n - 1) + if guess[n - 1] == c && state_at(
            Policy::MultiplicityAware,
            guess,
            answer,
            n - 1,
        ) == TileState::Misplaced {
            1nat
        } else {
            0nat
        }
    }
}

/// Under either policy, every position of a guess is `Correct` exactly when
/// the guess is the answer.
pub proof fn lemma_all_correct_iff_equal(policy: Policy, guess: Seq<char>, answer: Seq<char>)
    requires
        guess.len() == answer.len(),
    ensures
        (forall|i: int|
            0 <= i < guess.len() ==> #[trigger] classify_spec(policy, guess, answer)[i]
                == TileState::Correct) <==> guess == answer,
{
    let states = classify_spec(policy, guess, answer);
    if forall|i: int| 0 <= i < guess.len() ==> #[trigger] states[i] == TileState::Correct {
        assert forall|i: int| 0 <= i < guess.len() implies guess[i] == answer[i] by {
            assert(states[i] == TileState::Correct);
        }
        assert(guess =~= answer);
    }
}

/// No position is ever left `Unknown` by scoring.
pub proof fn lemma_classify_decides(policy: Policy, guess: Seq<char>, answer: Seq<char>)
    ensures
        classify_spec(policy, guess, answer).len() == guess.len(),
        forall|i: int|
            0 <= i < guess.len() ==> #[trigger] classify_spec(policy, guess, answer)[i]
                != TileState::Unknown,
{
}

/// Under the multiplicity-aware policy, the `Misplaced` marks that a letter
/// has collected up to position `n` are its unmatched occurrences in the guess
/// up to there, capped by its unmatched occurrences in the whole answer.
pub proof fn lemma_misplaced_count(guess: Seq<char>, answer: Seq<char>, c: char, n: int)
    requires
        guess.len() == answer.len(),
        0 <= n <= guess.len(),
    ensures
        misplaced_count(guess, answer, c, n) == vstd::math::min(
            unmatched(guess, answer, c, n) as int,
            unmatched(answer, guess, c, answer.len() as int) as int,
        ),
    decreases n,
{
    if n > 0 {
        lemma_misplaced_count(guess, answer, c, n - 1);
    }
}

/// Under the multiplicity-aware policy a letter is marked `Misplaced` no more
/// often than the answer has copies of it that no exact match uses.
pub proof fn lemma_credit_is_bounded(guess: Seq<char>, answer: Seq<char>, c: char)
    requires
        guess.len() == answer.len(),
    ensures
        misplaced_count(guess, answer, c, guess.len() as int) <= unmatched(
            answer,
            guess,
            c,
            answer.len() as int,
        ),
{
    lemma_misplaced_count(guess, answer, c, guess.len() as int);
}

/// A letter with an unmatched occurrence in `xs` below `n` occurs in `xs`.
pub proof fn lemma_unmatched_occurs(xs: Seq<char>, ys: Seq<char>, c: char, n: int)
    requires
        0 <= n <= xs.len(),
        unmatched(xs, ys, c, n) > 0,
    ensures
        xs.contains(c),
    decreases n,
{
    if xs[n - 1] == c {
        assert(xs.contains(c));
    } else {
        lemma_unmatched_occurs(xs, ys, c, n - 1);
    }
}

/// The two policies agree on `Correct`, and whatever the multiplicity-aware
/// policy marks `Misplaced` the membership-only policy marks `Misplaced` too.
pub proof fn lemma_membership_is_more_generous(guess: Seq<char>, answer: Seq<char>, i: int)
    requires
        guess.len() == answer.len(),
        0 <= i < guess.len(),
    ensures
        state_at(Policy::MultiplicityAware, guess, answer, i) == TileState::Correct <==> state_at(
            Policy::MembershipOnly,
            guess,
            answer,
            i,
        ) == TileState::Correct,
        state_at(Policy::MultiplicityAware, guess, answer, i) == TileState::Misplaced ==> state_at(
            Policy::MembershipOnly,
            guess,
            answer,
            i,
        ) == TileState::Misplaced,
{
    if state_at(Policy::MultiplicityAware, guess, answer, i) == TileState::Misplaced {
        lemma_unmatched_occurs(answer, guess, guess[i], answer.len() as int);
    }
}

} // verus!
