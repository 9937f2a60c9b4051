//! Where hidden words come from: a fixed list, and a draw that picks from it.

use crate::puzzle::COL_COUNT;
use std::collections::hash_map::RandomState;
use std::hash::BuildHasher;
use vstd::prelude::*;

verus! {

/// Why a game could not be created.
#[derive(Clone, Copy, Debug, PartialEq, Eq, Structural)]
pub enum GameError {
    /// The source of answers holds no word.
    NoAnswersAvailable,
}

/// A word that can be an answer: `COL_COUNT` lower-case letters.
pub open spec fn is_word(word: Seq<char>) -> bool {
    &&& word.len() == COL_COUNT
    &&& forall|i: int| 0 <= i < word.len() ==> 'a' <= #[trigger] word[i] <= 'z'
}

/// The words of the built-in list, in order.
pub open spec fn answer_pool() -> Seq<Seq<char>> {
    seq![
        "hello"@,
        "world"@,
        "allot"@,
        "crane"@,
        "doubt"@,
        "eagle"@,
        "fjord"@,
        "glyph"@,
        "hinge"@,
        "joker"@,
        "knack"@,
        "llama"@,
        "mango"@,
        "nymph"@,
        "pixel"@,
        "quilt"@,
        "robin"@,
        "sugar"@,
        "tweed"@,
        "vivid"@,
    ]
}

/// The position in a list of `len` words that `draw` picks.
pub open spec fn slot(draw: u64, len: nat) -> int
    recommends
        len > 0,
{
    draw as int % len as int
}

/// Every word of the built-in list can be an answer.
pub proof fn lemma_pool_holds_words()
    ensures
        answer_pool().len() == 20,
        forall|i: int| 0 <= i < answer_pool().len() ==> is_word(#[trigger] answer_pool()[i]),
{
    reveal_strlit("hello");
    reveal_strlit("world");
    reveal_strlit("allot");
    reveal_strlit("crane");
    reveal_strlit("doubt");
    reveal_strlit("eagle");
    reveal_strlit("fjord");
    reveal_strlit("glyph");
    reveal_strlit("hinge");
    reveal_strlit("joker");
    reveal_strlit("knack");
    reveal_strlit("llama");
    reveal_strlit("mango");
    reveal_strlit("nymph");
    reveal_strlit("pixel");
    reveal_strlit("quilt");
    reveal_strlit("robin");
    reveal_strlit("sugar");
    reveal_strlit("tweed");
    reveal_strlit("vivid");
}

/// The built-in list of answers.
pub fn answers() -> (words: Vec<&'static str>)
    ensures
        words@.len() == answer_pool().len(),
        forall|i: int| 0 <= i < words@.len() ==> (#[trigger] words@[i])@ == answer_pool()[i],
        forall|i: int| 0 <= i < words@.len() ==> is_word((#[trigger] words@[i])@),
{
    proof {
        lemma_pool_holds_words();
    }
    let words = vec![
        "hello",
        "world",
        "allot",
        "crane",
        "doubt",
        "eagle",
        "fjord",
        "glyph",
        "hinge",
        "joker",
        "knack",
        "llama",
        "mango",
        "nymph",
        "pixel",
        "quilt",
        "robin",
        "sugar",
        "tweed",
        "vivid",
    ];
    assert forall|i: int| 0 <= i < words@.len() implies is_word((#[trigger] words@[i])@) by {
        assert(words@[i]@ == answer_pool()[i]);
    }
    words
}

/// The position in a list of `len` words that `draw` picks.
pub fn slot_of(draw: u64, len: usize) -> (at: usize)
    requires
        len > 0,
    ensures
        at == slot(draw, len as nat),
        at < len,
{
    (draw % (len as u64)) as usize
}

/// Picks the word of `words` at the slot of `draw`. Fails exactly when
/// `words` is empty.
pub fn pick(words: &[&str], draw: u64) -> (picked: Result<String, GameError>)
    ensures
        words@.len() == 0 ==> picked == Err::<String, GameError>(GameError::NoAnswersAvailable),
        words@.len() > 0 ==> picked is Ok && picked->Ok_0@ == words@[slot(draw, words@.len())]@,
{
    if words.len() == 0 {
        return Err(GameError::NoAnswersAvailable);
    }
    let at: usize = slot_of(draw, words.len());
    Ok(words[at].to_owned())
}

/// `RandomState::new` of std: a hasher factory with keys that differ from one
/// call to the next. Nothing is claimed of the keys.
pub assume_specification[ RandomState::new ]() -> (state: RandomState);

/// `BuildHasher::hash_one` of std on a `RandomState`: the hash of `value`
/// under the keys of `state`. Nothing is claimed of the number that comes
/// back.
#[verifier::external_body]
fn hash_under(state: &RandomState, value: u64) -> (digest: u64) {
    state.hash_one(value)
}

/// A number that is not known beforehand.
pub fn random_draw() -> (draw: u64) {
    let state = RandomState::new();
    hash_under(&state, 0)
}

} // verus!
