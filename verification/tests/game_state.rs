use word_puzzle::answers::{answers, GameError};
use word_puzzle::classifier::Policy;
use word_puzzle::game_state::{GameState, Outcome};
use word_puzzle::puzzle::{Intent, Phase, COL_COUNT, ROW_COUNT};
use word_puzzle::tile::{Tile, TileState};

use TileState::{Correct, Incorrect, Misplaced, Unknown};

fn game(answer: &str) -> GameState {
    GameState::with_answer(answer, Policy::MultiplicityAware)
}

fn type_word(gs: &mut GameState, word: &str) {
    for c in word.chars() {
        gs.add_letter(c);
    }
}

fn states(gs: &GameState, row: usize) -> Vec<TileState> {
    gs.grid[row].iter().map(|tile| tile.state).collect()
}

fn letters(gs: &GameState, row: usize) -> Vec<Option<char>> {
    gs.grid[row].iter().map(|tile| tile.letter).collect()
}

fn same(a: &GameState, b: &GameState) -> bool {
    a.answer == b.answer
        && a.policy == b.policy
        && a.current_row == b.current_row
        && a.current_index == b.current_index
        && a.grid == b.grid
        && a.success == b.success
}

#[test]
fn test_init() {
    let gs = GameState::new();
    assert_eq!(gs.current_index, 0);
    assert_eq!(gs.current_row, 0);
}

#[test]
fn a_new_tile_is_blank() {
    let tile = Tile::new();
    assert_eq!(tile.state, Unknown);
    assert_eq!(tile.letter, None);
}

#[test]
fn a_new_game_is_empty_and_playing() {
    let gs = GameState::new();
    assert!(!gs.success);
    assert_eq!(gs.policy, Policy::MultiplicityAware);
    assert_eq!(gs.grid.len(), ROW_COUNT);
    for row in &gs.grid {
        assert_eq!(row.len(), COL_COUNT);
        for tile in row {
            assert_eq!(*tile, Tile::new());
        }
    }
    assert_eq!(gs.phase(), Phase::Playing);
    assert!(!gs.is_over());
    assert!(answers().contains(&gs.answer.as_str()));
}

#[test]
fn with_answer_keeps_the_answer_and_the_policy() {
    let gs = GameState::with_answer("allot", Policy::MembershipOnly);
    assert_eq!(gs.answer, "allot");
    assert_eq!(gs.policy, Policy::MembershipOnly);
    assert_eq!((gs.current_row, gs.current_index, gs.success), (0, 0, false));
}

#[test]
fn from_source_picks_by_the_draw() {
    let words = ["hello", "world", "allot"];
    assert_eq!(GameState::from_source(&words, 0).unwrap().answer, "hello");
    assert_eq!(GameState::from_source(&words, 4).unwrap().answer, "world");
    assert_eq!(GameState::from_source(&words, 8).unwrap().answer, "allot");
    let gs = GameState::from_source(&words, 8).unwrap();
    assert!(same(&gs, &game("allot")));
}

#[test]
fn from_source_fails_on_an_empty_source() {
    match GameState::from_source(&[], 7) {
        Err(error) => assert_eq!(error, GameError::NoAnswersAvailable),
        Ok(_) => panic!("a game was made from no words"),
    }
}

#[test]
fn letters_fill_the_row_from_the_left() {
    let mut gs = game("hello");
    assert!(gs.can_add_letter());
    assert!(!gs.can_make_delete());
    assert!(!gs.can_make_guess());
    gs.add_letter('w');
    gs.add_letter('o');
    assert_eq!((gs.current_row, gs.current_index), (0, 2));
    assert_eq!(letters(&gs, 0), vec![Some('w'), Some('o'), None, None, None]);
    assert_eq!(states(&gs, 0), vec![Unknown; 5]);
    assert!(gs.can_add_letter());
    assert!(gs.can_make_delete());
    assert!(!gs.can_make_guess());
    type_word(&mut gs, "rld");
    assert_eq!(gs.current_index, COL_COUNT);
    assert!(!gs.can_add_letter());
    assert!(gs.can_make_guess());
}

#[test]
fn insert_then_delete_restores_the_game() {
    let mut gs = game("hello");
    type_word(&mut gs, "wo");
    let before = gs.clone();
    gs.add_letter('r');
    assert_eq!(gs.current_index, 3);
    assert_eq!(gs.grid[0][2].letter, Some('r'));
    gs.make_delete();
    assert_eq!(gs.current_index, 2);
    assert_eq!(gs.grid[0][2].letter, None);
    assert_eq!(gs.grid[0][2].state, Unknown);
    assert!(same(&gs, &before));
}

#[test]
fn a_letter_for_a_full_row_is_ignored() {
    let mut gs = game("hello");
    type_word(&mut gs, "world");
    let before = gs.clone();
    gs.add_letter('x');
    assert!(same(&gs, &before));
}

#[test]
fn delete_in_an_empty_row_is_ignored() {
    let mut gs = game("hello");
    let before = gs.clone();
    gs.make_delete();
    assert!(same(&gs, &before));

    type_word(&mut gs, "world");
    gs.make_guess();
    let before = gs.clone();
    assert!(!gs.can_make_delete());
    gs.make_delete();
    assert!(same(&gs, &before));
}

#[test]
fn a_guess_from_a_row_that_is_not_full_is_ignored() {
    let mut gs = game("hello");
    let before = gs.clone();
    gs.make_guess();
    assert!(same(&gs, &before));

    type_word(&mut gs, "worl");
    let before = gs.clone();
    assert!(!gs.can_make_guess());
    gs.make_guess();
    assert!(same(&gs, &before));
}

#[test]
fn the_answer_wins_and_the_cursor_stays() {
    let mut gs = game("hello");
    type_word(&mut gs, "hello");
    gs.make_guess();
    assert!(gs.success);
    assert_eq!(states(&gs, 0), vec![Correct; 5]);
    assert_eq!(letters(&gs, 0), vec![Some('h'), Some('e'), Some('l'), Some('l'), Some('o')]);
    assert_eq!((gs.current_row, gs.current_index), (0, COL_COUNT));
    assert_eq!(gs.phase(), Phase::Won);
    assert!(gs.is_over());
}

#[test]
fn a_miss_scores_the_row_and_moves_to_the_next() {
    let mut gs = game("hello");
    type_word(&mut gs, "world");
    gs.make_guess();
    assert!(!gs.success);
    assert_eq!((gs.current_row, gs.current_index), (1, 0));
    assert_eq!(states(&gs, 0), vec![Incorrect, Misplaced, Incorrect, Correct, Incorrect]);
    assert_eq!(letters(&gs, 0), vec![Some('w'), Some('o'), Some('r'), Some('l'), Some('d')]);
    assert_eq!(states(&gs, 1), vec![Unknown; 5]);
    assert_eq!(letters(&gs, 1), vec![None; 5]);
    assert_eq!(gs.phase(), Phase::Playing);
    assert_eq!(gs.answer, "hello");
}

#[test]
fn the_policy_of_the_game_scores_its_rows() {
    let mut aware = GameState::with_answer("allot", Policy::MultiplicityAware);
    type_word(&mut aware, "llama");
    aware.make_guess();
    assert_eq!(states(&aware, 0), vec![Misplaced, Correct, Misplaced, Incorrect, Incorrect]);

    let mut membership = GameState::with_answer("allot", Policy::MembershipOnly);
    type_word(&mut membership, "llama");
    membership.make_guess();
    assert_eq!(states(&membership, 0), vec![Misplaced, Correct, Misplaced, Incorrect, Misplaced]);
}

#[test]
fn check_answer_scores_without_moving_the_cursor() {
    let mut gs = game("hello");
    type_word(&mut gs, "world");
    gs.check_answer();
    assert!(!gs.success);
    assert_eq!((gs.current_row, gs.current_index), (0, COL_COUNT));
    assert_eq!(states(&gs, 0), vec![Incorrect, Misplaced, Incorrect, Correct, Incorrect]);

    let mut gs = game("hello");
    type_word(&mut gs, "hello");
    gs.check_answer();
    assert!(gs.success);
    assert_eq!(states(&gs, 0), vec![Correct; 5]);
}

#[test]
fn a_won_game_is_locked() {
    let mut gs = game("hello");
    type_word(&mut gs, "world");
    gs.make_guess();
    type_word(&mut gs, "hello");
    gs.make_guess();
    assert!(gs.success);
    assert_eq!((gs.current_row, gs.current_index), (1, COL_COUNT));
    let before = gs.clone();
    gs.add_letter('a');
    assert!(same(&gs, &before));
    gs.make_delete();
    assert!(same(&gs, &before));
    gs.make_guess();
    assert!(same(&gs, &before));
    assert_eq!(gs.handle(Intent::Insert('z')), Outcome::Ignored);
    assert_eq!(gs.handle(Intent::Delete), Outcome::Ignored);
    assert_eq!(gs.handle(Intent::Submit), Outcome::Ignored);
    assert!(same(&gs, &before));
}

#[test]
fn six_misses_lose_and_lock_the_game() {
    let mut gs = game("hello");
    let guesses = ["world", "crane", "doubt", "eagle", "fjord", "glyph"];
    for (row, guess) in guesses.iter().enumerate() {
        assert_eq!(gs.phase(), Phase::Playing);
        assert_eq!((gs.current_row, gs.current_index), (row, 0));
        type_word(&mut gs, guess);
        gs.make_guess();
        assert!(!gs.success);
    }
    assert_eq!((gs.current_row, gs.current_index), (ROW_COUNT, 0));
    assert_eq!(gs.phase(), Phase::Lost);
    assert!(gs.is_over());
    assert!(!gs.can_add_letter());
    assert!(!gs.can_make_delete());
    assert!(!gs.can_make_guess());
    for row in 0..ROW_COUNT {
        assert!(gs.grid[row].iter().all(|t| t.letter.is_some() && t.state != Unknown));
    }
    let before = gs.clone();
    gs.add_letter('a');
    gs.make_delete();
    gs.make_guess();
    assert_eq!(gs.handle(Intent::Insert('z')), Outcome::Ignored);
    assert_eq!(gs.handle(Intent::Delete), Outcome::Ignored);
    assert_eq!(gs.handle(Intent::Submit), Outcome::Ignored);
    assert!(same(&gs, &before));
}

#[test]
fn the_last_row_can_still_win() {
    let mut gs = game("hello");
    for guess in ["world", "crane", "doubt", "eagle", "fjord"] {
        type_word(&mut gs, guess);
        gs.make_guess();
    }
    type_word(&mut gs, "hello");
    gs.make_guess();
    assert!(gs.success);
    assert_eq!((gs.current_row, gs.current_index), (ROW_COUNT - 1, COL_COUNT));
    assert_eq!(gs.phase(), Phase::Won);
}

#[test]
fn the_cursor_never_leaves_the_grid() {
    let mut gs = game("hello");
    let mut step: u32 = 0;
    for round in 0..400u32 {
        step = step.wrapping_mul(1_103_515_245).wrapping_add(12_345 + round);
        match (step >> 16) % 4 {
            0 | 1 => gs.add_letter((b'a' + ((step >> 8) % 26) as u8) as char),
            2 => gs.make_delete(),
            _ => gs.make_guess(),
        }
        assert!(gs.current_index <= COL_COUNT);
        assert!(gs.current_row <= ROW_COUNT);
        assert_eq!(gs.answer, "hello");
    }
}

#[test]
fn handle_reports_what_changed() {
    let mut gs = game("hello");
    assert_eq!(gs.handle(Intent::Delete), Outcome::Ignored);
    assert_eq!(gs.handle(Intent::Submit), Outcome::Ignored);
    assert_eq!(gs.handle(Intent::Insert('w')), Outcome::Typed { row: 0, col: 0, letter: 'w' });
    assert_eq!(gs.handle(Intent::Insert('x')), Outcome::Typed { row: 0, col: 1, letter: 'x' });
    assert_eq!(gs.handle(Intent::Delete), Outcome::Erased { row: 0, col: 1 });
    assert_eq!(gs.grid[0][1].letter, None);
    for c in "orld".chars() {
        gs.handle(Intent::Insert(c));
    }
    assert_eq!(gs.handle(Intent::Insert('q')), Outcome::Ignored);
    assert_eq!(gs.handle(Intent::Submit), Outcome::Scored { row: 0, won: false });
    assert_eq!((gs.current_row, gs.current_index), (1, 0));
    for c in "hello".chars() {
        gs.handle(Intent::Insert(c));
    }
    assert_eq!(gs.handle(Intent::Submit), Outcome::Scored { row: 1, won: true });
    assert!(gs.success);
}

#[test]
fn states_reached_by_play_are_valid() {
    let mut gs = game("hello");
    assert!(gs.is_valid());
    type_word(&mut gs, "wor");
    assert!(gs.is_valid());
    gs.make_delete();
    assert!(gs.is_valid());
    type_word(&mut gs, "rld");
    assert!(gs.is_valid());
    gs.make_guess();
    assert!(gs.is_valid());
    type_word(&mut gs, "hello");
    gs.make_guess();
    assert!(gs.success);
    assert!(gs.is_valid());

    let mut lost = GameState::with_answer("allot", Policy::MembershipOnly);
    for guess in ["world", "crane", "doubt", "eagle", "fjord", "llama"] {
        type_word(&mut lost, guess);
        lost.make_guess();
        assert!(lost.is_valid());
    }
    assert_eq!(lost.phase(), Phase::Lost);
}

#[test]
fn a_cursor_outside_the_grid_is_invalid() {
    let mut gs = game("hello");
    gs.current_index = COL_COUNT + 1;
    assert!(!gs.is_valid());

    let mut gs = game("hello");
    gs.current_row = ROW_COUNT + 1;
    assert!(!gs.is_valid());

    let mut gs = game("hello");
    gs.current_index = 2;
    assert!(!gs.is_valid());

    let mut gs = game("hello");
    gs.current_row = 1;
    assert!(!gs.is_valid());
}

#[test]
fn a_grid_of_another_shape_is_invalid() {
    let mut gs = game("hello");
    gs.grid.pop();
    assert!(!gs.is_valid());

    let mut gs = game("hello");
    gs.grid[3].push(Tile::new());
    assert!(!gs.is_valid());

    let mut gs = game("hello");
    gs.grid[5].clear();
    assert!(!gs.is_valid());
}

#[test]
fn an_answer_of_another_length_is_invalid() {
    let mut gs = game("hello");
    gs.answer = String::from("hell");
    assert!(!gs.is_valid());
    gs.answer = String::from("hellos");
    assert!(!gs.is_valid());
    gs.answer = String::from("world");
    assert!(gs.is_valid());
}

#[test]
fn cells_that_contradict_the_cursor_are_invalid() {
    let mut gs = game("hello");
    type_word(&mut gs, "wo");
    gs.grid[0][3].letter = Some('x');
    assert!(!gs.is_valid());

    let mut gs = game("hello");
    type_word(&mut gs, "wo");
    gs.grid[0][1].letter = None;
    assert!(!gs.is_valid());

    let mut gs = game("hello");
    type_word(&mut gs, "wo");
    gs.grid[0][0].state = Correct;
    assert!(!gs.is_valid());

    let mut gs = game("hello");
    gs.grid[4][4].state = Incorrect;
    assert!(!gs.is_valid());
}

#[test]
fn scores_that_contradict_the_answer_are_invalid() {
    let mut gs = game("hello");
    type_word(&mut gs, "world");
    gs.make_guess();
    assert!(gs.is_valid());
    gs.grid[0][0].state = Misplaced;
    assert!(!gs.is_valid());

    let mut gs = game("allot");
    type_word(&mut gs, "llama");
    gs.make_guess();
    assert!(gs.is_valid());
    gs.policy = Policy::MembershipOnly;
    assert!(!gs.is_valid());

    let mut gs = game("hello");
    type_word(&mut gs, "world");
    gs.make_guess();
    gs.answer = String::from("world");
    assert!(!gs.is_valid());
}

#[test]
fn an_outcome_that_contradicts_the_grid_is_invalid() {
    let mut gs = game("hello");
    gs.success = true;
    assert!(!gs.is_valid());

    let mut gs = game("hello");
    type_word(&mut gs, "world");
    gs.check_answer();
    gs.success = true;
    assert!(!gs.is_valid());

    let mut gs = game("hello");
    type_word(&mut gs, "hello");
    gs.make_guess();
    assert!(gs.is_valid());
    gs.success = false;
    assert!(!gs.is_valid());
}
