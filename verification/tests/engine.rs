use wordle::error::InputError;
use wordle::dict::Dictionary;
use wordle::world::{CharacterState, Item, World, LENGTH};

fn dict() -> Dictionary {
    let words: Vec<String> = vec![
        "crate".to_owned(),
        "trace".to_owned(),
        "sorry".to_owned(),
        "sassy".to_owned(),
        "hello".to_owned(),
        "world".to_owned(),
    ];
    Dictionary::new(words)
}

fn qwerty() -> String {
    "qwertyuiopasdfghjklzxcvbnm".to_owned()
}

fn type_word(w: &mut World, s: &str) {
    for c in s.chars() {
        w.input_char(c);
    }
}

fn row_states(w: &World, row: usize) -> Vec<CharacterState> {
    w.grid[row].iter().map(|it| it.state).collect()
}

fn row_string(w: &World, row: usize) -> String {
    w.grid[row].iter().map(|it| it.inner).collect()
}

fn keyboard_state(w: &World, c: char) -> CharacterState {
    let item = w
        .characters
        .iter()
        .find(|it| it.inner == c)
        .expect("letter not on the keyboard");
    item.state
}

#[test]
fn new_game_is_empty() {
    let w = World::new("crate".to_owned(), qwerty());
    assert_eq!(w.cursor, (0, 0));
    assert_eq!(w.result, vec!['c', 'r', 'a', 't', 'e']);
    assert_eq!(w.grid.len(), LENGTH);
    for row in &w.grid {
        assert_eq!(row.len(), LENGTH);
        for cell in row {
            assert_eq!(cell.inner, ' ');
            assert_eq!(cell.state, CharacterState::Untouch);
        }
    }
    assert_eq!(w.characters.len(), 26);
    for (i, c) in "qwertyuiopasdfghjklzxcvbnm".chars().enumerate() {
        assert_eq!(w.characters[i].inner, c);
        assert_eq!(w.characters[i].state, CharacterState::Untouch);
    }
}

#[test]
fn typing_fills_the_row_in_order() {
    let mut w = World::new("crate".to_owned(), qwerty());
    w.input_char('c');
    // The first letter lands in place; the cursor only advances on the next one.
    assert_eq!(w.cursor, (0, 0));
    assert_eq!(w.grid[0][0], Item { inner: 'c', state: CharacterState::Buffer });
    type_word(&mut w, "rate");
    assert_eq!(w.cursor, (0, 4));
    assert_eq!(row_string(&w, 0), "crate");
    for cell in &w.grid[0] {
        assert_eq!(cell.state, CharacterState::Buffer);
    }
}

#[test]
fn typing_past_the_last_column_overwrites_in_place() {
    let mut w = World::new("crate".to_owned(), qwerty());
    type_word(&mut w, "crate");
    assert_eq!(w.cursor, (0, 4));
    // The row is full: another letter replaces the last cell, the cursor
    // column stays inside [0, LENGTH).
    w.input_char('x');
    assert_eq!(w.cursor, (0, 4));
    assert!(w.cursor.1 < LENGTH);
    assert_eq!(row_string(&w, 0), "cratx");
}

#[test]
fn delete_at_column_zero_does_not_underflow() {
    let mut w = World::new("crate".to_owned(), qwerty());
    w.input_char('c');
    assert_eq!(w.cursor, (0, 0));
    w.delete_char();
    // The cell is cleared but the cursor stays at column zero.
    assert_eq!(w.cursor, (0, 0));
    assert_eq!(w.grid[0][0], Item { inner: ' ', state: CharacterState::Untouch });
    // Deleting again on the empty cell is harmless.
    w.delete_char();
    assert_eq!(w.cursor, (0, 0));
    assert_eq!(w.grid[0][0].state, CharacterState::Untouch);
}

#[test]
fn delete_steps_back_one_column() {
    let mut w = World::new("crate".to_owned(), qwerty());
    type_word(&mut w, "cra");
    assert_eq!(w.cursor, (0, 2));
    w.delete_char();
    assert_eq!(w.cursor, (0, 1));
    assert_eq!(w.grid[0][2].state, CharacterState::Untouch);
    assert_eq!(w.grid[0][1].state, CharacterState::Buffer);
}

#[test]
fn submit_partial_row_fails_and_changes_nothing() {
    let d = dict();
    let mut w = World::new("crate".to_owned(), qwerty());
    type_word(&mut w, "cra");
    let cursor_before = w.cursor;
    let row_before = w.grid[0].clone();
    let r = w.enter(&d);
    assert_eq!(r, Err(InputError::NotEnoughLetters));
    assert_eq!(w.cursor, cursor_before);
    assert_eq!(w.grid[0], row_before);
    for it in &w.characters {
        assert_eq!(it.state, CharacterState::Untouch);
    }
}

#[test]
fn submit_unknown_word_fails_and_changes_nothing() {
    let d = dict();
    let mut w = World::new("crate".to_owned(), qwerty());
    type_word(&mut w, "zzzzz");
    let cursor_before = w.cursor;
    let row_before = w.grid[0].clone();
    let r = w.enter(&d);
    assert_eq!(r, Err(InputError::NotInWordList));
    assert_eq!(w.cursor, cursor_before);
    assert_eq!(w.grid[0], row_before);
    assert_eq!(row_string(&w, 0), "zzzzz");
    for cell in &w.grid[0] {
        assert_eq!(cell.state, CharacterState::Buffer);
    }
}

#[test]
fn exact_guess_scores_all_right() {
    let d = dict();
    let mut w = World::new("crate".to_owned(), qwerty());
    type_word(&mut w, "crate");
    let r = w.enter(&d);
    assert_eq!(r, Ok("crate".to_owned()));
    assert_eq!(w.cursor, (1, 0));
    assert_eq!(
        row_states(&w, 0),
        vec![CharacterState::Right; 5]
    );
    for c in "crate".chars() {
        assert_eq!(keyboard_state(&w, c), CharacterState::Right);
    }
}

#[test]
fn membership_scoring_per_position() {
    let d = dict();
    let mut w = World::new("crate".to_owned(), qwerty());
    type_word(&mut w, "trace");
    let r = w.enter(&d);
    assert_eq!(r, Ok("trace".to_owned()));
    // t: in the secret, elsewhere; r: exact; a: exact; c: elsewhere; e: exact.
    assert_eq!(
        row_states(&w, 0),
        vec![
            CharacterState::WrongPos,
            CharacterState::Right,
            CharacterState::Right,
            CharacterState::WrongPos,
            CharacterState::Right,
        ]
    );
    assert_eq!(keyboard_state(&w, 't'), CharacterState::WrongPos);
    assert_eq!(keyboard_state(&w, 'r'), CharacterState::Right);
    assert_eq!(keyboard_state(&w, 'c'), CharacterState::WrongPos);
    assert_eq!(keyboard_state(&w, 'q'), CharacterState::Untouch);
}

#[test]
fn duplicate_letters_score_by_membership_not_count() {
    let d = dict();
    let mut w = World::new("sorry".to_owned(), qwerty());
    type_word(&mut w, "sassy");
    let r = w.enter(&d);
    assert_eq!(r, Ok("sassy".to_owned()));
    // Both extra `s` occurrences stay non-absent: the scoring checks
    // membership only, it does not consume letter counts.
    assert_eq!(
        row_states(&w, 0),
        vec![
            CharacterState::Right,
            CharacterState::Wrong,
            CharacterState::WrongPos,
            CharacterState::WrongPos,
            CharacterState::Right,
        ]
    );
}

#[test]
fn keyboard_entry_never_downgrades_from_right() {
    let d = dict();
    let mut w = World::new("crate".to_owned(), qwerty());
    type_word(&mut w, "trace");
    assert!(w.enter(&d).is_ok());
    assert_eq!(keyboard_state(&w, 'r'), CharacterState::Right);
    // "sorry" scores its two `r`s as WrongPos; the keyboard keeps Right.
    type_word(&mut w, "sorry");
    assert!(w.enter(&d).is_ok());
    assert_eq!(keyboard_state(&w, 'r'), CharacterState::Right);
    assert_eq!(keyboard_state(&w, 's'), CharacterState::Wrong);
    assert_eq!(keyboard_state(&w, 'o'), CharacterState::Wrong);
    assert_eq!(keyboard_state(&w, 'y'), CharacterState::Wrong);
}

#[test]
fn wrongpos_can_upgrade_to_right() {
    let d = dict();
    let mut w = World::new("crate".to_owned(), qwerty());
    type_word(&mut w, "trace");
    assert!(w.enter(&d).is_ok());
    assert_eq!(keyboard_state(&w, 't'), CharacterState::WrongPos);
    type_word(&mut w, "crate");
    assert!(w.enter(&d).is_ok());
    assert_eq!(keyboard_state(&w, 't'), CharacterState::Right);
}

#[test]
fn reset_clears_everything_and_draws_from_dictionary() {
    let d = dict();
    let mut w = World::new("crate".to_owned(), qwerty());
    type_word(&mut w, "trace");
    assert!(w.enter(&d).is_ok());
    w.reset(&d);
    assert_eq!(w.cursor, (0, 0));
    for row in &w.grid {
        for cell in row {
            assert_eq!(cell.inner, ' ');
            assert_eq!(cell.state, CharacterState::Untouch);
        }
    }
    for (i, c) in "qwertyuiopasdfghjklzxcvbnm".chars().enumerate() {
        assert_eq!(w.characters[i].inner, c);
        assert_eq!(w.characters[i].state, CharacterState::Untouch);
    }
    let secret: String = w.result.iter().collect();
    assert_eq!(secret.len(), LENGTH);
    assert!(d.contains(&secret));
}

#[test]
fn cursor_row_advances_once_per_successful_guess() {
    let d = dict();
    let mut w = World::new("crate".to_owned(), qwerty());
    for round in 0..LENGTH {
        assert_eq!(w.cursor, (round, 0));
        type_word(&mut w, "trace");
        assert!(w.enter(&d).is_ok());
    }
    // Every attempt is used up: the caller must stop forwarding input.
    assert_eq!(w.cursor, (LENGTH, 0));
}

#[test]
fn check_input_validates_without_mutating() {
    let d = dict();
    let mut w = World::new("crate".to_owned(), qwerty());
    assert_eq!(w.check_input(&d), Err(InputError::NotEnoughLetters));
    type_word(&mut w, "trace");
    assert_eq!(w.check_input(&d), Ok("trace".to_owned()));
    assert_eq!(w.cursor, (0, 4));
    for cell in &w.grid[0] {
        assert_eq!(cell.state, CharacterState::Buffer);
    }
}

#[test]
fn error_messages_are_displayable() {
    assert_eq!(InputError::NotEnoughLetters.message(), "Not enough letters");
    assert_eq!(InputError::NotInWordList.message(), "Not in word list");
}
