use tui_mm::app::{App, GameState, MAX_TURNS};
use tui_mm::bobbles::Bobble;

fn sample_secret() -> Vec<Bobble> {
    vec![
        Bobble::Red,
        Bobble::Green,
        Bobble::Blue,
        Bobble::Purple,
        Bobble::Pink,
    ]
}

fn type_text(app: &mut App, text: &str) {
    for c in text.chars() {
        app.input_write(c);
    }
}

#[test]
fn a_new_session_starts_clean() {
    let app = App::new();
    assert_eq!(app.turn, 0);
    assert_eq!(app.game_state, GameState::InProgress);
    assert!(app.input().is_empty());
    assert_eq!(app.input_cursor, 0);
    assert!(app.guesses.is_empty());
    assert_eq!(app.secret.len(), 5);
}

#[test]
fn guessing_the_secret_wins() {
    let mut app = App::with_secret(sample_secret());
    type_text(&mut app, "RGBPp");
    let outcome = app.submit_guess();
    assert!(outcome.is_ok());
    assert_eq!(app.game_state, GameState::Win);
    assert_eq!(app.turn, 1);
    assert_eq!(app.guesses.len(), 1);
    assert_eq!(app.guesses[0].exact, 5);
    assert!(app.input.is_empty());
}

#[test]
fn a_partial_guess_is_recorded_and_play_goes_on() {
    let mut app = App::with_secret(sample_secret());
    type_text(&mut app, "GRBYW");
    let outcome = app.submit_guess();
    assert!(outcome.is_ok());
    assert_eq!(app.game_state, GameState::InProgress);
    assert_eq!(app.turn, 1);
    assert_eq!(app.guesses.len(), 1);
    let record = &app.guesses[0];
    assert_eq!(record.exact, 1);
    assert_eq!(record.colour_only, 2);
    assert_eq!(record.none, 2);
    assert_eq!(record.turn, 1);
    assert_eq!(record.marks(), vec!['Y', 'y', 'y', '-', '-']);
}

#[test]
fn submitting_an_empty_buffer_changes_nothing() {
    let mut app = App::with_secret(sample_secret());
    let outcome = app.submit_guess();
    assert!(outcome.is_ok());
    assert_eq!(app.turn, 0);
    assert!(app.guesses.is_empty());
    assert_eq!(app.game_state, GameState::InProgress);
}

#[test]
fn an_incomplete_guess_keeps_the_buffer_for_editing() {
    let mut app = App::with_secret(sample_secret());
    type_text(&mut app, "RGB");
    let outcome = app.submit_guess();
    assert!(outcome.is_ok());
    assert_eq!(app.turn, 0);
    assert!(app.guesses.is_empty());
    assert_eq!(app.input, vec!['R', 'G', 'B']);
    assert_eq!(app.game_state, GameState::InProgress);
}

#[test]
fn an_invalid_token_leaves_the_session_unchanged() {
    let mut app = App::with_secret(sample_secret());
    type_text(&mut app, "RGBXp");
    let err = app.submit_guess().unwrap_err();
    assert_eq!(err.0, "X");
    assert_eq!(app.turn, 0);
    assert!(app.guesses.is_empty());
    assert_eq!(app.input, vec!['R', 'G', 'B', 'X', 'p']);
    assert_eq!(app.game_state, GameState::InProgress);
}

#[test]
fn the_turn_budget_ends_in_a_loss() {
    let mut app = App::with_secret(sample_secret());
    for turn in 1..=MAX_TURNS {
        type_text(&mut app, "OOOOO");
        assert!(app.submit_guess().is_ok());
        assert_eq!(app.turn, turn);
        assert_eq!(app.guesses.len(), turn as usize);
        if turn < MAX_TURNS {
            assert_eq!(app.game_state, GameState::InProgress);
        }
    }
    assert_eq!(app.game_state, GameState::Loss);
    // The session is frozen: another submission is a no-op.
    type_text(&mut app, "RGBPp");
    assert!(app.submit_guess().is_ok());
    assert_eq!(app.turn, MAX_TURNS);
    assert_eq!(app.guesses.len(), MAX_TURNS as usize);
    assert_eq!(app.game_state, GameState::Loss);
}

#[test]
fn editing_is_frozen_after_a_win() {
    let mut app = App::with_secret(sample_secret());
    type_text(&mut app, "RGBPp");
    assert!(app.submit_guess().is_ok());
    assert_eq!(app.game_state, GameState::Win);
    app.input_write('R');
    app.store('G');
    app.left();
    app.right();
    app.input_remove();
    app.input_remove_previous();
    assert!(app.input.is_empty());
    assert_eq!(app.input_cursor, 0);
    assert_eq!(app.turn, 1);
}

#[test]
fn the_cursor_stays_within_the_buffer() {
    let mut app = App::with_secret(sample_secret());
    assert!(app.input_cursor <= app.input.len());
    app.left();
    assert_eq!(app.input_cursor, 0);
    app.input_remove_previous();
    assert_eq!(app.input, vec![]);
    type_text(&mut app, "RGB");
    assert_eq!(app.input_cursor, 3);
    app.right();
    assert_eq!(app.input_cursor, 3);
    app.left();
    app.left();
    assert_eq!(app.input_cursor, 1);
    app.input_write('p');
    assert_eq!(app.input, vec!['R', 'p', 'G', 'B']);
    assert_eq!(app.input_cursor, 2);
    app.input_remove();
    assert_eq!(app.input, vec!['R', 'p', 'B']);
    assert_eq!(app.input_cursor, 2);
    app.input_remove_previous();
    assert_eq!(app.input, vec!['R', 'B']);
    assert_eq!(app.input_cursor, 1);
    app.store('W');
    assert_eq!(app.input, vec!['R', 'B', 'W']);
    assert_eq!(app.input_cursor, 1);
    assert!(app.input_cursor <= app.input.len());
}
