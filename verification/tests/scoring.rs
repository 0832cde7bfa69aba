use tui_mm::app::{score_guess, ScoredGuess, GUESS_LEN};
use tui_mm::bobbles::{make_secret, Bobble};

fn sample_secret() -> Vec<Bobble> {
    vec![
        Bobble::Red,
        Bobble::Green,
        Bobble::Blue,
        Bobble::Purple,
        Bobble::Pink,
    ]
}

#[test]
fn guessing_the_secret_scores_five_exact() {
    let secret = sample_secret();
    let guess = sample_secret();
    assert_eq!(score_guess(&secret, &guess), (5, 0, 0));
}

#[test]
fn partial_guess_scores_exact_and_colour_only() {
    let secret = sample_secret();
    let guess = vec![
        Bobble::Green,
        Bobble::Red,
        Bobble::Blue,
        Bobble::Yellow,
        Bobble::White,
    ];
    // Blue sits in place; Green and Red are present elsewhere.
    assert_eq!(score_guess(&secret, &guess), (1, 2, 2));
}

#[test]
fn marks_partition_the_five_positions() {
    let secret = sample_secret();
    let guesses = [
        sample_secret(),
        vec![
            Bobble::Green,
            Bobble::Red,
            Bobble::Blue,
            Bobble::Yellow,
            Bobble::White,
        ],
        vec![
            Bobble::Orange,
            Bobble::Orange,
            Bobble::Orange,
            Bobble::Orange,
            Bobble::Orange,
        ],
        vec![
            Bobble::Pink,
            Bobble::Purple,
            Bobble::Green,
            Bobble::Blue,
            Bobble::Red,
        ],
    ];
    for guess in guesses {
        let (exact, colour_only, none) = score_guess(&secret, &guess);
        assert!(exact as usize <= GUESS_LEN);
        assert!((colour_only as usize) <= GUESS_LEN - exact as usize);
        assert_eq!(exact as usize + colour_only as usize + none as usize, GUESS_LEN);
    }
}

#[test]
fn scoring_twice_gives_the_same_answer() {
    let secret = sample_secret();
    let guess = vec![
        Bobble::Green,
        Bobble::Red,
        Bobble::Blue,
        Bobble::Yellow,
        Bobble::White,
    ];
    let first = score_guess(&secret, &guess);
    let second = score_guess(&secret, &guess);
    assert_eq!(first, second);
    assert_eq!(secret, sample_secret());
}

#[test]
fn marks_come_exact_first_then_colour_then_blanks() {
    let record = ScoredGuess {
        guess: sample_secret(),
        exact: 1,
        colour_only: 2,
        none: 2,
        turn: 1,
    };
    assert_eq!(record.marks(), vec!['Y', 'y', 'y', '-', '-']);
}

#[test]
fn a_fresh_secret_is_five_distinct_colours() {
    for _ in 0..50 {
        let secret = make_secret();
        assert_eq!(secret.len(), 5);
        for i in 0..5 {
            for j in 0..i {
                assert_ne!(secret[i], secret[j]);
            }
        }
    }
}
