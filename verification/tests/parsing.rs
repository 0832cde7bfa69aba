use tui_mm::bobbles::{parse_guess, Bobble};

#[test]
fn test_parse_guess_without_spaces() {
    let guess = "RGBPp".into();
    let parsed = parse_guess(guess);
    println!("{:#?}", parsed);
}

#[test]
fn test_parse_guess_with_spaces() {
    let guess = "R G B P p".into();
    let parsed = parse_guess(guess);
    println!("{:#?}", parsed);
}

#[test]
fn both_tokenizations_give_the_same_guess() {
    let expected = vec![
        Bobble::Red,
        Bobble::Green,
        Bobble::Blue,
        Bobble::Purple,
        Bobble::Pink,
    ];
    let packed = parse_guess("RGBPp".into()).unwrap();
    let spaced = parse_guess("R G B P p".into()).unwrap();
    assert_eq!(packed, expected);
    assert_eq!(spaced, expected);
}

#[test]
fn case_mapping_follows_the_table() {
    assert_eq!(
        parse_guess("rgbYw".into()).unwrap(),
        vec![
            Bobble::Red,
            Bobble::Green,
            Bobble::Blue,
            Bobble::Yellow,
            Bobble::White,
        ]
    );
    // P alone is Purple, p alone is Pink.
    assert_eq!(
        parse_guess("PpOoy".into()).unwrap(),
        vec![
            Bobble::Purple,
            Bobble::Pink,
            Bobble::Orange,
            Bobble::Orange,
            Bobble::Yellow,
        ]
    );
}

#[test]
fn invalid_token_reports_the_token() {
    let err = parse_guess("RGBXp".into()).unwrap_err();
    assert_eq!(err.0, "X");
    assert_eq!(
        err.message(),
        "ParsePinError: X is not one of the options."
    );
}

#[test]
fn first_invalid_token_wins() {
    let err = parse_guess("RZBXp".into()).unwrap_err();
    assert_eq!(err.0, "Z");
}

#[test]
fn more_than_five_tokens_are_truncated() {
    let parsed = parse_guess("RGBPpYWO".into()).unwrap();
    assert_eq!(
        parsed,
        vec![
            Bobble::Red,
            Bobble::Green,
            Bobble::Blue,
            Bobble::Purple,
            Bobble::Pink,
        ]
    );
}

#[test]
fn short_and_empty_input_parse() {
    assert_eq!(
        parse_guess("RG".into()).unwrap(),
        vec![Bobble::Red, Bobble::Green]
    );
    assert_eq!(parse_guess("".into()).unwrap(), vec![]);
    assert_eq!(parse_guess("   ".into()).unwrap(), vec![]);
}
