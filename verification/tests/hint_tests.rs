use wordle_solver::hint::parse_hints;
use wordle_solver::hint::validate_hints;
use wordle_solver::hint::is_win;
use wordle_solver::hint::Hint;
use wordle_solver::hint::HintError;

#[test]
fn from_byte_dash_is_excluded() {
    assert!(matches!(Hint::from_byte(b'-'), Some(Hint::Excluded)));
}

#[test]
fn from_byte_uppercase_pins_the_lowercase_letter() {
    assert!(matches!(Hint::from_byte(b'A'), Some(Hint::CorrectPos(b'a'))));
    assert!(matches!(Hint::from_byte(b'Z'), Some(Hint::CorrectPos(b'z'))));
}

#[test]
fn from_byte_lowercase_is_wrong_position() {
    assert!(matches!(Hint::from_byte(b'q'), Some(Hint::WrongPos(b'q'))));
}

#[test]
fn from_byte_rejects_other_characters() {
    assert!(Hint::from_byte(b'1').is_none());
    assert!(Hint::from_byte(b'!').is_none());
    assert!(Hint::from_byte(b' ').is_none());
    assert!(Hint::from_byte(b'{').is_none());
}

#[test]
fn parse_accepts_five_valid_characters() {
    let h = parse_hints(&b"-aB-z".to_vec()).unwrap();
    assert_eq!(h.len(), 5);
    assert!(matches!(h[0], Hint::Excluded));
    assert!(matches!(h[1], Hint::WrongPos(b'a')));
    assert!(matches!(h[2], Hint::CorrectPos(b'b')));
    assert!(matches!(h[3], Hint::Excluded));
    assert!(matches!(h[4], Hint::WrongPos(b'z')));
}

#[test]
fn parse_rejects_wrong_length() {
    assert_eq!(parse_hints(&b"----".to_vec()), Err(HintError::InvalidHintFormat));
    assert_eq!(parse_hints(&b"------".to_vec()), Err(HintError::InvalidHintFormat));
    assert_eq!(parse_hints(&b"".to_vec()), Err(HintError::InvalidHintFormat));
}

#[test]
fn parse_rejects_an_invalid_character() {
    assert_eq!(parse_hints(&b"ab1de".to_vec()), Err(HintError::InvalidHintFormat));
}

#[test]
fn validate_accepts_hints_matching_the_guess() {
    let guess = b"crane".to_vec();
    let h = parse_hints(&b"-rAnE".to_vec()).unwrap();
    assert!(validate_hints(&h, &guess).is_ok());
}

#[test]
fn validate_reports_the_first_mismatching_position() {
    let guess = b"crane".to_vec();
    let h = parse_hints(&b"-xAxE".to_vec()).unwrap();
    assert_eq!(validate_hints(&h, &guess), Err(HintError::HintWordMismatch(1)));
    let h2 = parse_hints(&b"Xrane".to_vec()).unwrap();
    assert_eq!(validate_hints(&h2, &guess), Err(HintError::HintWordMismatch(0)));
}

#[test]
fn all_correct_hints_win() {
    let h = parse_hints(&b"CRANE".to_vec()).unwrap();
    assert!(is_win(&h));
    let h2 = parse_hints(&b"CRANe".to_vec()).unwrap();
    assert!(!is_win(&h2));
}
