use wordle_solver::game::Game;
use wordle_solver::game::Phase;
use wordle_solver::game::RoundOutcome;
use wordle_solver::hint::parse_hints;
use wordle_solver::words::Words;

fn game_dict(entries: &[&str]) -> Vec<Vec<u8>> {
    entries.iter().map(|w| w.as_bytes().to_vec()).collect()
}

#[test]
fn all_correct_feedback_wins_the_game() {
    let mut g = Game::new(Words::new(game_dict(&["crane", "slate"])));
    g.start(b"crane".to_vec());
    let hints = parse_hints(&b"CRANE".to_vec()).unwrap();
    let out = g.apply_round(&hints);
    assert_eq!(out, RoundOutcome::Won);
    assert_eq!(g.phase, Phase::Won);
}

#[test]
fn feedback_admitting_no_word_exhausts_the_game() {
    let mut g = Game::new(Words::new(game_dict(&["crane"])));
    g.start(b"crane".to_vec());
    // 'c' excluded and no other pin: "crane" itself falls out, nothing is left.
    let hints = parse_hints(&b"-RANE".to_vec()).unwrap();
    let out = g.apply_round(&hints);
    assert_eq!(out, RoundOutcome::Exhausted);
    assert_eq!(g.phase, Phase::LostExhausted);
    assert!(g.cands.is_empty());
}

#[test]
fn six_unsuccessful_rounds_exceed_the_limit() {
    let mut g = Game::new(Words::new(game_dict(&["bbbbb", "ccccc"])));
    g.start(b"bbbbb".to_vec());
    let hints = parse_hints(&b"bbbbb".to_vec()).unwrap();
    for round in 1..6 {
        assert_eq!(g.round, round);
        let out = g.apply_round(&hints);
        assert_eq!(out, RoundOutcome::Continue);
        assert_eq!(g.phase, Phase::ChoosingNext);
        g.choose_guess(b"bbbbb".to_vec());
    }
    assert_eq!(g.round, 6);
    let out = g.apply_round(&hints);
    assert_eq!(out, RoundOutcome::RoundsExceeded);
    assert_eq!(g.phase, Phase::LostRoundsExceeded);
}

#[test]
fn excluded_letters_accumulate_across_rounds() {
    let mut g = Game::new(Words::new(game_dict(&["abbbb", "cbbbb", "dbbbb"])));
    g.start(b"abbbb".to_vec());
    let hints = parse_hints(&b"-BBBB".to_vec()).unwrap();
    let out = g.apply_round(&hints);
    assert_eq!(out, RoundOutcome::Continue);
    assert_eq!(g.excluded, vec![b'a']);
    assert_eq!(g.cands, vec![b"cbbbb".to_vec(), b"dbbbb".to_vec()]);
    g.choose_guess(b"cbbbb".to_vec());
    let out = g.apply_round(&hints);
    assert_eq!(out, RoundOutcome::Continue);
    assert_eq!(g.excluded, vec![b'a', b'c']);
    assert_eq!(g.cands, vec![b"dbbbb".to_vec()]);
}

#[test]
fn rejecting_every_candidate_ends_exhausted() {
    let mut g = Game::new(Words::new(game_dict(&["bbbbb", "ccccc"])));
    g.start(b"bbbbb".to_vec());
    let hints = parse_hints(&b"bbbbb".to_vec()).unwrap();
    let out = g.apply_round(&hints);
    assert_eq!(out, RoundOutcome::Continue);
    g.no_candidate_accepted();
    assert_eq!(g.phase, Phase::LostExhausted);
}

#[test]
fn a_fresh_game_awaits_its_first_guess() {
    let g = Game::new(Words::new(game_dict(&["crane"])));
    assert_eq!(g.phase, Phase::AwaitingFirstGuess);
    assert_eq!(g.round, 0);
    assert!(g.excluded.is_empty());
}
