use wordle::{CharAndStatus, CharStatus, Dictionary, GameStatus, GuessResult, WordleGameImpl};

fn verdicts(secret: &str, guess: &str) -> Vec<CharStatus> {
    let result = WordleGameImpl::<dyn Dictionary>::guess_result(secret, guess);
    let letters: String = result.chars_result.iter().map(|cs| cs.0).collect();
    assert_eq!(guess, letters);
    result.chars_result.iter().map(|cs| cs.1).collect()
}

const N: CharStatus = CharStatus::NotInWord;
const W: CharStatus = CharStatus::WrongPosition;
const R: CharStatus = CharStatus::RightPosition;

#[test]
fn scores_a_guess_without_repeated_letters() {
    assert_eq!(vec![W, W, R, W, N], verdicts("CRANE", "REACT"));
    assert_eq!(vec![N, N, W, R, N], verdicts("SOUND", "WRONG"));
    assert_eq!(vec![N, N, N, N, N], verdicts("SOUND", "BRICK"));
}

#[test]
fn scores_the_secret_word_all_right() {
    assert_eq!(vec![R, R, R, R, R], verdicts("SOUND", "SOUND"));
    assert_eq!(vec![R, R, R, R, R], verdicts("LLAMA", "LLAMA"));
}

#[test]
fn credits_a_letter_no_more_often_than_the_secret_holds_it() {
    // One O in the secret: the O in its place is credited, the other is not.
    assert_eq!(vec![N, R, N, W, N], verdicts("SOUND", "BOOST"));
    // Neither O is in its place: the first is credited.
    assert_eq!(vec![N, N, W, N, N], verdicts("SOUND", "GROOT"));
    // Two L and one A in the secret, two L and two A in the guess.
    assert_eq!(vec![W, R, W, N, N], verdicts("ALLOY", "LLAMA"));
    // Three E in the guess, two in the secret, the last in its place.
    assert_eq!(vec![W, N, W, N, R], verdicts("WHERE", "EERIE"));
}

#[test]
fn an_exact_match_is_credited_before_an_earlier_occurrence() {
    // The only A of the secret is matched at the end, so the first A is not in the word.
    assert_eq!(vec![N, N, N, N, R], verdicts("EXTRA", "ABBBA"));
    assert_eq!(vec![N, R, N], verdicts("BAB", "AAA"));
}

#[test]
fn scores_the_empty_guess() {
    assert_eq!(Vec::<CharStatus>::new(), verdicts("", ""));
    let result = WordleGameImpl::guess_result("", "");
    assert!(result.is_won());
}

#[test]
fn scores_letters_by_their_number_in_letters_not_in_bytes() {
    assert_eq!(vec![R, W, N, W, R], verdicts("ÑANDÚ", "ÑDXAÚ"));
}

#[test]
fn is_won_wants_every_letter_in_its_place() {
    let won = GuessResult {
        chars_result: vec![CharAndStatus('A', R), CharAndStatus('B', R)],
    };
    assert!(won.is_won());
    let not_won = GuessResult {
        chars_result: vec![CharAndStatus('A', R), CharAndStatus('B', W)],
    };
    assert!(!not_won.is_won());
    let not_won_first = GuessResult {
        chars_result: vec![CharAndStatus('A', N), CharAndStatus('B', R)],
    };
    assert!(!not_won_first.is_won());
}

#[test]
fn a_new_game_has_no_guesses() {
    let status = GameStatus::new_game();
    assert!(status.guesses.is_empty());
}

#[test]
fn merges_a_verdict_into_a_status() {
    let u = CharStatus::NotUsed;
    assert_eq!(N, u.merge(N));
    assert_eq!(W, u.merge(W));
    assert_eq!(R, u.merge(R));
    assert_eq!(N, N.merge(N));
    assert_eq!(W, N.merge(W));
    assert_eq!(R, N.merge(R));
    assert_eq!(W, W.merge(N));
    assert_eq!(W, W.merge(W));
    assert_eq!(R, W.merge(R));
    assert_eq!(R, R.merge(N));
    assert_eq!(R, R.merge(W));
    assert_eq!(R, R.merge(R));
}
