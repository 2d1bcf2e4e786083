//! The rules of the game as a state machine on mathematical values.
//!
//! A game is in progress until a guess equals the secret word or the allowed
//! number of guesses is used up; from then on it is over and takes no guess.

use vstd::prelude::*;
use crate::knowledge::{
    absorb, all_verdicts, lemma_absorb_keeps_alphabet, lemma_absorb_never_downgrades,
    nothing_known,
};
use crate::scoring::{all_right, score};
use crate::verdict::CharStatus;

verus! {

/// One scored guess.
pub struct Round {
    /// The guess, in upper case.
    pub letters: Seq<char>,
    /// The verdict on each of its letters.
    pub verdicts: Seq<CharStatus>,
}

/// The state of a game.
pub struct GameModel {
    /// The word to be guessed, in upper case.
    pub secret: Seq<char>,
    /// How many guesses may be scored.
    pub max_guesses: nat,
    /// The guesses scored so far, oldest first.
    pub rounds: Seq<Round>,
    /// What the rounds have shown about each letter of the alphabet.
    pub known: Map<char, CharStatus>,
}

/// What becomes of a guess.
pub enum Outcome {
    /// Rejected: the game was over already.
    GameOver,
    /// Rejected: the guess has not as many letters as the secret word.
    WrongLength,
    /// Rejected: the guess is no word of the dictionary.
    UnknownWord,
    /// Scored, and it is the secret word.
    Won,
    /// Scored, it is not the secret word, and no guess is left.
    Lost,
    /// Scored, and the game goes on.
    Continue,
}

/// What the first `n` rounds show about the letters of an alphabet: nothing
/// before the first round, and after each round what its verdicts add.
pub open spec fn known_after(alphabet: Seq<char>, rounds: Seq<Round>, n: int) -> Map<
    char,
    CharStatus,
>
    decreases n,
{
    if n <= 0 {
        nothing_known(alphabet)
    } else {
        absorb(
            known_after(alphabet, rounds, n - 1),
            rounds[n - 1].letters,
            rounds[n - 1].verdicts,
            rounds[n - 1].letters.len() as int,
        )
    }
}

impl Outcome {
    /// Whether the guess was turned away without being scored.
    pub open spec fn is_rejection(self) -> bool {
        self == Outcome::GameOver || self == Outcome::WrongLength || self == Outcome::UnknownWord
    }
}

impl GameModel {
    /// A new game: nothing guessed, nothing known.
    pub open spec fn start(secret: Seq<char>, max_guesses: nat, alphabet: Seq<char>) -> GameModel {
        GameModel {
            secret,
            max_guesses,
            rounds: Seq::empty(),
            known: nothing_known(alphabet),
        }
    }

    /// Whether the state is one that a game over `alphabet` can be in: no more
    /// rounds than attempts, every round a guess of the secret's length with
    /// its score, no round after a winning one, and known of each letter what
    /// the rounds have shown.
    pub open spec fn consistent(self, alphabet: Seq<char>) -> bool {
        &&& self.rounds.len() <= self.max_guesses
        &&& forall|i: int|
            0 <= i < self.rounds.len() ==> {
                &&& (#[trigger] self.rounds[i]).letters.len() == self.secret.len()
                &&& self.rounds[i].verdicts == score(self.secret, self.rounds[i].letters)
                &&& i < self.rounds.len() - 1 ==> !all_right(self.rounds[i].verdicts)
            }
        &&& self.known == known_after(alphabet, self.rounds, self.rounds.len() as int)
    }

    /// How many guesses have been scored.
    pub open spec fn attempts_used(self) -> nat {
        self.rounds.len()
    }

    /// Whether the last scored guess was the secret word.
    pub open spec fn won(self) -> bool {
        self.rounds.len() > 0 && all_right(self.rounds.last().verdicts)
    }

    /// Whether the game has ended, won or with no guess left.
    pub open spec fn over(self) -> bool {
        self.won() || self.rounds.len() >= self.max_guesses
    }

    /// What becomes of `guess`, a text in upper case, where `is_word` tells
    /// whether the dictionary holds it. The first check that fails decides.
    pub open spec fn outcome(self, guess: Seq<char>, is_word: bool) -> Outcome {
        if self.over() {
            Outcome::GameOver
        } else if guess.len() != self.secret.len() {
            Outcome::WrongLength
        } else if !is_word {
            Outcome::UnknownWord
        } else if all_right(score(self.secret, guess)) {
            Outcome::Won
        } else if self.rounds.len() + 1 == self.max_guesses {
            Outcome::Lost
        } else {
            Outcome::Continue
        }
    }

    /// The state after `guess`: unchanged where the guess is rejected, else
    /// with one more round and with its verdicts merged into what is known.
    pub open spec fn after(self, guess: Seq<char>, is_word: bool) -> GameModel {
        if self.outcome(guess, is_word).is_rejection() {
            self
        } else {
            let verdicts = score(self.secret, guess);
            GameModel {
                secret: self.secret,
                max_guesses: self.max_guesses,
                rounds: self.rounds.push(Round { letters: guess, verdicts }),
                known: absorb(self.known, guess, verdicts, guess.len() as int),
            }
        }
    }
}

/// A guess of the secret's length is scored all `RightPosition` exactly when
/// it is the secret word.
pub proof fn lemma_all_right_means_equal(secret: Seq<char>, guess: Seq<char>)
    requires
        secret.len() == guess.len(),
    ensures
        all_right(score(secret, guess)) <==> guess == secret,
{
    let verdicts = score(secret, guess);
    if all_right(verdicts) {
        assert forall|i: int| 0 <= i < guess.len() implies guess[i] == secret[i] by {
            assert(verdicts[i] == CharStatus::RightPosition);
        }
        assert(guess =~= secret);
    }
}

/// No scored guess holds `NotUsed`.
pub proof fn lemma_score_gives_verdicts(secret: Seq<char>, guess: Seq<char>)
    ensures
        all_verdicts(score(secret, guess)),
        score(secret, guess).len() == guess.len(),
{
}

/// Attempts are spent by scored guesses only: a rejected guess leaves the
/// whole state as it was, and a scored guess adds exactly one round.
pub proof fn lemma_attempt_accounting(game: GameModel, guess: Seq<char>, is_word: bool)
    ensures
        game.outcome(guess, is_word).is_rejection() ==> game.after(guess, is_word) == game,
        !game.outcome(guess, is_word).is_rejection() ==> game.after(guess, is_word).attempts_used()
            == game.attempts_used() + 1,
        (guess.len() != game.secret.len() || !is_word) ==> game.after(
            guess,
            is_word,
        ).attempts_used() == game.attempts_used(),
{
}

/// A scored guess that is the secret word wins, however many guesses are
/// left; a scored guess that is not, and that uses up the last attempt, loses.
/// Either way the game is over afterwards, and it is over after nothing else.
pub proof fn lemma_how_games_end(game: GameModel, guess: Seq<char>, is_word: bool)
    requires
        !game.over(),
        guess.len() == game.secret.len(),
        is_word,
    ensures
        guess == game.secret <==> game.outcome(guess, is_word) == Outcome::Won,
        guess != game.secret && game.attempts_used() + 1 == game.max_guesses <==> game.outcome(
            guess,
            is_word,
        ) == Outcome::Lost,
        game.after(guess, is_word).over() <==> game.outcome(guess, is_word) != Outcome::Continue,
{
    lemma_all_right_means_equal(game.secret, guess);
    let next = game.after(guess, is_word);
    assert(next.rounds.last().verdicts == score(game.secret, guess));
}

/// A game that is over rejects every guess as `GameOver` and stays exactly
/// as it is, so it is still over afterwards.
pub proof fn lemma_over_is_final(game: GameModel, guess: Seq<char>, is_word: bool)
    requires
        game.over(),
    ensures
        game.outcome(guess, is_word) == Outcome::GameOver,
        game.after(guess, is_word) == game,
        game.after(guess, is_word).over(),
{
}

/// Whatever becomes of a guess, the letters that are kept stay the same and
/// the status of none of them becomes less informative.
pub proof fn lemma_knowledge_never_downgrades(
    game: GameModel,
    guess: Seq<char>,
    is_word: bool,
    c: char,
)
    ensures
        game.after(guess, is_word).known.contains_key(c) == game.known.contains_key(c),
        game.known.contains_key(c) ==> game.after(guess, is_word).known[c].rank()
            >= game.known[c].rank(),
        game.known.contains_key(c) && game.known[c] == CharStatus::RightPosition ==> game.after(
            guess,
            is_word,
        ).known[c] == CharStatus::RightPosition,
{
    if !game.outcome(guess, is_word).is_rejection() {
        lemma_score_gives_verdicts(game.secret, guess);
        lemma_absorb_never_downgrades(
            game.known,
            guess,
            score(game.secret, guess),
            guess.len() as int,
            c,
        );
    }
}

/// What the first rounds show does not depend on the rounds after them.
proof fn lemma_known_after_prefix(alphabet: Seq<char>, rounds: Seq<Round>, next: Round, n: int)
    requires
        0 <= n <= rounds.len(),
    ensures
        known_after(alphabet, rounds.push(next), n) == known_after(alphabet, rounds, n),
    decreases n,
{
    if n > 0 {
        lemma_known_after_prefix(alphabet, rounds, next, n - 1);
        assert(rounds.push(next)[n - 1] == rounds[n - 1]);
    }
}

/// The rounds of a game add no letter to those of the alphabet and drop none.
pub proof fn lemma_known_after_keeps_alphabet(
    alphabet: Seq<char>,
    rounds: Seq<Round>,
    n: int,
    c: char,
)
    ensures
        known_after(alphabet, rounds, n).contains_key(c) <==> alphabet.contains(c),
    decreases n,
{
    if n > 0 {
        lemma_known_after_keeps_alphabet(alphabet, rounds, n - 1, c);
        lemma_absorb_keeps_alphabet(
            known_after(alphabet, rounds, n - 1),
            rounds[n - 1].letters,
            rounds[n - 1].verdicts,
            rounds[n - 1].letters.len() as int,
            c,
        );
    }
}

/// A new game is in a consistent state.
pub proof fn lemma_start_is_consistent(secret: Seq<char>, max_guesses: nat, alphabet: Seq<char>)
    ensures
        GameModel::start(secret, max_guesses, alphabet).consistent(alphabet),
{
}

/// Whatever is guessed, a consistent state is followed by a consistent state:
/// the game never holds more rounds than attempts, every round is a guess of
/// the secret's length with its score, and what is known of a letter is what
/// the rounds have shown.
pub proof fn lemma_after_stays_consistent(
    game: GameModel,
    alphabet: Seq<char>,
    guess: Seq<char>,
    is_word: bool,
)
    requires
        game.consistent(alphabet),
    ensures
        game.after(guess, is_word).consistent(alphabet),
{
    if !game.outcome(guess, is_word).is_rejection() {
        let next = game.after(guess, is_word);
        let round = Round { letters: guess, verdicts: score(game.secret, guess) };
        let n = game.rounds.len() as int;
        assert(next.rounds == game.rounds.push(round));
        lemma_known_after_prefix(alphabet, game.rounds, round, n);
        assert(next.rounds[n] == round);
        assert forall|i: int| 0 <= i < next.rounds.len() implies {
            &&& (#[trigger] next.rounds[i]).letters.len() == next.secret.len()
            &&& next.rounds[i].verdicts == score(next.secret, next.rounds[i].letters)
            &&& i < next.rounds.len() - 1 ==> !all_right(next.rounds[i].verdicts)
        } by {
            if i < n {
                assert(next.rounds[i] == game.rounds[i]);
                if i == n - 1 {
                    assert(game.rounds.last() == game.rounds[i]);
                }
            }
        }
    }
}

/// In a consistent state a status is kept for the letters of the alphabet
/// and for no others.
pub proof fn lemma_consistent_knows_alphabet(game: GameModel, alphabet: Seq<char>, c: char)
    requires
        game.consistent(alphabet),
    ensures
        game.known.contains_key(c) <==> alphabet.contains(c),
{
    lemma_known_after_keeps_alphabet(alphabet, game.rounds, game.rounds.len() as int, c);
}

} // verus!
