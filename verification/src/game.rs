//! The game: a secret word, the guesses made so far, and what they have shown
//! about each letter.

use vstd::prelude::*;
use vstd::string::StrSliceExecFns;
use std::collections::HashMap;
use crate::dictionary::{ConfigurationError, Dictionary};
use crate::knowledge::{absorb, learn, nothing_known, status_of};
use crate::rules::{
    lemma_after_stays_consistent, lemma_knowledge_never_downgrades, lemma_start_is_consistent,
    GameModel, Outcome, Round,
};
use crate::scoring::{
    all_right, lemma_matched_bounds, lemma_occurrences_bounds, lemma_occurrences_split, matched,
    occurrences, score, surplus, verdict_at,
};
use crate::text::{code, code_of, lemma_code_injective, letter_at, letters, uppercase, uppercase_of};
use crate::verdict::{CharAndStatus, CharStatus};

verus! {

/// One scored guess: each of its letters with the verdict on it.
pub struct GuessResult {
    pub chars_result: Vec<CharAndStatus>,
}

impl GuessResult {
    /// The letters of the guess.
    pub open spec fn letters(&self) -> Seq<char> {
        Seq::new(self.chars_result@.len(), |i: int| self.chars_result@[i].0)
    }

    /// The verdicts on the letters of the guess.
    pub open spec fn verdicts(&self) -> Seq<CharStatus> {
        Seq::new(self.chars_result@.len(), |i: int| self.chars_result@[i].1)
    }

    /// Whether the guess was the secret word: every letter at its position.
    pub fn is_won(&self) -> (won: bool)
        ensures
            won == all_right(self.verdicts()),
    {
        let mut pos: usize = 0;
        while pos < self.chars_result.len()
            invariant
                pos <= self.chars_result.len(),
                forall|i: int|
                    0 <= i < pos ==> (#[trigger] self.chars_result@[i]).1
                        == CharStatus::RightPosition,
            decreases self.chars_result.len() - pos,
        {
            if self.chars_result[pos].1 != CharStatus::RightPosition {
                assert(self.verdicts()[pos as int] != CharStatus::RightPosition);
                return false;
            }
            pos += 1;
        }
        assert forall|i: int| 0 <= i < self.verdicts().len() implies #[trigger] self.verdicts()[i]
            == CharStatus::RightPosition by {
            assert(self.chars_result@[i].1 == CharStatus::RightPosition);
        }
        true
    }
}

/// How many occurrences of the letter `c` a count table still holds.
spec fn held(counts: Map<u32, usize>, c: char) -> nat {
    if counts.contains_key(code(c)) {
        counts[code(c)] as nat
    } else {
        0
    }
}

/// What is left of `total` once `used` of it are spent.
spec fn left_over(total: nat, used: nat) -> nat {
    if used < total {
        (total - used) as nat
    } else {
        0
    }
}

fn count_of(counts: &HashMap<u32, usize>, c: char) -> (count: usize)
    ensures
        count == held(counts@, c),
{
    broadcast use vstd::std_specs::hash::group_hash_axioms;

    match counts.get(&code_of(c)) {
        Some(count) => *count,
        None => 0,
    }
}

/// The guesses scored so far, oldest first.
pub struct GameStatus {
    pub guesses: Vec<GuessResult>,
}

impl GameStatus {
    /// The scored guesses as rounds of the game.
    pub open spec fn rounds(&self) -> Seq<Round> {
        Seq::new(
            self.guesses@.len(),
            |i: int|
                Round {
                    letters: self.guesses@[i].letters(),
                    verdicts: self.guesses@[i].verdicts(),
                },
        )
    }

    /// The status of a game in which nothing has been guessed.
    pub fn new_game() -> (status: GameStatus)
        ensures
            status.guesses@.len() == 0,
            status.rounds() == Seq::<Round>::empty(),
    {
        GameStatus { guesses: Vec::new() }
    }
}

/// Why a guess was not scored. A rejected guess spends no attempt.
#[derive(Debug)]
pub enum GuessError {
    /// The game is over: it was won, or no attempt is left.
    GameOver,
    /// The guess has not as many letters as the secret word, which has `expected`.
    WrongLength { expected: usize },
    /// The guess, given here in upper case, is no word of the dictionary.
    UnknownWord(String),
}

/// What a guess led to.
pub enum RoundResult<'a> {
    /// The guess was rejected, and the game is as it was.
    Error(GuessError),
    /// The guess was the secret word, which comes with the rounds played.
    Won(&'a GameStatus, String),
    /// The last attempt was spent; the secret word comes with the rounds played.
    Lost(&'a GameStatus, String),
    /// The guess was scored and the game goes on.
    Continue(&'a GameStatus),
}

impl<'a> RoundResult<'a> {
    /// The kind of outcome that a result reports.
    pub open spec fn outcome(self) -> Outcome {
        match self {
            RoundResult::Error(GuessError::GameOver) => Outcome::GameOver,
            RoundResult::Error(GuessError::WrongLength { .. }) => Outcome::WrongLength,
            RoundResult::Error(GuessError::UnknownWord(_)) => Outcome::UnknownWord,
            RoundResult::Won(_, _) => Outcome::Won,
            RoundResult::Lost(_, _) => Outcome::Lost,
            RoundResult::Continue(_) => Outcome::Continue,
        }
    }
}

/// A game that takes guesses.
pub trait WordleGame {
    /// Takes a guess and tells what became of it.
    fn guess_word<'a>(&'a mut self, word: &str) -> RoundResult<'a>;

    /// How many guesses may be scored.
    fn max_guesses(&self) -> usize;

    /// Each letter of the alphabet with what is known about it.
    fn chars_status(&self) -> Vec<CharAndStatus>;
}

/// A game on a secret word, with a dictionary that tells which guesses are words.
pub struct WordleGameImpl<D: Dictionary + ?Sized> {
    dictionary: Box<D>,
    word: String,
    status: GameStatus,
    max_guesses: usize,
    chars_status: HashMap<u32, CharStatus>,
}

impl<D: Dictionary + ?Sized> WordleGameImpl<D> {
    /// The state of the game.
    pub closed spec fn model(&self) -> GameModel {
        GameModel {
            secret: self.word@,
            max_guesses: self.max_guesses as nat,
            rounds: self.status.rounds(),
            known: Map::new(
                |c: char| self.chars_status@.contains_key(code(c)),
                |c: char| self.chars_status@[code(c)],
            ),
        }
    }

    /// The letters of the alphabet, as the game's dictionary orders them.
    pub closed spec fn alphabet(&self) -> Seq<char> {
        self.dictionary.alphabet()
    }

    /// Whether the game's dictionary takes `word` for a word.
    pub closed spec fn accepts(&self, word: Seq<char>) -> bool {
        self.dictionary.accepts(word)
    }

    /// Starts a game on `word`, taken in upper case, with `max_guesses` attempts.
    pub fn new(dictionary: Box<D>, word: &str, max_guesses: usize) -> (game: Result<
        WordleGameImpl<D>,
        ConfigurationError,
    >)
        ensures
            game matches Ok(g) && g.model() == GameModel::start(
                uppercase_of(word@),
                max_guesses as nat,
                dictionary.alphabet(),
            ) && g.alphabet() == dictionary.alphabet() && (forall|w: Seq<char>|
                g.accepts(w) == dictionary.accepts(w)) && g.model().consistent(g.alphabet()),
    {
        Ok(WordleGameImpl::with_secret(dictionary, uppercase(word), max_guesses))
    }

    /// Starts a game on the secret word `word` as it stands, with
    /// `max_guesses` attempts: nothing is guessed yet, and every letter of the
    /// dictionary's alphabet is `NotUsed`.
    pub fn with_secret(dictionary: Box<D>, word: String, max_guesses: usize) -> (game:
        WordleGameImpl<D>)
        ensures
            game.model() == GameModel::start(word@, max_guesses as nat, dictionary.alphabet()),
            game.alphabet() == dictionary.alphabet(),
            forall|w: Seq<char>| game.accepts(w) == dictionary.accepts(w),
            game.model().consistent(game.alphabet()),
    {
        broadcast use vstd::std_specs::hash::group_hash_axioms;

        let alphabet = dictionary.available_chars();
        let mut chars_status: HashMap<u32, CharStatus> = HashMap::new();
        let mut pos: usize = 0;
        while pos < alphabet.len()
            invariant
                pos <= alphabet.len(),
                forall|c: char|
                    #![trigger code(c)]
                    chars_status@.contains_key(code(c)) <==> exists|j: int|
                        0 <= j < pos && alphabet[j] == c,
                forall|k: u32|
                    chars_status@.contains_key(k) ==> #[trigger] chars_status@[k]
                        == CharStatus::NotUsed,
            decreases alphabet.len() - pos,
        {
            let a = letter_at(&alphabet, pos);
            let ghost before = chars_status@;
            chars_status.insert(code_of(a), CharStatus::NotUsed);
            proof {
                assert forall|c: char| #![trigger code(c)]
                    chars_status@.contains_key(code(c)) <==> exists|j: int|
                        0 <= j < pos + 1 && alphabet[j] == c by {
                    lemma_code_injective(a, c);
                    if before.contains_key(code(c)) {
                        let j = choose|j: int| 0 <= j < pos && alphabet[j] == c;
                        assert(0 <= j < pos + 1 && alphabet[j] == c);
                    }
                    if exists|j: int| 0 <= j < pos + 1 && alphabet[j] == c {
                        let j = choose|j: int| 0 <= j < pos + 1 && alphabet[j] == c;
                        if j < pos {
                            assert(before.contains_key(code(c)));
                        }
                    }
                }
            }
            pos += 1;
        }
        proof {
            assert forall|c: char| #![trigger code(c)]
                dictionary.alphabet().contains(c) <==> chars_status@.contains_key(code(c)) by {
                if dictionary.alphabet().contains(c) {
                    let j = choose|j: int| 0 <= j < alphabet.len() && alphabet[j] == c;
                    assert(0 <= j < pos && alphabet[j] == c);
                }
            }
        }
        let ghost letters = dictionary.alphabet();
        let game = WordleGameImpl {
            dictionary,
            word,
            status: GameStatus::new_game(),
            max_guesses,
            chars_status,
        };
        proof {
            assert(game.model().known =~= nothing_known(letters));
            assert(game.model().rounds =~= Seq::<Round>::empty());
            lemma_start_is_consistent(game.word@, max_guesses as nat, letters);
        }
        game
    }
}

impl<D: Dictionary + ?Sized> WordleGameImpl<D> {
    /// Whether the game has ended: the last guess was the secret word, or no
    /// attempt is left.
    fn is_over(&self) -> (over: bool)
        ensures
            over == self.model().over(),
    {
        let used = self.status.guesses.len();
        if used >= self.max_guesses {
            true
        } else if used == 0 {
            false
        } else {
            self.status.guesses[used - 1].is_won()
        }
    }

    /// Merges the verdicts of a scored guess into what is known of each letter.
    fn update_chars_status(&mut self, result: &GuessResult)
        ensures
            final(self).model() == (GameModel {
                known: absorb(
                    old(self).model().known,
                    result.letters(),
                    result.verdicts(),
                    result.letters().len() as int,
                ),
                ..old(self).model()
            }),
            final(self).alphabet() == old(self).alphabet(),
            forall|w: Seq<char>| final(self).accepts(w) == old(self).accepts(w),
    {
        broadcast use vstd::std_specs::hash::group_hash_axioms;

        let ghost letters = result.letters();
        let ghost verdicts = result.verdicts();
        let mut pos: usize = 0;
        while pos < result.chars_result.len()
            invariant
                pos <= result.chars_result.len(),
                letters == result.letters(),
                verdicts == result.verdicts(),
                self.dictionary == old(self).dictionary,
                self.word == old(self).word,
                self.status == old(self).status,
                self.max_guesses == old(self).max_guesses,
                self.model().known == absorb(old(self).model().known, letters, verdicts, pos as int),
            decreases result.chars_result.len() - pos,
        {
            let entry = result.chars_result[pos];
            let key = code_of(entry.0);
            let ghost before = self.model().known;
            let known = match self.chars_status.get(&key) {
                Some(status) => Some(*status),
                None => None,
            };
            if let Some(status) = known {
                self.chars_status.insert(key, status.merge(entry.1));
            }
            proof {
                assert(letters[pos as int] == entry.0);
                assert(verdicts[pos as int] == entry.1);
                assert forall|c: char|
                    self.model().known.contains_key(c) == learn(
                        before,
                        entry.0,
                        entry.1,
                    ).contains_key(c) && (self.model().known.contains_key(c)
                        ==> self.model().known[c] == learn(before, entry.0, entry.1)[c]) by {
                    lemma_code_injective(entry.0, c);
                }
                assert(self.model().known =~= learn(before, entry.0, entry.1));
            }
            pos += 1;
        }
    }
}

impl<D: Dictionary + ?Sized> WordleGame for WordleGameImpl<D> {
    /// The number of attempts that the game was started with.
    fn max_guesses(&self) -> (max: usize)
        ensures
            max == self.model().max_guesses,
    {
        self.max_guesses
    }

    /// The letters of the alphabet, in its order, each with what is known of
    /// it: `NotUsed` until a guess has held the letter.
    fn chars_status(&self) -> (statuses: Vec<CharAndStatus>)
        ensures
            statuses@.len() == self.alphabet().len(),
            forall|i: int|
                0 <= i < statuses@.len() ==> (#[trigger] statuses@[i]).0 == self.alphabet()[i]
                    && statuses@[i].1 == status_of(self.model().known, self.alphabet()[i]),
    {
        broadcast use vstd::std_specs::hash::group_hash_axioms;

        let alphabet = self.dictionary.available_chars();
        let mut statuses: Vec<CharAndStatus> = Vec::new();
        let mut pos: usize = 0;
        while pos < alphabet.len()
            invariant
                pos <= alphabet.len(),
                alphabet@ == self.dictionary.alphabet(),
                statuses@.len() == pos,
                forall|i: int|
                    0 <= i < pos ==> (#[trigger] statuses@[i]).0 == alphabet[i] && statuses@[i].1
                        == status_of(self.model().known, alphabet[i]),
            decreases alphabet.len() - pos,
        {
            let c = letter_at(&alphabet, pos);
            let status = match self.chars_status.get(&code_of(c)) {
                Some(status) => *status,
                None => CharStatus::NotUsed,
            };
            statuses.push(CharAndStatus(c, status));
            pos += 1;
        }
        statuses
    }

    /// Takes a guess in upper case: what `guess_normalized` makes of the
    /// upper-case form of `word`.
    fn guess_word<'a>(&'a mut self, word: &str) -> (result: RoundResult<'a>)
        ensures
            final(self).model() == old(self).model().after(
                uppercase_of(word@),
                old(self).accepts(uppercase_of(word@)),
            ),
            result.outcome() == old(self).model().outcome(
                uppercase_of(word@),
                old(self).accepts(uppercase_of(word@)),
            ),
            final(self).alphabet() == old(self).alphabet(),
            forall|w: Seq<char>| final(self).accepts(w) == old(self).accepts(w),
            old(self).model().consistent(old(self).alphabet()) ==> final(self).model().consistent(
                final(self).alphabet(),
            ),
            result.outcome().is_rejection() ==> final(self).model() == old(self).model(),
            !result.outcome().is_rejection() ==> final(self).model().attempts_used() == old(
                self,
            ).model().attempts_used() + 1,
            forall|c: char|
                (#[trigger] status_of(final(self).model().known, c)).rank() >= status_of(
                    old(self).model().known,
                    c,
                ).rank(),
            match result {
                RoundResult::Error(GuessError::GameOver) => true,
                RoundResult::Error(GuessError::WrongLength { expected }) => expected == old(
                    self,
                ).model().secret.len(),
                RoundResult::Error(GuessError::UnknownWord(guess)) => guess@ == uppercase_of(word@),
                RoundResult::Won(status, secret) => status.rounds() == final(self).model().rounds
                    && secret@ == old(self).model().secret,
                RoundResult::Lost(status, secret) => status.rounds() == final(self).model().rounds
                    && secret@ == old(self).model().secret,
                RoundResult::Continue(status) => status.rounds() == final(self).model().rounds,
            },
    {
        self.guess_normalized(uppercase(word))
    }
}

impl<D: Dictionary + ?Sized> WordleGameImpl<D> {
    /// Takes a guess as it stands, without putting it in upper case first.
    ///
    /// A guess is rejected, in this order, where the game is over, where the
    /// guess has not the secret's number of letters, and where the dictionary
    /// does not hold it; the game is then as it was. Any other guess is scored:
    /// it becomes a round, its verdicts are merged into what is known of each
    /// letter, and it wins the game, loses it or leaves it going.
    pub fn guess_normalized<'a>(&'a mut self, word: String) -> (result: RoundResult<'a>)
        ensures
            final(self).model() == old(self).model().after(
                word@,
                old(self).accepts(word@),
            ),
            result.outcome() == old(self).model().outcome(
                word@,
                old(self).accepts(word@),
            ),
            final(self).alphabet() == old(self).alphabet(),
            forall|w: Seq<char>| final(self).accepts(w) == old(self).accepts(w),
            old(self).model().consistent(old(self).alphabet()) ==> final(self).model().consistent(
                final(self).alphabet(),
            ),
            result.outcome().is_rejection() ==> final(self).model() == old(self).model(),
            !result.outcome().is_rejection() ==> final(self).model().attempts_used() == old(
                self,
            ).model().attempts_used() + 1,
            forall|c: char|
                (#[trigger] status_of(final(self).model().known, c)).rank() >= status_of(
                    old(self).model().known,
                    c,
                ).rank(),
            match result {
                RoundResult::Error(GuessError::GameOver) => true,
                RoundResult::Error(GuessError::WrongLength { expected }) => expected == old(
                    self,
                ).model().secret.len(),
                RoundResult::Error(GuessError::UnknownWord(guess)) => guess@ == word@,
                RoundResult::Won(status, secret) => status.rounds() == final(self).model().rounds
                    && secret@ == old(self).model().secret,
                RoundResult::Lost(status, secret) => status.rounds() == final(self).model().rounds
                    && secret@ == old(self).model().secret,
                RoundResult::Continue(status) => status.rounds() == final(self).model().rounds,
            },
    {
        let ghost start = self.model();
        let ghost guess = word@;
        let ghost is_word = self.accepts(guess);
        proof {
            assert forall|c: char|
                (#[trigger] status_of(start.after(guess, is_word).known, c)).rank() >= status_of(
                    start.known,
                    c,
                ).rank() by {
                lemma_knowledge_never_downgrades(start, guess, is_word, c);
            }
            if start.consistent(self.alphabet()) {
                lemma_after_stays_consistent(start, self.alphabet(), guess, is_word);
            }
        }
        if self.is_over() {
            return RoundResult::Error(GuessError::GameOver);
        }
        let expected = self.word.as_str().unicode_len();
        if word.as_str().unicode_len() != expected {
            return RoundResult::Error(GuessError::WrongLength { expected });
        }
        if !self.dictionary.contains_word(word.as_str()) {
            return RoundResult::Error(GuessError::UnknownWord(word));
        }
        let result = WordleGameImpl::guess_result(self.word.as_str(), word.as_str());

        self.update_chars_status(&result);

        let won = result.is_won();
        let ghost rounds_before = self.status.rounds();
        let ghost round = Round { letters: result.letters(), verdicts: result.verdicts() };
        self.status.guesses.push(result);
        proof {
            assert(self.status.rounds() =~= rounds_before.push(round));
        }

        if won {
            RoundResult::Won(&self.status, self.word.clone())
        } else if self.status.guesses.len() == self.max_guesses {
            RoundResult::Lost(&self.status, self.word.clone())
        } else {
            RoundResult::Continue(&self.status)
        }
    }
}

impl WordleGameImpl<dyn Dictionary> {
    /// Scores `guess_word` against `target_word`, both already in upper case
    /// and of the same number of letters. The function stands on the game over
    /// any dictionary, for it asks nothing of one.
    pub fn guess_result(target_word: &str, guess_word: &str) -> (result: GuessResult)
        requires
            target_word@.len() == guess_word@.len(),
        ensures
            result.letters() == guess_word@,
            result.verdicts() == score(target_word@, guess_word@),
    {
        broadcast use vstd::std_specs::hash::group_hash_axioms;

        let target = letters(target_word);
        let guess = letters(guess_word);
        let n = target.len();

        // How often each letter occurs in the target word.
        let mut remaining: HashMap<u32, usize> = HashMap::new();
        let mut pos: usize = 0;
        while pos < n
            invariant
                pos <= n,
                n == target.len(),
                forall|c: char|
                    #[trigger] held(remaining@, c) == occurrences(target@, c, pos as int),
            decreases n - pos,
        {
            let c = letter_at(&target, pos);
            let count = count_of(&remaining, c);
            let ghost before = remaining@;
            proof {
                lemma_occurrences_bounds(target@, c, pos as int, pos as int);
            }
            remaining.insert(code_of(c), count + 1);
            proof {
                assert forall|d: char| #[trigger]
                    held(remaining@, d) == occurrences(target@, d, pos + 1) by {
                    lemma_code_injective(c, d);
                    assert(held(before, d) == occurrences(target@, d, pos as int));
                }
            }
            pos += 1;
        }

        let mut chars_result: Vec<CharAndStatus> = Vec::new();
        let mut pos: usize = 0;
        while pos < n
            invariant
                pos <= n,
                n == guess.len(),
                chars_result.len() == pos,
                forall|i: int|
                    0 <= i < pos ==> (#[trigger] chars_result[i]).0 == guess[i] && chars_result[i].1
                        == CharStatus::NotInWord,
            decreases n - pos,
        {
            let c = letter_at(&guess, pos);
            chars_result.push(CharAndStatus(c, CharStatus::NotInWord));
            pos += 1;
        }

        // First, the positions that match: each takes one occurrence of its letter.
        let mut pos: usize = 0;
        while pos < n
            invariant
                pos <= n,
                n == target.len(),
                n == guess.len(),
                chars_result.len() == n,
                forall|c: char|
                    #[trigger] held(remaining@, c) + matched(target@, guess@, c, pos as int)
                        == occurrences(target@, c, n as int),
                forall|i: int|
                    0 <= i < n ==> (#[trigger] chars_result[i]).0 == guess[i] && chars_result[i].1
                        == if i < pos && target[i] == guess[i] {
                        CharStatus::RightPosition
                    } else {
                        CharStatus::NotInWord
                    },
            decreases n - pos,
        {
            let c = letter_at(&guess, pos);
            let ghost before = remaining@;
            if letter_at(&target, pos) == c {
                chars_result.set(pos, CharAndStatus(c, CharStatus::RightPosition));
                let count = count_of(&remaining, c);
                proof {
                    lemma_matched_bounds(target@, guess@, c, pos + 1, n as int);
                    lemma_occurrences_split(target@, guess@, c, n as int);
                    assert(held(before, c) + matched(target@, guess@, c, pos as int)
                        == occurrences(target@, c, n as int));
                }
                remaining.insert(code_of(c), count - 1);
            }
            proof {
                assert forall|d: char| #[trigger]
                    held(remaining@, d) + matched(target@, guess@, d, pos + 1) == occurrences(
                        target@,
                        d,
                        n as int,
                    ) by {
                    lemma_code_injective(c, d);
                    assert(held(before, d) + matched(target@, guess@, d, pos as int)
                        == occurrences(target@, d, n as int));
                }
            }
            pos += 1;
        }

        proof {
            assert forall|c: char| #[trigger]
                held(remaining@, c) == surplus(target@, guess@, c, n as int) by {
                lemma_occurrences_split(target@, guess@, c, n as int);
            }
        }

        // Then the others, from left to right: a letter is credited while
        // occurrences of it are left.
        let mut pos: usize = 0;
        while pos < n
            invariant
                pos <= n,
                n == target.len(),
                n == guess.len(),
                chars_result.len() == n,
                forall|c: char|
                    #[trigger] held(remaining@, c) == left_over(
                        surplus(target@, guess@, c, n as int),
                        surplus(guess@, target@, c, pos as int),
                    ),
                forall|i: int|
                    0 <= i < n ==> (#[trigger] chars_result[i]).0 == guess[i] && chars_result[i].1
                        == if i < pos {
                        verdict_at(target@, guess@, i)
                    } else if target[i] == guess[i] {
                        CharStatus::RightPosition
                    } else {
                        CharStatus::NotInWord
                    },
            decreases n - pos,
        {
            let c = letter_at(&guess, pos);
            let ghost before = remaining@;
            if letter_at(&target, pos) != c {
                let count = count_of(&remaining, c);
                if count > 0 {
                    remaining.insert(code_of(c), count - 1);
                    chars_result.set(pos, CharAndStatus(c, CharStatus::WrongPosition));
                }
            }
            proof {
                assert forall|d: char| #[trigger]
                    held(remaining@, d) == left_over(
                        surplus(target@, guess@, d, n as int),
                        surplus(guess@, target@, d, pos + 1),
                    ) by {
                    lemma_code_injective(c, d);
                    assert(held(before, d) == left_over(
                        surplus(target@, guess@, d, n as int),
                        surplus(guess@, target@, d, pos as int),
                    ));
                }
                assert(held(before, c) == left_over(
                    surplus(target@, guess@, c, n as int),
                    surplus(guess@, target@, c, pos as int),
                ));
            }
            pos += 1;
        }

        let result = GuessResult { chars_result };
        assert(result.letters() =~= guess_word@);
        assert(result.verdicts() =~= score(target_word@, guess_word@));
        result
    }
}

} // verus!
