//! A word-guessing game: a secret word, a bounded number of guesses, and a
//! per-letter verdict for every guess.
//!
//! The scoring rule and the game's state machine are stated as mathematical
//! functions on sequences of letters and proved of the executable code.

pub mod dictionary;
pub mod game;
pub mod knowledge;
pub mod rules;
pub mod scoring;
pub mod text;
pub mod verdict;

pub use dictionary::{ConfigurationError, Dictionary, EnglishDictionary};
pub use game::{GameStatus, GuessError, GuessResult, RoundResult, WordleGame, WordleGameImpl};
pub use verdict::{CharAndStatus, CharStatus};
