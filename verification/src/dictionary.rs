//! Where words come from: the interface that the game needs of a word source,
//! and a word list held in memory.

use vstd::prelude::*;
use vstd::string::StrSliceExecFns;
use rand::Rng;
use crate::text::{uppercase, uppercase_of};

verus! {

/// Why a game could not be set up.
#[derive(Debug, PartialEq, Eq)]
pub enum ConfigurationError {
    /// The word list holds no word.
    Empty,
    /// A word of `requested` letters was asked of a list of words of `available` letters.
    WrongSize { requested: usize, available: usize },
}

/// A source of words: it picks secret words, knows which guesses are words,
/// and names the letters that the game keeps track of.
pub trait Dictionary {
    /// Whether the source takes `word` for a word.
    spec fn accepts(&self, word: Seq<char>) -> bool;

    /// The letters of the alphabet, in the order in which they are shown.
    spec fn alphabet(&self) -> Seq<char>;

    /// Picks a word of `size` letters, or tells why it has none. Which word
    /// comes is up to the source.
    fn get_random_word(&self, size: usize) -> Result<String, ConfigurationError>;

    /// Tells whether `word` is a word of this source.
    fn contains_word(&self, word: &str) -> (found: bool)
        ensures
            found == self.accepts(word@),
    ;

    /// The alphabet of this source.
    fn available_chars(&self) -> (chars: Vec<char>)
        ensures
            chars@ == self.alphabet(),
    ;
}

/// The upper-case letters `A` to `Z`.
pub open spec fn english_alphabet() -> Seq<char> {
    seq![
        'A', 'B', 'C', 'D', 'E', 'F', 'G', 'H', 'I', 'J', 'K', 'L', 'M', 'N', 'O', 'P', 'Q', 'R',
        'S', 'T', 'U', 'V', 'W', 'X', 'Y', 'Z',
    ]
}

/// Whether one of the first `n` texts is `word`.
pub open spec fn listed(words: Seq<String>, word: Seq<char>, n: int) -> bool {
    exists|i: int| 0 <= i < n && i < words.len() && (#[trigger] words[i])@ == word
}

/// Whether the upper-case form of one of the first `n` lines is `word`.
pub open spec fn listed_in_upper_case(lines: Seq<String>, word: Seq<char>, n: int) -> bool {
    exists|i: int| 0 <= i < n && i < lines.len() && uppercase_of((#[trigger] lines[i])@) == word
}

/// Whether the upper-case form of one of the first `n` lines has `size` letters.
pub open spec fn any_of_size(lines: Seq<String>, size: usize, n: int) -> bool {
    exists|i: int|
        0 <= i < n && i < lines.len() && uppercase_of((#[trigger] lines[i])@).len() == size
}

/// Picks a number below `bound` with `rand::thread_rng` and `Rng::gen_range`.
/// Nothing is proved of the call: it is taken to return a number of the range
/// `0..bound`, which must not be empty. Which number comes is left open.
#[verifier::external_body]
fn random_below(bound: usize) -> (picked: usize)
    requires
        bound > 0,
    ensures
        picked < bound,
{
    rand::thread_rng().gen_range(0..bound)
}

/// Tells whether `word` is among `words`.
fn is_listed(words: &Vec<String>, word: &String) -> (found: bool)
    ensures
        found == listed(words@, word@, words.len() as int),
{
    let mut pos: usize = 0;
    while pos < words.len()
        invariant
            pos <= words.len(),
            !listed(words@, word@, pos as int),
        decreases words.len() - pos,
    {
        if words[pos] == *word {
            return true;
        }
        pos += 1;
    }
    false
}

/// A list of English words of one length, each held once and in upper case.
pub struct EnglishDictionary {
    words: Vec<String>,
    word_size: usize,
}

impl EnglishDictionary {
    /// The list holds a word, none twice, and only words of its size.
    #[verifier::type_invariant]
    spec fn holds_distinct_words(&self) -> bool {
        &&& self.words@.len() > 0
        &&& forall|i: int|
            0 <= i < self.words@.len() ==> (#[trigger] self.words@[i])@.len() == self.word_size
        &&& forall|i: int, j: int|
            0 <= i < j < self.words@.len() ==> (#[trigger] self.words@[i])@ != (
            #[trigger] self.words@[j])@
    }

    /// Whether the list holds `word` as it stands.
    pub closed spec fn holds(&self, word: Seq<char>) -> bool {
        listed(self.words@, word, self.words@.len() as int)
    }

    /// The number of letters of each word of the list.
    pub closed spec fn size(&self) -> usize {
        self.word_size
    }

    /// How many words the list holds.
    pub closed spec fn count(&self) -> nat {
        self.words@.len()
    }

    /// The word at place `index` of the list.
    pub closed spec fn word(&self, index: int) -> Seq<char> {
        self.words@[index]@
    }

    /// Tells whether the list holds `word` as it stands, without putting it
    /// in upper case first.
    pub fn holds_word(&self, word: &String) -> (found: bool)
        ensures
            found == self.holds(word@),
    {
        is_listed(&self.words, word)
    }

    /// How many words the list holds: at least one.
    pub fn word_count(&self) -> (count: usize)
        ensures
            count == self.count(),
            count > 0,
    {
        proof {
            use_type_invariant(self);
        }
        self.words.len()
    }

    /// The word at place `index` of the list: a word that the list holds, of
    /// the list's size, and another one at every place.
    pub fn nth_word(&self, index: usize) -> (word: String)
        requires
            index < self.count(),
        ensures
            word@ == self.word(index as int),
            self.holds(word@),
            word@.len() == self.size(),
            forall|other: int|
                0 <= other < self.count() && other != index ==> self.word(other) != word@,
    {
        proof {
            use_type_invariant(self);
        }
        self.words[index].clone()
    }

    /// Makes the word list for words of `word_size` letters from the lines of
    /// a word file. Every line counts in upper case, and once; a line that has
    /// not `word_size` letters then is passed over. Where no line is left, there
    /// is no dictionary.
    pub fn new(word_size: usize, lines: Vec<String>) -> (made: Result<
        EnglishDictionary,
        ConfigurationError,
    >)
        ensures
            made is Ok <==> any_of_size(lines@, word_size, lines@.len() as int),
            made matches Err(e) ==> e == ConfigurationError::Empty,
            made matches Ok(dictionary) ==> dictionary.size() == word_size && forall|
                word: Seq<char>,
            |
                dictionary.holds(word) <==> word.len() == word_size && listed_in_upper_case(
                    lines@,
                    word,
                    lines@.len() as int,
                ),
    {
        let mut words: Vec<String> = Vec::new();
        let mut pos: usize = 0;
        while pos < lines.len()
            invariant
                pos <= lines.len(),
                words@.len() > 0 <==> any_of_size(lines@, word_size, pos as int),
                forall|i: int|
                    0 <= i < words@.len() ==> (#[trigger] words@[i])@.len() == word_size,
                forall|i: int, j: int|
                    0 <= i < j < words@.len() ==> (#[trigger] words@[i])@ != (#[trigger] words@[j])@,
                forall|word: Seq<char>|
                    listed(words@, word, words@.len() as int) <==> word.len() == word_size
                        && listed_in_upper_case(lines@, word, pos as int),
            decreases lines.len() - pos,
        {
            let upper = uppercase(lines[pos].as_str());
            let ghost before = words@;
            let fits = upper.as_str().unicode_len() == word_size;
            let known = is_listed(&words, &upper);
            if fits && !known {
                words.push(upper);
            }
            proof {
                assert(uppercase_of(lines@[pos as int]@) == upper@);
                if any_of_size(lines@, word_size, pos + 1) {
                    let k = choose|k: int|
                        0 <= k < pos + 1 && k < lines@.len() && uppercase_of(
                            (#[trigger] lines@[k])@,
                        ).len() == word_size;
                    if k < pos {
                        assert(any_of_size(lines@, word_size, pos as int));
                    } else if known {
                        assert(before.len() > 0);
                    }
                }
                if words@.len() > 0 {
                    if before.len() > 0 {
                        let k = choose|k: int|
                            0 <= k < pos && k < lines@.len() && uppercase_of(
                                (#[trigger] lines@[k])@,
                            ).len() == word_size;
                        assert(0 <= k < pos + 1 && uppercase_of(lines@[k]@).len() == word_size);
                    } else {
                        assert(uppercase_of(lines@[pos as int]@).len() == word_size);
                    }
                }
                assert forall|word: Seq<char>|
                    listed(words@, word, words@.len() as int) <==> word.len() == word_size
                        && listed_in_upper_case(lines@, word, pos + 1) by {
                    assert(listed(before, word, before.len() as int) <==> word.len() == word_size
                        && listed_in_upper_case(lines@, word, pos as int));
                    if listed(words@, word, words@.len() as int) {
                        let i = choose|i: int|
                            0 <= i < words@.len() && (#[trigger] words@[i])@ == word;
                        if i < before.len() {
                            assert(before[i]@ == word);
                            let k = choose|k: int|
                                0 <= k < pos && k < lines@.len() && uppercase_of(
                                    (#[trigger] lines@[k])@,
                                ) == word;
                            assert(0 <= k < pos + 1 && uppercase_of(lines@[k]@) == word);
                        } else {
                            assert(uppercase_of(lines@[pos as int]@) == word);
                        }
                    }
                    if word.len() == word_size && listed_in_upper_case(lines@, word, pos + 1) {
                        let k = choose|k: int|
                            0 <= k < pos + 1 && k < lines@.len() && uppercase_of(
                                (#[trigger] lines@[k])@,
                            ) == word;
                        if k < pos {
                            let i = choose|i: int|
                                0 <= i < before.len() && (#[trigger] before[i])@ == word;
                            assert(words@[i]@ == word);
                        } else if known {
                            let i = choose|i: int|
                                0 <= i < before.len() && (#[trigger] before[i])@ == upper@;
                            assert(words@[i]@ == word);
                        } else {
                            assert(words@[words@.len() - 1]@ == word);
                        }
                    }
                }
            }
            pos += 1;
        }
        if words.len() == 0 {
            Err(ConfigurationError::Empty)
        } else {
            Ok(EnglishDictionary { words, word_size })
        }
    }
}

impl Dictionary for EnglishDictionary {
    /// A text is a word where the list holds its upper-case form.
    open spec fn accepts(&self, word: Seq<char>) -> bool {
        self.holds(uppercase_of(word))
    }

    open spec fn alphabet(&self) -> Seq<char> {
        english_alphabet()
    }

    /// Picks one of the words of the list at random, where `size` is the
    /// number of letters for which the list was made.
    fn get_random_word(&self, size: usize) -> (picked: Result<String, ConfigurationError>)
        ensures
            picked is Ok <==> size == self.size(),
            picked matches Ok(word) ==> self.holds(word@) && word@.len() == size,
            picked matches Err(e) ==> e == (ConfigurationError::WrongSize {
                requested: size,
                available: self.size(),
            }),
    {
        if self.word_size != size {
            return Err(ConfigurationError::WrongSize { requested: size, available: self.word_size });
        }
        let num_words = self.word_count();
        let r = random_below(num_words);
        Ok(self.nth_word(r))
    }

    fn contains_word(&self, word: &str) -> (found: bool) {
        let upper = uppercase(word);
        self.holds_word(&upper)
    }

    fn available_chars(&self) -> (chars: Vec<char>) {
        let chars = vec![
            'A', 'B', 'C', 'D', 'E', 'F', 'G', 'H', 'I', 'J', 'K', 'L', 'M', 'N', 'O', 'P', 'Q',
            'R', 'S', 'T', 'U', 'V', 'W', 'X', 'Y', 'Z',
        ];
        assert(chars@ =~= english_alphabet());
        chars
    }
}

} // verus!
