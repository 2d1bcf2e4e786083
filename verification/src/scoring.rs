//! The scoring rule: what a guess says about each of its letters.
//!
//! A position whose letter equals the secret's letter at that position is an
//! exact match. Every other occurrence of a letter in the secret is left over,
//! and the guess's remaining occurrences of that letter are credited against
//! the left-over ones from left to right.

use vstd::prelude::*;
use crate::verdict::CharStatus;

verus! {

/// How many of the first `n` positions of `word` hold the letter `c`.
pub open spec fn occurrences(word: Seq<char>, c: char, n: int) -> nat
    decreases n,
{
    if n <= 0 {
        0
    } else {
        occurrences(word, c, n - 1) + if word[n - 1] == c { 1nat } else { 0nat }
    }
}

/// How many of the first `n` positions hold the letter `c` in both words.
pub open spec fn matched(a: Seq<char>, b: Seq<char>, c: char, n: int) -> nat
    decreases n,
{
    if n <= 0 {
        0
    } else {
        matched(a, b, c, n - 1) + if a[n - 1] == c && b[n - 1] == c { 1nat } else { 0nat }
    }
}

/// How many of the first `n` positions hold the letter `c` in `a` but not in `b`.
pub open spec fn surplus(a: Seq<char>, b: Seq<char>, c: char, n: int) -> nat
    decreases n,
{
    if n <= 0 {
        0
    } else {
        surplus(a, b, c, n - 1) + if a[n - 1] == c && b[n - 1] != c { 1nat } else { 0nat }
    }
}

/// The verdict on position `i` of `guess`.
///
/// An exact match is `RightPosition`. Otherwise the letter is `WrongPosition`
/// as long as the secret has more occurrences of it outside exact matches than
/// the guess has had, outside exact matches, before position `i`; else it is
/// `NotInWord`.
pub open spec fn verdict_at(secret: Seq<char>, guess: Seq<char>, i: int) -> CharStatus {
    let c = guess[i];
    if secret[i] == c {
        CharStatus::RightPosition
    } else if surplus(guess, secret, c, i) < surplus(secret, guess, c, secret.len() as int) {
        CharStatus::WrongPosition
    } else {
        CharStatus::NotInWord
    }
}

/// The verdicts on a guess, one for each of its positions.
pub open spec fn score(secret: Seq<char>, guess: Seq<char>) -> Seq<CharStatus> {
    Seq::new(guess.len(), |i: int| verdict_at(secret, guess, i))
}

/// Whether every verdict is `RightPosition`.
pub open spec fn all_right(verdicts: Seq<CharStatus>) -> bool {
    forall|i: int| 0 <= i < verdicts.len() ==> #[trigger] verdicts[i] == CharStatus::RightPosition
}

/// How many of the first `n` positions of the guess hold the letter `c` and
/// are credited to it, as `RightPosition` or `WrongPosition`.
pub open spec fn credited(secret: Seq<char>, guess: Seq<char>, c: char, n: int) -> nat
    decreases n,
{
    if n <= 0 {
        0
    } else {
        credited(secret, guess, c, n - 1) + if guess[n - 1] == c && verdict_at(
            secret,
            guess,
            n - 1,
        ) != CharStatus::NotInWord {
            1nat
        } else {
            0nat
        }
    }
}

/// The smaller of two numbers.
pub open spec fn min_nat(a: nat, b: nat) -> nat {
    if a <= b {
        a
    } else {
        b
    }
}

/// A letter occurs in a prefix at most as often as the prefix is long, and no
/// more often in a shorter prefix than in a longer one.
pub proof fn lemma_occurrences_bounds(word: Seq<char>, c: char, i: int, n: int)
    requires
        0 <= i <= n,
    ensures
        occurrences(word, c, i) <= i,
        occurrences(word, c, i) <= occurrences(word, c, n),
    decreases n,
{
    if i > 0 {
        lemma_occurrences_bounds(word, c, i - 1, i - 1);
    }
    if i < n {
        lemma_occurrences_bounds(word, c, i, n - 1);
    }
}

/// Exact matches are counted alike from either word, and grow with the prefix.
pub proof fn lemma_matched_bounds(a: Seq<char>, b: Seq<char>, c: char, i: int, n: int)
    requires
        0 <= i <= n,
    ensures
        matched(a, b, c, i) == matched(b, a, c, i),
        matched(a, b, c, i) <= matched(a, b, c, n),
    decreases n,
{
    if i > 0 {
        lemma_matched_bounds(a, b, c, i - 1, i - 1);
    }
    if i < n {
        lemma_matched_bounds(a, b, c, i, n - 1);
    }
}

/// Every occurrence of a letter is either an exact match or left over.
pub proof fn lemma_occurrences_split(a: Seq<char>, b: Seq<char>, c: char, n: int)
    ensures
        occurrences(a, c, n) == matched(a, b, c, n) + surplus(a, b, c, n),
    decreases n,
{
    if n > 0 {
        lemma_occurrences_split(a, b, c, n - 1);
    }
}

/// A prefix without a position that holds `c` in `a` but not in `b` has no surplus of `c`.
pub proof fn lemma_surplus_zero(a: Seq<char>, b: Seq<char>, c: char, n: int)
    requires
        forall|j: int| 0 <= j < n ==> !(a[j] == c && b[j] != c),
    ensures
        surplus(a, b, c, n) == 0,
    decreases n,
{
    if n > 0 {
        lemma_surplus_zero(a, b, c, n - 1);
    }
}

/// A position that holds `c` in `a` but not in `b` makes the surplus of `c` positive.
pub proof fn lemma_surplus_positive(a: Seq<char>, b: Seq<char>, c: char, j: int, n: int)
    requires
        0 <= j < n,
        a[j] == c,
        b[j] != c,
    ensures
        surplus(a, b, c, n) >= 1,
    decreases n,
{
    if j < n - 1 {
        lemma_surplus_positive(a, b, c, j, n - 1);
    }
}

/// In a prefix of the guess, the positions credited to a letter are its exact
/// matches and as many of its other occurrences as the secret has left over.
proof fn lemma_credited_prefix(secret: Seq<char>, guess: Seq<char>, c: char, n: int)
    requires
        secret.len() == guess.len(),
        0 <= n <= guess.len(),
    ensures
        credited(secret, guess, c, n) == matched(secret, guess, c, n) + min_nat(
            surplus(secret, guess, c, secret.len() as int),
            surplus(guess, secret, c, n),
        ),
    decreases n,
{
    if n > 0 {
        lemma_credited_prefix(secret, guess, c, n - 1);
    }
}

/// A guess is credited with a letter exactly as often as the letter occurs in
/// both words: never more often than the secret holds it, and every further
/// occurrence in the guess is `NotInWord`.
pub proof fn lemma_credit_is_bounded(secret: Seq<char>, guess: Seq<char>, c: char)
    requires
        secret.len() == guess.len(),
    ensures
        credited(secret, guess, c, guess.len() as int) == min_nat(
            occurrences(secret, c, secret.len() as int),
            occurrences(guess, c, guess.len() as int),
        ),
        credited(secret, guess, c, guess.len() as int) <= occurrences(
            secret,
            c,
            secret.len() as int,
        ),
{
    let n = guess.len() as int;
    lemma_credited_prefix(secret, guess, c, n);
    lemma_occurrences_split(secret, guess, c, n);
    lemma_occurrences_split(guess, secret, c, n);
    lemma_matched_bounds(secret, guess, c, n, n);
}

/// Where no letter occurs twice in the guess, a position is `RightPosition`
/// if its letter is the secret's letter there, else `WrongPosition` if the
/// secret holds the letter at all, else `NotInWord`.
pub proof fn lemma_score_without_repeats(secret: Seq<char>, guess: Seq<char>, i: int)
    requires
        secret.len() == guess.len(),
        guess.no_duplicates(),
        0 <= i < guess.len(),
    ensures
        verdict_at(secret, guess, i) == if guess[i] == secret[i] {
            CharStatus::RightPosition
        } else if secret.contains(guess[i]) {
            CharStatus::WrongPosition
        } else {
            CharStatus::NotInWord
        },
{
    let c = guess[i];
    let n = secret.len() as int;
    if secret[i] != c {
        lemma_surplus_zero(guess, secret, c, i);
        if secret.contains(c) {
            let j = choose|j: int| 0 <= j < secret.len() && secret[j] == c;
            lemma_surplus_positive(secret, guess, c, j, n);
        } else {
            lemma_surplus_zero(secret, guess, c, n);
        }
    }
}

} // verus!
