//! What the guesses made so far have shown about each letter.
//!
//! The game keeps a status for every letter of its alphabet. A scored guess is
//! merged into it letter by letter; letters outside the alphabet are not kept.

use vstd::prelude::*;
use crate::verdict::CharStatus;

verus! {

/// The knowledge at the start of a game: every letter of the alphabet is `NotUsed`.
pub open spec fn nothing_known(alphabet: Seq<char>) -> Map<char, CharStatus> {
    Map::new(|c: char| alphabet.contains(c), |c: char| CharStatus::NotUsed)
}

/// The status of a letter: what is kept for it, and `NotUsed` for a letter
/// for which nothing is kept.
pub open spec fn status_of(known: Map<char, CharStatus>, c: char) -> CharStatus {
    if known.contains_key(c) {
        known[c]
    } else {
        CharStatus::NotUsed
    }
}

/// The knowledge after one verdict on the letter `c`.
pub open spec fn learn(known: Map<char, CharStatus>, c: char, verdict: CharStatus) -> Map<
    char,
    CharStatus,
> {
    if known.contains_key(c) {
        known.insert(c, known[c].merged_with(verdict))
    } else {
        known
    }
}

/// The knowledge after the verdicts on the first `n` letters of a guess, taken
/// from left to right.
pub open spec fn absorb(
    known: Map<char, CharStatus>,
    letters: Seq<char>,
    verdicts: Seq<CharStatus>,
    n: int,
) -> Map<char, CharStatus>
    decreases n,
{
    if n <= 0 {
        known
    } else {
        learn(absorb(known, letters, verdicts, n - 1), letters[n - 1], verdicts[n - 1])
    }
}

/// Whether none of the statuses is `NotUsed`.
pub open spec fn all_verdicts(verdicts: Seq<CharStatus>) -> bool {
    forall|i: int| 0 <= i < verdicts.len() ==> (#[trigger] verdicts[i]).is_verdict()
}

/// A scored guess changes no letter's status for a less informative one, and
/// neither adds a letter to those that are kept nor drops one: in the order
/// `NotUsed < NotInWord < WrongPosition < RightPosition` every status stays or
/// rises, so a letter once `RightPosition` remains so.
pub proof fn lemma_absorb_never_downgrades(
    known: Map<char, CharStatus>,
    letters: Seq<char>,
    verdicts: Seq<CharStatus>,
    n: int,
    c: char,
)
    requires
        0 <= n <= verdicts.len(),
        all_verdicts(verdicts),
    ensures
        absorb(known, letters, verdicts, n).contains_key(c) == known.contains_key(c),
        known.contains_key(c) ==> absorb(known, letters, verdicts, n)[c].rank() >= known[c].rank(),
        known.contains_key(c) && known[c] == CharStatus::RightPosition ==> absorb(
            known,
            letters,
            verdicts,
            n,
        )[c] == CharStatus::RightPosition,
    decreases n,
{
    if n > 0 {
        lemma_absorb_never_downgrades(known, letters, verdicts, n - 1, c);
        let before = absorb(known, letters, verdicts, n - 1);
        assert(verdicts[n - 1].is_verdict());
        if before.contains_key(letters[n - 1]) {
            before[letters[n - 1]].lemma_merge_is_max(verdicts[n - 1]);
        }
    }
}

/// A letter that the guess does not hold keeps its status.
pub proof fn lemma_absorb_keeps_other_letters(
    known: Map<char, CharStatus>,
    letters: Seq<char>,
    verdicts: Seq<CharStatus>,
    n: int,
    c: char,
)
    requires
        0 <= n <= letters.len(),
        forall|i: int| 0 <= i < n ==> letters[i] != c,
        known.contains_key(c),
    ensures
        absorb(known, letters, verdicts, n)[c] == known[c],
    decreases n,
{
    if n > 0 {
        lemma_absorb_keeps_other_letters(known, letters, verdicts, n - 1, c);
        lemma_absorb_keeps_alphabet(known, letters, verdicts, n - 1, c);
    }
}

/// Merging verdicts keeps the set of letters whose status is kept.
pub proof fn lemma_absorb_keeps_alphabet(
    known: Map<char, CharStatus>,
    letters: Seq<char>,
    verdicts: Seq<CharStatus>,
    n: int,
    c: char,
)
    ensures
        absorb(known, letters, verdicts, n).contains_key(c) == known.contains_key(c),
    decreases n,
{
    if n > 0 {
        lemma_absorb_keeps_alphabet(known, letters, verdicts, n - 1, c);
    }
}

} // verus!
