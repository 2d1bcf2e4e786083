//! Words as sequences of letters.

use vstd::prelude::*;

verus! {

/// The upper-case form of a text: what `str::to_uppercase` of the standard
/// library returns for it. The mapping follows the Unicode case tables, does not
/// depend on a locale, and may change the number of letters.
pub uninterp spec fn uppercase_of(text: Seq<char>) -> Seq<char>;

/// Calls `str::to_uppercase`. Nothing is proved of the call: the result is
/// taken to be the upper-case form of the argument, letter sequence for letter
/// sequence.
#[verifier::external_body]
pub(crate) fn uppercase(text: &str) -> (upper: String)
    ensures
        upper@ == uppercase_of(text@),
{
    text.to_uppercase()
}

/// The number that stands for a letter where letters key a table.
pub open spec fn code(c: char) -> u32 {
    c as u32
}

/// Different letters have different codes.
pub proof fn lemma_code_injective(a: char, b: char)
    ensures
        code(a) == code(b) <==> a == b,
{
}

/// The code of a letter.
pub(crate) fn code_of(c: char) -> (k: u32)
    ensures
        k == code(c),
{
    c as u32
}

/// The letters of a text, in order.
pub(crate) fn letters(text: &str) -> (out: Vec<char>)
    ensures
        out@ == text@,
{
    let mut out: Vec<char> = Vec::new();
    for c in it: text.chars()
        invariant
            out@ == it.seq().take(it.index()),
    {
        out.push(c);
    }
    out
}

/// The letter at position `i` of a word. Read through this function, the
/// letter is known to the verifier as a `char` in its range, which it is not
/// where a vector is indexed in place.
pub(crate) fn letter_at(word: &Vec<char>, i: usize) -> (c: char)
    requires
        i < word.len(),
    ensures
        c == word[i as int],
{
    word[i]
}

} // verus!
