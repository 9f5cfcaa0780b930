use vstd::prelude::*;
use crate::game::GameError;
use crate::text::chars_of;
use crate::text::contains_char;

verus! {

/// Every character of `word` belongs to `alphabet`.
pub open spec fn all_in_alpha(alphabet: Seq<char>, word: Seq<char>) -> bool {
    forall|i: int| 0 <= i < word.len() ==> alphabet.contains(word[i])
}

/// The first character of `word` that `alphabet` lacks, if any.
pub open spec fn first_out(alphabet: Seq<char>, word: Seq<char>) -> Option<char>
    decreases word.len(),
{
    if word.len() == 0 {
        None
    } else if !alphabet.contains(word[0]) {
        Some(word[0])
    } else {
        first_out(alphabet, word.drop_first())
    }
}

/// What membership validation returns: the empty word is refused with the
/// null sentinel, a word with a character outside the alphabet is refused
/// with the first such character, and every other word is accepted.
pub open spec fn spec_validate(alphabet: Seq<char>, word: Seq<char>) -> Result<bool, GameError> {
    if word.len() == 0 {
        Err(GameError::NotInAlphabet('\0'))
    } else {
        match first_out(alphabet, word) {
            Some(c) => Err(GameError::NotInAlphabet(c)),
            None => Ok(true),
        }
    }
}

/// `first_out` finds nothing exactly when every character of the word is
/// in the alphabet.
pub proof fn lemma_first_out_none_iff(alphabet: Seq<char>, word: Seq<char>)
    ensures
        first_out(alphabet, word) is None <==> all_in_alpha(alphabet, word),
    decreases word.len(),
{
    if word.len() == 0 {
    } else if !alphabet.contains(word[0]) {
    } else {
        lemma_first_out_none_iff(alphabet, word.drop_first());
        assert forall|i: int| 0 <= i < word.drop_first().len() implies word.drop_first()[i]
            == word[i + 1] by {}
        if all_in_alpha(alphabet, word.drop_first()) {
            assert forall|i: int| 0 <= i < word.len() implies alphabet.contains(word[i]) by {
                if i > 0 {
                    assert(word.drop_first()[i - 1] == word[i]);
                }
            }
        }
        if all_in_alpha(alphabet, word) {
            assert forall|i: int| 0 <= i < word.drop_first().len() implies alphabet.contains(
                word.drop_first()[i],
            ) by {
                assert(word.drop_first()[i] == word[i + 1]);
            }
        }
    }
}

/// Membership validation is refused exactly when the word is empty or
/// holds a character outside the alphabet.
pub proof fn lemma_validate_err_iff(alphabet: Seq<char>, word: Seq<char>)
    ensures
        spec_validate(alphabet, word) is Err <==> (word.len() == 0 || !all_in_alpha(
            alphabet,
            word,
        )),
{
    lemma_first_out_none_iff(alphabet, word);
}

/// Checks that `word` holds only characters of `alphabet`: `Ok(true)` if
/// so, otherwise `NotInAlphabet` carrying the empty-word null sentinel or
/// the first offending character.
pub fn chars_only_in_alpha(alphabet: &str, word: &str) -> (r: Result<bool, GameError>)
    ensures
        r == spec_validate(alphabet@, word@),
{
    if word.is_empty() {
        return Err(GameError::NotInAlphabet('\0'));
    }
    let word_vec = chars_of(word);
    let alphabet_vec = chars_of(alphabet);
    let n: usize = word_vec.len();
    let mut i: usize = 0;
    proof {
        assert(word@.skip(0) =~= word@);
    }
    while i < n
        invariant
            i <= n,
            n == word@.len(),
            word@.len() > 0,
            word_vec@ == word@,
            alphabet_vec@ == alphabet@,
            first_out(alphabet@, word@) == first_out(alphabet@, word@.skip(i as int)),
        decreases n - i,
    {
        let wc = word_vec[i];
        if !contains_char(&alphabet_vec, wc) {
            proof {
                assert(word@.skip(i as int)[0] == word@[i as int]);
            }
            return Err(GameError::NotInAlphabet(wc));
        }
        proof {
            assert(word@.skip(i as int)[0] == word@[i as int]);
            assert(word@.skip(i as int).drop_first() =~= word@.skip(i as int + 1));
        }
        i = i + 1;
    }
    proof {
        assert(word@.skip(n as int) =~= Seq::<char>::empty());
    }
    Ok(true)
}

} // verus!
