use vstd::prelude::*;
use crate::render::row_of;
use crate::render::row_prefix;
use crate::text::char_upper;
use crate::text::chars_of;
use crate::text::push_all;
use crate::text::string_from_chars;

verus! {

/// One evaluated guess: the letters as submitted, and one mark per
/// letter — `'f'` for a full match, `'p'` for a partial match, `'n'` for
/// no match.
#[derive(Debug)]
pub struct Word {
    pub guessed: String,
    pub guess_match: Vec<char>,
}

/// How many of the first `n` positions hold `c` in `a` but not in `b`.
pub open spec fn count_only_in(a: Seq<char>, b: Seq<char>, c: char, n: int) -> int
    decreases n,
{
    if n <= 0 {
        0
    } else {
        count_only_in(a, b, c, n - 1) + if a[n - 1] == c && b[n - 1] != c {
            1int
        } else {
            0int
        }
    }
}

/// How many of the first `n` positions hold `c` in both `a` and `b`.
pub open spec fn count_in_both(a: Seq<char>, b: Seq<char>, c: char, n: int) -> int
    decreases n,
{
    if n <= 0 {
        0
    } else {
        count_in_both(a, b, c, n - 1) + if a[n - 1] == c && b[n - 1] == c {
            1int
        } else {
            0int
        }
    }
}

/// How many of the first `n` positions of `s` hold `c`.
pub open spec fn count_occurrences(s: Seq<char>, c: char, n: int) -> int
    decreases n,
{
    if n <= 0 {
        0
    } else {
        count_occurrences(s, c, n - 1) + if s[n - 1] == c {
            1int
        } else {
            0int
        }
    }
}

/// The classification of the guess's character at position `i` against
/// the secret: a full match where it equals the secret's character at the
/// same position. Otherwise the guess's unmatched occurrences of that
/// letter claim, left to right, the secret's occurrences of it that no
/// full match consumed: a partial match while one is left to claim, no
/// match after that — so partial credit respects the letter's
/// multiplicity in the secret, and exact matches are resolved first.
pub open spec fn mark_of(secret: Seq<char>, guess: Seq<char>, i: int) -> char {
    if secret[i] == guess[i] {
        'f'
    } else if count_only_in(guess, secret, guess[i], i) < count_only_in(
        secret,
        guess,
        guess[i],
        secret.len() as int,
    ) {
        'p'
    } else {
        'n'
    }
}

/// The whole mark sequence for a guess, one mark per position.
pub open spec fn marks_of(secret: Seq<char>, guess: Seq<char>) -> Seq<char> {
    Seq::new(secret.len(), |i: int| mark_of(secret, guess, i))
}

/// Guessing the secret itself earns a full match at every position.
pub proof fn lemma_exact_guess_all_full(secret: Seq<char>)
    ensures
        marks_of(secret, secret).len() == secret.len(),
        forall|i: int| 0 <= i < secret.len() ==> marks_of(secret, secret)[i] == 'f',
{
}

/// How many of the first `n` guess positions earn a full or partial mark
/// for the letter `c`.
pub open spec fn count_credited(secret: Seq<char>, guess: Seq<char>, c: char, n: int) -> int
    decreases n,
{
    if n <= 0 {
        0
    } else {
        count_credited(secret, guess, c, n - 1) + if guess[n - 1] == c && (mark_of(
            secret,
            guess,
            n - 1,
        ) == 'f' || mark_of(secret, guess, n - 1) == 'p') {
            1int
        } else {
            0int
        }
    }
}

/// Counting a letter in the first `n` positions of `s` splits over the
/// positions where `g` holds it too and those where it does not.
proof fn lemma_count_split(s: Seq<char>, g: Seq<char>, c: char, n: int)
    ensures
        count_occurrences(s, c, n) == count_in_both(s, g, c, n) + count_only_in(s, g, c, n),
    decreases n,
{
    if n > 0 {
        lemma_count_split(s, g, c, n - 1);
    }
}

/// Counting positions where two sequences both hold a letter does not
/// depend on their order.
proof fn lemma_count_in_both_symmetric(a: Seq<char>, b: Seq<char>, c: char, n: int)
    ensures
        count_in_both(a, b, c, n) == count_in_both(b, a, c, n),
    decreases n,
{
    if n > 0 {
        lemma_count_in_both_symmetric(a, b, c, n - 1);
    }
}

/// A count of positions is never negative.
proof fn lemma_count_only_in_nonneg(a: Seq<char>, b: Seq<char>, c: char, n: int)
    ensures
        count_only_in(a, b, c, n) >= 0,
    decreases n,
{
    if n > 0 {
        lemma_count_only_in_nonneg(a, b, c, n - 1);
    }
}

/// Over the first `n` guess positions, the marks credited for a letter
/// are its full matches plus as many partial matches as both demand and
/// supply allow: the smaller of the guess's unmatched occurrences seen so
/// far and the secret's unconsumed occurrences overall.
proof fn lemma_credited_exact(secret: Seq<char>, guess: Seq<char>, c: char, n: int)
    ensures
        count_credited(secret, guess, c, n) == count_in_both(guess, secret, c, n) + (
        if count_only_in(guess, secret, c, n) <= count_only_in(
            secret,
            guess,
            c,
            secret.len() as int,
        ) {
            count_only_in(guess, secret, c, n)
        } else {
            count_only_in(secret, guess, c, secret.len() as int)
        }),
    decreases n,
{
    lemma_count_only_in_nonneg(secret, guess, c, secret.len() as int);
    if n > 0 {
        lemma_credited_exact(secret, guess, c, n - 1);
        let supply = count_only_in(secret, guess, c, secret.len() as int);
        if guess[n - 1] == c && secret[n - 1] == c {
            assert(mark_of(secret, guess, n - 1) == 'f');
            assert(count_in_both(guess, secret, c, n) == count_in_both(guess, secret, c, n - 1)
                + 1);
            assert(count_only_in(guess, secret, c, n) == count_only_in(guess, secret, c, n - 1));
        } else if guess[n - 1] == c && secret[n - 1] != c {
            assert(count_only_in(guess, secret, c, n) == count_only_in(guess, secret, c, n - 1)
                + 1);
            assert(count_in_both(guess, secret, c, n) == count_in_both(guess, secret, c, n - 1));
            if count_only_in(guess, secret, c, n - 1) < supply {
                assert(mark_of(secret, guess, n - 1) == 'p');
            } else {
                assert(mark_of(secret, guess, n - 1) == 'n');
            }
        } else {
            assert(count_only_in(guess, secret, c, n) == count_only_in(guess, secret, c, n - 1));
            assert(count_in_both(guess, secret, c, n) == count_in_both(guess, secret, c, n - 1));
        }
    }
}

/// The tie-break rule for repeated letters: across one guess, the full
/// and partial marks earned for a letter never exceed the letter's
/// multiplicity in the secret.
pub proof fn lemma_multiplicity_cap(secret: Seq<char>, guess: Seq<char>, c: char)
    requires
        guess.len() == secret.len(),
    ensures
        count_credited(secret, guess, c, guess.len() as int) <= count_occurrences(
            secret,
            c,
            secret.len() as int,
        ),
{
    let n = secret.len() as int;
    lemma_credited_exact(secret, guess, c, n);
    lemma_count_in_both_symmetric(guess, secret, c, n);
    lemma_count_split(secret, guess, c, n);
}

impl Word {
    /// A guess's marks cover each of its letters, one for one.
    pub open spec fn wf(self) -> bool {
        self.guess_match@.len() == self.guessed@.len()
    }

    /// Scores `guess` against the secret `word`, position by position: a
    /// full match where the characters coincide; elsewhere each
    /// occurrence of a guessed letter earns a partial match while the
    /// secret has occurrences of that letter left unclaimed by full or
    /// earlier partial matches, and no match once none remains.
    pub fn how_it_matches(word: String, guess: String) -> (marks: Vec<char>)
        requires
            guess@.len() == word@.len(),
        ensures
            marks@ == marks_of(word@, guess@),
    {
        let secret_vec = chars_of(word.as_str());
        let guess_vec = chars_of(guess.as_str());
        let n: usize = secret_vec.len();
        let mut marks: Vec<char> = Vec::new();
        let mut i: usize = 0;
        while i < n
            invariant
                i <= n,
                n == word@.len(),
                guess@.len() == word@.len(),
                secret_vec@ == word@,
                guess_vec@ == guess@,
                marks@ == marks_of(word@, guess@).subrange(0, i as int),
            decreases n - i,
        {
            let gc = guess_vec[i];
            let m: char = if secret_vec[i] == gc {
                'f'
            } else {
                let claimed = count_only(&guess_vec, &secret_vec, gc, i);
                let supply = count_only(&secret_vec, &guess_vec, gc, n);
                if claimed < supply {
                    'p'
                } else {
                    'n'
                }
            };
            marks.push(m);
            i = i + 1;
            proof {
                assert(marks@ =~= marks_of(word@, guess@).subrange(0, i as int));
            }
        }
        proof {
            assert(marks_of(word@, guess@).subrange(0, n as int) =~= marks_of(word@, guess@));
        }
        marks
    }

    /// Renders the guess as one row of cells, one cell per mark, in guess
    /// order, each letter uppercased.
    pub fn render(&self) -> (s: String)
        requires
            self.guess_match@.len() <= self.guessed@.len(),
        ensures
            s@ == row_of(self.guessed@, self.guess_match@),
    {
        let letters = chars_of(self.guessed.as_str());
        let n: usize = self.guess_match.len();
        let mut acc: Vec<char> = Vec::new();
        let mut i: usize = 0;
        while i < n
            invariant
                i <= n,
                n == self.guess_match@.len(),
                self.guess_match@.len() <= self.guessed@.len(),
                letters@ == self.guessed@,
                acc@ == row_prefix(self.guessed@, self.guess_match@, i as int),
            decreases n - i,
        {
            let m = self.guess_match[i];
            if m == 'f' {
                let up = char_upper(letters[i]);
                acc.push('[');
                push_all(&mut acc, &up);
                acc.push(']');
            } else if m == 'p' {
                let up = char_upper(letters[i]);
                acc.push('(');
                push_all(&mut acc, &up);
                acc.push(')');
            } else if m == 'n' {
                let up = char_upper(letters[i]);
                acc.push('>');
                push_all(&mut acc, &up);
                acc.push('<');
            }
            i = i + 1;
            proof {
                assert(acc@ =~= row_prefix(self.guessed@, self.guess_match@, i as int));
            }
        }
        string_from_chars(&acc)
    }
}

/// Counts, over the first `n` positions, those where `a` holds `c` and
/// `b` does not.
fn count_only(a: &Vec<char>, b: &Vec<char>, c: char, n: usize) -> (k: usize)
    requires
        n <= a@.len(),
        n <= b@.len(),
    ensures
        k as int == count_only_in(a@, b@, c, n as int),
{
    let mut k: usize = 0;
    let mut j: usize = 0;
    while j < n
        invariant
            j <= n,
            n <= a@.len(),
            n <= b@.len(),
            k <= j,
            k as int == count_only_in(a@, b@, c, j as int),
        decreases n - j,
    {
        if a[j] == c && b[j] != c {
            k = k + 1;
        }
        j = j + 1;
    }
    k
}

} // verus!
