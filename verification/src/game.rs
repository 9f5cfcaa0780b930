use vstd::prelude::*;
use vstd::string::StrSliceExecFns;
use crate::alphabet::all_in_alpha;
use crate::alphabet::chars_only_in_alpha;
use crate::alphabet::lemma_validate_err_iff;
use crate::alphabet::spec_validate;
use crate::render::blank_row;
use crate::render::joined_prefix;
use crate::render::joined_rows;
use crate::render::lemma_blank_row_len;
use crate::render::row_of;
use crate::text::chars_of;
use crate::text::push_all;
use crate::text::str_eq;
use crate::text::string_from_chars;
use crate::word::lemma_exact_guess_all_full;
use crate::word::marks_of;
use crate::word::Word;

verus! {

/// A game is lost once this many guesses have been accepted without
/// hitting the secret word.
pub const MAX_ATTEMPTS: u8 = 5;

/// The outcome state of a game: play goes on until it is won or lost.
#[derive(Debug, Clone, Copy, PartialEq, Eq, Structural)]
pub enum GameStatus {
    InProgress,
    Won,
    Lost,
}

/// Why a construction or a guess submission was refused.
#[derive(Debug, Clone, Copy, PartialEq, Eq, Structural)]
pub enum GameError {
    /// A character (or the empty-word null sentinel) is outside the
    /// permitted alphabet.
    NotInAlphabet(char),
    /// The guess's character count differs from the secret word's.
    WrongLength { expected: usize, actual: usize },
    /// A guess was submitted after the game reached a terminal state,
    /// which is carried along for display.
    GameIsOver(GameStatus),
}

/// One game in play: its status, the count of accepted guesses, the
/// permitted alphabet, the secret word, and the rendered rows of every
/// accepted guess (headed by the initial placeholder row).
#[derive(Debug)]
pub struct Game {
    pub status: GameStatus,
    pub attempts: u8,
    pub alphabet: String,
    pub win_word: String,
    pub guess_history: Vec<String>,
}

impl Game {
    /// The status a guess submission acts on: a game whose attempt count
    /// has somehow passed the cap (a caller bypassing the normal flow) is
    /// forced to lost first.
    pub open spec fn effective_status(self) -> GameStatus {
        if self.attempts > MAX_ATTEMPTS {
            GameStatus::Lost
        } else {
            self.status
        }
    }

    /// What construction establishes and guess submission preserves: the
    /// history holds one row more than the accepted guesses, the attempt
    /// count never passes the cap (and sits strictly under it while the
    /// game is in progress), and the secret word is a non-empty word over
    /// the alphabet.
    pub open spec fn wf(self) -> bool {
        &&& self.guess_history@.len() == self.attempts + 1
        &&& self.attempts <= MAX_ATTEMPTS
        &&& (self.status is InProgress ==> self.attempts < MAX_ATTEMPTS)
        &&& self.win_word@.len() > 0
        &&& all_in_alpha(self.alphabet@, self.win_word@)
    }

    /// Starts a game over `alphabet` with `word` as the secret. The word
    /// is refused exactly as membership validation refuses it (empty, or
    /// holding a character outside the alphabet); otherwise the game
    /// opens in progress, with no attempts and a history of exactly one
    /// placeholder row of blank cells, one cell per secret character.
    pub fn new(alphabet: &str, word: &str) -> (r: Result<Self, GameError>)
        ensures
            match r {
                Ok(g) => {
                    &&& word@.len() > 0
                    &&& all_in_alpha(alphabet@, word@)
                    &&& g.wf()
                    &&& g.status == GameStatus::InProgress
                    &&& g.attempts == 0
                    &&& g.alphabet@ == alphabet@
                    &&& g.win_word@ == word@
                    &&& g.guess_history@.len() == 1
                    &&& g.guess_history@[0]@ == blank_row(word@.len() as int)
                    &&& g.guess_history@[0]@.len() == 3 * word@.len()
                },
                Err(e) => {
                    &&& spec_validate(alphabet@, word@) == Err::<bool, GameError>(e)
                    &&& (word@.len() == 0 || !all_in_alpha(alphabet@, word@))
                },
            },
    {
        proof {
            lemma_validate_err_iff(alphabet@, word@);
        }
        match chars_only_in_alpha(alphabet, word) {
            Ok(_) => {
                let n: usize = word.unicode_len();
                let mut row: Vec<char> = Vec::new();
                let mut i: usize = 0;
                while i < n
                    invariant
                        i <= n,
                        row@ == blank_row(i as int),
                    decreases n - i,
                {
                    row.push('|');
                    row.push('_');
                    row.push('|');
                    i = i + 1;
                    proof {
                        assert(row@ =~= blank_row(i as int));
                    }
                }
                proof {
                    lemma_blank_row_len(n as int);
                }
                let empty_guess = string_from_chars(&row);
                let mut guess_history: Vec<String> = Vec::new();
                guess_history.push(empty_guess);
                Ok(
                    Game {
                        status: GameStatus::InProgress,
                        attempts: 0,
                        alphabet: alphabet.to_owned(),
                        win_word: word.to_owned(),
                        guess_history,
                    },
                )
            },
            Err(e) => Err(e),
        }
    }

    /// Submits one guess. A game already won or lost (or pushed past the
    /// attempt cap from outside, which forces it to lost) refuses the
    /// guess and changes nothing else. An in-progress game first checks
    /// the guess's length — a wrong length is always refused as such,
    /// even if the guess also holds characters outside the alphabet —
    /// then its alphabet membership; a refused guess mutates nothing. An
    /// accepted guess is scored against the secret, its rendered row is
    /// appended to the history, the attempt count rises by one, and the
    /// game is won if the guess is the secret word, lost if the cap is
    /// reached, and otherwise still in progress.
    pub fn guess_word(&mut self, guess: &str) -> (r: Result<Word, GameError>)
        ensures
            old(self).wf() ==> final(self).wf(),
            final(self).alphabet == old(self).alphabet,
            final(self).win_word == old(self).win_word,
            match r {
                Err(GameError::GameIsOver(st)) => {
                    &&& !(old(self).effective_status() is InProgress)
                    &&& st == old(self).effective_status()
                    &&& final(self).status == st
                    &&& final(self).attempts == old(self).attempts
                    &&& final(self).guess_history == old(self).guess_history
                },
                Err(GameError::WrongLength { expected, actual }) => {
                    &&& old(self).effective_status() is InProgress
                    &&& guess@.len() != old(self).win_word@.len()
                    &&& expected == old(self).win_word@.len()
                    &&& actual == guess@.len()
                    &&& *final(self) == *old(self)
                },
                Err(GameError::NotInAlphabet(c)) => {
                    &&& old(self).effective_status() is InProgress
                    &&& guess@.len() == old(self).win_word@.len()
                    &&& spec_validate(old(self).alphabet@, guess@) == Err::<bool, GameError>(
                        GameError::NotInAlphabet(c),
                    )
                    &&& *final(self) == *old(self)
                },
                Ok(w) => {
                    &&& old(self).effective_status() is InProgress
                    &&& guess@.len() == old(self).win_word@.len()
                    &&& spec_validate(old(self).alphabet@, guess@) is Ok
                    &&& w.guessed@ == guess@
                    &&& w.guess_match@ == marks_of(old(self).win_word@, guess@)
                    &&& w.wf()
                    &&& final(self).attempts == old(self).attempts + 1
                    &&& final(self).guess_history@.len() == old(self).guess_history@.len() + 1
                    &&& (forall|i: int|
                        0 <= i < old(self).guess_history@.len() ==> final(self).guess_history@[i]
                            == old(self).guess_history@[i])
                    &&& final(self).guess_history@.last()@ == row_of(
                        guess@,
                        marks_of(old(self).win_word@, guess@),
                    )
                    &&& final(self).status == (if guess@ == old(self).win_word@ {
                        GameStatus::Won
                    } else if old(self).attempts + 1 == MAX_ATTEMPTS {
                        GameStatus::Lost
                    } else {
                        GameStatus::InProgress
                    })
                },
            },
            // A guess of the wrong length is always refused as such, even
            // one that also holds characters outside the alphabet.
            (old(self).effective_status() is InProgress && guess@.len()
                != old(self).win_word@.len()) ==> (r == Err::<Word, GameError>(
                GameError::WrongLength {
                    expected: old(self).win_word@.len() as usize,
                    actual: guess@.len() as usize,
                },
            ) && *final(self) == *old(self)),
            // Submitting the secret word of a well-formed in-progress
            // game is always accepted, earns a full match at every
            // position, and wins the game.
            (old(self).wf() && old(self).status is InProgress && guess@
                == old(self).win_word@) ==> (r is Ok && final(self).status == GameStatus::Won
                && forall|i: int|
                0 <= i < guess@.len() ==> r->Ok_0.guess_match@[i] == 'f'),
    {
        proof {
            lemma_validate_err_iff(old(self).alphabet@, guess@);
            lemma_exact_guess_all_full(old(self).win_word@);
        }
        if self.attempts > MAX_ATTEMPTS {
            self.status = GameStatus::Lost;
        }
        match self.status {
            GameStatus::Won => Err(GameError::GameIsOver(GameStatus::Won)),
            GameStatus::Lost => Err(GameError::GameIsOver(GameStatus::Lost)),
            GameStatus::InProgress => {
                let win_word_len: usize = self.win_word.as_str().unicode_len();
                let guess_len: usize = guess.unicode_len();
                if guess_len != win_word_len {
                    return Err(
                        GameError::WrongLength { expected: win_word_len, actual: guess_len },
                    );
                }
                match chars_only_in_alpha(self.alphabet.as_str(), guess) {
                    Err(e) => Err(e),
                    Ok(_) => {
                        let new_word = Word {
                            guessed: guess.to_owned(),
                            guess_match: Word::how_it_matches(
                                self.win_word.clone(),
                                guess.to_owned(),
                            ),
                        };
                        let row = new_word.render();
                        self.guess_history.push(row);
                        self.attempts = self.attempts + 1;
                        if str_eq(self.win_word.as_str(), guess) {
                            self.status = GameStatus::Won;
                        } else if self.attempts == MAX_ATTEMPTS {
                            self.status = GameStatus::Lost;
                        }
                        Ok(new_word)
                    },
                }
            },
        }
    }

    /// Renders the whole history: each row joined by a single newline, in
    /// chronological order (oldest first), with no trailing newline.
    pub fn render(&self) -> (s: String)
        ensures
            s@ == joined_rows(self.guess_history.deep_view()),
    {
        let n: usize = self.guess_history.len();
        let mut acc: Vec<char> = Vec::new();
        let mut i: usize = 0;
        while i < n
            invariant
                i <= n,
                n == self.guess_history@.len(),
                acc@ == joined_prefix(self.guess_history.deep_view(), i as int),
            decreases n - i,
        {
            if i > 0 {
                acc.push('\n');
            }
            let row = chars_of(self.guess_history[i].as_str());
            push_all(&mut acc, &row);
            i = i + 1;
            proof {
                assert(self.guess_history.deep_view()[i - 1] == self.guess_history@[i - 1]@);
                assert(acc@ =~= joined_prefix(self.guess_history.deep_view(), i as int));
            }
        }
        string_from_chars(&acc)
    }
}

} // verus!
