use vstd::prelude::*;
use crate::text::upper_of;

verus! {

/// `n` repetitions of the three-character blank cell `|_|`, the initial
/// placeholder row for a secret of `n` characters.
pub open spec fn blank_row(n: int) -> Seq<char>
    decreases n,
{
    if n <= 0 {
        Seq::empty()
    } else {
        blank_row(n - 1) + seq!['|', '_', '|']
    }
}

/// The placeholder row for a secret of `n` characters is exactly `3 * n`
/// characters long.
pub proof fn lemma_blank_row_len(n: int)
    requires
        n >= 0,
    ensures
        blank_row(n).len() == 3 * n,
    decreases n,
{
    if n > 0 {
        lemma_blank_row_len(n - 1);
    }
}

/// The rendered cell for one guessed character and its mark: the
/// uppercased character in square brackets for a full match (`'f'`), in
/// parentheses for a partial match (`'p'`), in angle marks for no match
/// (`'n'`); any other mark renders as nothing.
pub open spec fn cell_of(c: char, m: char) -> Seq<char> {
    if m == 'f' {
        seq!['['] + upper_of(c) + seq![']']
    } else if m == 'p' {
        seq!['('] + upper_of(c) + seq![')']
    } else if m == 'n' {
        seq!['>'] + upper_of(c) + seq!['<']
    } else {
        Seq::empty()
    }
}

/// The first `n` cells of a rendered guess row, concatenated with no
/// separators.
pub open spec fn row_prefix(letters: Seq<char>, marks: Seq<char>, n: int) -> Seq<char>
    decreases n,
{
    if n <= 0 {
        Seq::empty()
    } else {
        row_prefix(letters, marks, n - 1) + cell_of(letters[n - 1], marks[n - 1])
    }
}

/// The rendered row for a guess: one cell per mark, in guess order.
pub open spec fn row_of(letters: Seq<char>, marks: Seq<char>) -> Seq<char> {
    row_prefix(letters, marks, marks.len() as int)
}

/// The first `n` rows joined by single newlines, oldest first, with no
/// trailing newline.
pub open spec fn joined_prefix(rows: Seq<Seq<char>>, n: int) -> Seq<char>
    decreases n,
{
    if n <= 0 {
        Seq::empty()
    } else if n == 1 {
        rows[0]
    } else {
        joined_prefix(rows, n - 1) + seq!['\n'] + rows[n - 1]
    }
}

/// A whole history rendered as text: each row joined by a single newline,
/// in chronological order, with no trailing newline.
pub open spec fn joined_rows(rows: Seq<Seq<char>>) -> Seq<char> {
    joined_prefix(rows, rows.len() as int)
}

} // verus!
