use worlde::chars_only_in_alpha;
use worlde::Game;
use worlde::GameError;
use worlde::GameStatus;
use worlde::Word;

#[test]
fn construction_reports_offending_character() {
    // The empty word is refused with the null sentinel.
    assert_eq!(
        Game::new("abc", "").unwrap_err(),
        GameError::NotInAlphabet('\0')
    );
    // A word with a character outside the alphabet is refused with the
    // first such character.
    assert_eq!(
        Game::new("abc", "abzc").unwrap_err(),
        GameError::NotInAlphabet('z')
    );
    // The validator alone behaves the same way.
    assert_eq!(chars_only_in_alpha("abc", "cab"), Ok(true));
    assert_eq!(
        chars_only_in_alpha("abc", "cxy"),
        Err(GameError::NotInAlphabet('x'))
    );
    assert_eq!(
        chars_only_in_alpha("abc", ""),
        Err(GameError::NotInAlphabet('\0'))
    );
}

#[test]
fn wrong_length_wins_over_bad_characters() {
    // A guess of the wrong length is refused as such even though it also
    // holds characters outside the alphabet.
    let mut game = Game::new("abcdefghijklmnopqrstuvwxyz", "abc").unwrap();
    assert_eq!(
        game.guess_word("?!").unwrap_err(),
        GameError::WrongLength {
            expected: 3,
            actual: 2
        }
    );
    assert_eq!(game.attempts, 0);
    assert!(matches!(game.status, GameStatus::InProgress));
}

#[test]
fn guessing_the_secret_wins_with_all_full_marks() {
    let mut game = Game::new("abcdefghijklmnopqrstuvwxyz", "hello").unwrap();
    let word = game.guess_word("hello").unwrap();
    assert_eq!(word.guess_match, vec!['f', 'f', 'f', 'f', 'f']);
    assert_eq!(word.render(), "[H][E][L][L][O]");
    assert!(matches!(game.status, GameStatus::Won));
    assert_eq!(game.attempts, 1);
}

#[test]
fn winning_on_the_last_attempt_still_wins() {
    let mut game = Game::new("abcdefghijklmnopqrstuvwxyz", "abc").unwrap();
    for _ in 0..4 {
        let _ = game.guess_word("cba");
    }
    assert_eq!(game.attempts, 4);
    assert!(matches!(game.status, GameStatus::InProgress));
    let _ = game.guess_word("abc");
    assert!(matches!(game.status, GameStatus::Won));
    assert_eq!(game.attempts, 5);
}

#[test]
fn fifth_failed_guess_loses_and_sixth_is_refused() {
    let mut game = Game::new("abcdefghijklmnopqrstuvwxyz", "abc").unwrap();
    for _ in 0..5 {
        let _ = game.guess_word("cba");
    }
    assert_eq!(game.attempts, 5);
    assert!(matches!(game.status, GameStatus::Lost));
    let history_before = game.render();

    // The sixth submission is refused and mutates nothing.
    assert_eq!(
        game.guess_word("abc").unwrap_err(),
        GameError::GameIsOver(GameStatus::Lost)
    );
    assert_eq!(game.attempts, 5);
    assert_eq!(game.guess_history.len(), 6);
    assert_eq!(game.render(), history_before);
}

#[test]
fn won_game_refuses_further_guesses_unchanged() {
    let mut game = Game::new("abcdefghijklmnopqrstuvwxyz", "abc").unwrap();
    let _ = game.guess_word("abc");
    assert!(matches!(game.status, GameStatus::Won));
    let attempts_before = game.attempts;
    let history_before = game.render();

    assert_eq!(
        game.guess_word("abc").unwrap_err(),
        GameError::GameIsOver(GameStatus::Won)
    );
    assert_eq!(game.attempts, attempts_before);
    assert_eq!(game.render(), history_before);
}

#[test]
fn over_cap_attempts_force_a_loss() {
    // A caller that bypasses the normal flow and pushes the attempt count
    // past the cap finds the game lost on the next submission.
    let mut game = Game::new("abcdefghijklmnopqrstuvwxyz", "abc").unwrap();
    game.attempts = 7;
    assert_eq!(
        game.guess_word("abc").unwrap_err(),
        GameError::GameIsOver(GameStatus::Lost)
    );
    assert!(matches!(game.status, GameStatus::Lost));
}

#[test]
fn placeholder_row_is_three_cells_per_letter() {
    let game = Game::new("abcdefg", "abcdefg").unwrap();
    assert_eq!(game.guess_history.len(), 1);
    assert_eq!(game.guess_history[0], "|_|".repeat(7));
    assert_eq!(game.guess_history[0].chars().count(), 21);
}

#[test]
fn history_accumulates_in_order() {
    let mut game = Game::new("abcdefghijklmnopqrstuvwxyz", "rebus").unwrap();
    let _ = game.guess_word("route");
    let _ = game.guess_word("rebus");
    assert_eq!(
        game.guess_history,
        vec![
            "|_||_||_||_||_|".to_string(),
            "[R]>O<(U)>T<(E)".to_string(),
            "[R][E][B][U][S]".to_string(),
        ]
    );
}

#[test]
fn matching_respects_secret_multiplicity() {
    let marks = Word::how_it_matches("rebus".to_string(), "piers".to_string());
    assert_eq!(marks, vec!['n', 'n', 'p', 'p', 'f']);
    // The duplicate 'o': one full match, and one partial for the secret's
    // remaining 'o'.
    let marks = Word::how_it_matches("foobar".to_string(), "oopsie".to_string());
    assert_eq!(marks, vec!['p', 'f', 'n', 'n', 'n', 'n']);
    // The secret's single 'а' is consumed by the full match at the end:
    // no partial credit is left for the guess's earlier 'а's.
    let marks = Word::how_it_matches("котка".to_string(), "аакта".to_string());
    assert_eq!(marks, vec!['n', 'n', 'p', 'p', 'f']);
    // One 'a' in the secret, already matched exactly: the guess's other
    // 'a's stay unmarked.
    let marks = Word::how_it_matches("abc".to_string(), "aaa".to_string());
    assert_eq!(marks, vec!['f', 'n', 'n']);
    // Two of each letter: every occurrence finds a distinct secret
    // position.
    let marks = Word::how_it_matches("abab".to_string(), "aabb".to_string());
    assert_eq!(marks, vec!['f', 'p', 'p', 'f']);
}

#[test]
fn rendering_uppercases_each_letter() {
    let word = Word {
        guessed: "süß".to_string(),
        guess_match: vec!['n', 'f', 'p'],
    };
    assert_eq!(word.render(), ">S<[Ü](SS)");
}
