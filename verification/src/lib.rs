//! Core logic of a Wordle-style word-guessing game.
//!
//! Given an allowed alphabet and a secret word, the library validates
//! guesses, scores each guess against the secret with a three-way
//! per-letter classification (full match, partial match, no match),
//! tracks the attempt count and the game outcome, and renders the guess
//! history as a symbolic text grid.

/// Alphabet membership validation.
pub mod alphabet;

/// Game state, construction and guess submission.
pub mod game;

/// Rendering of guess rows and of the whole history, as spec-level text.
pub mod render;

/// Small verified helpers for strings and character vectors.
pub mod text;

/// Scoring of one guess against the secret word.
pub mod word;

pub use alphabet::chars_only_in_alpha;
pub use game::Game;
pub use game::GameError;
pub use game::GameStatus;
pub use word::Word;
